//! What the cards show: the stat lines of the stats card, the languages of
//! the languages card and the sizes they are laid out with.

pub mod stats;
pub mod style;
pub mod top_langs;

pub use stats::{get_stat_collections, StatItem};

use vstd::prelude::*;

verus! {

/// A color of a card element.
#[derive(Debug, Clone, Default)]
pub struct Color {}

/// The icons a stat line can carry.
#[derive(Debug, Clone, Copy, PartialEq, Eq, Structural)]
pub enum Icon {
    Star,
    Commits,
    Prs,
    Issues,
    Contribs,
}

impl Icon {
    /// Every icon, in the order the stat lines are shown.
    pub fn all() -> (r: Vec<Icon>)
        ensures
            r@ == seq![Icon::Star, Icon::Commits, Icon::Prs, Icon::Issues, Icon::Contribs],
    {
        let r = vec![Icon::Star, Icon::Commits, Icon::Prs, Icon::Issues, Icon::Contribs];
        assert(r@ =~= seq![Icon::Star, Icon::Commits, Icon::Prs, Icon::Issues, Icon::Contribs]);
        r
    }

    /// The test id of the icon.
    pub fn as_str(&self) -> (r: &'static str)
        ensures
            r@ == icon_name(*self),
    {
        match self {
            Icon::Star => "stars",
            Icon::Commits => "commits",
            Icon::Prs => "prs",
            Icon::Issues => "issues",
            Icon::Contribs => "contribs",
        }
    }
}

pub open spec fn icon_name(i: Icon) -> Seq<char> {
    match i {
        Icon::Star => "stars"@,
        Icon::Commits => "commits"@,
        Icon::Prs => "prs"@,
        Icon::Issues => "issues"@,
        Icon::Contribs => "contribs"@,
    }
}

} // verus!
