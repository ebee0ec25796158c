//! The stat lines of the stats card.

use vstd::prelude::*;

use super::Icon;
use crate::github::stats::UserGithubStats;

verus! {

/// One line of the stats card: an icon, a label and a value.
#[derive(Debug, Clone)]
pub struct StatItem {
    pub icon: Icon,
    pub label: String,
    pub value: i64,
}

impl StatItem {
    pub fn new(icon: Icon, label: &str, value: i64) -> (r: StatItem)
        ensures
            r.icon == icon,
            r.label@ == label@,
            r.value == value,
    {
        StatItem { icon, label: String::from_str(label), value }
    }
}

/// The label shown for an icon's line.
pub open spec fn stat_label(i: Icon) -> Seq<char> {
    match i {
        Icon::Star => "Total Stars Earned: "@,
        Icon::Commits => "Total Commits (2022): "@,
        Icon::Prs => "Total PRs: "@,
        Icon::Issues => "Total Issues: "@,
        Icon::Contribs => "Contributed to (last year): "@,
    }
}

/// The value shown on an icon's line.
pub open spec fn stat_value(i: Icon, github: UserGithubStats) -> i64 {
    match i {
        Icon::Star => github.stars,
        Icon::Commits => github.commits,
        Icon::Prs => github.prs,
        Icon::Issues => github.issues,
        Icon::Contribs => github.contribs,
    }
}

pub open spec fn stat_icons() -> Seq<Icon> {
    seq![Icon::Star, Icon::Commits, Icon::Prs, Icon::Issues, Icon::Contribs]
}

/// The lines of the stats card, one per icon: stars, commits, pull
/// requests, issues and contributions.
pub fn get_stat_collections(github: &UserGithubStats) -> (r: Vec<StatItem>)
    ensures
        r@.len() == 5,
        forall|i: int| 0 <= i < 5 ==> {
            &&& (#[trigger] r@[i]).icon == stat_icons()[i]
            &&& r@[i].label@ == stat_label(stat_icons()[i])
            &&& r@[i].value == stat_value(stat_icons()[i], *github)
        },
{
    let icons = Icon::all();
    let mut result: Vec<StatItem> = Vec::new();
    let mut k: usize = 0;
    while k < icons.len()
        invariant
            icons@ == stat_icons(),
            k <= 5,
            result@.len() == k,
            forall|i: int| 0 <= i < k ==> {
                &&& (#[trigger] result@[i]).icon == stat_icons()[i]
                &&& result@[i].label@ == stat_label(stat_icons()[i])
                &&& result@[i].value == stat_value(stat_icons()[i], *github)
            },
        decreases 5 - k,
    {
        let icon = icons[k];
        let item = match icon {
            Icon::Star => StatItem::new(icon, "Total Stars Earned: ", github.stars),
            Icon::Commits => StatItem::new(icon, "Total Commits (2022): ", github.commits),
            Icon::Prs => StatItem::new(icon, "Total PRs: ", github.prs),
            Icon::Issues => StatItem::new(icon, "Total Issues: ", github.issues),
            Icon::Contribs => StatItem::new(icon, "Contributed to (last year): ", github.contribs),
        };
        result.push(item);
        k = k + 1;
    }
    result
}

} // verus!
