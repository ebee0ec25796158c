//! GitHub aggregation: the query shapes, the stats and languages built from
//! the answers, and the paging through a user's repositories.

pub mod lang_repos;
pub mod stars;
pub mod stats;
pub mod top_langs;
pub mod user_info;
pub mod user_repos;

use vstd::prelude::*;

verus! {

/// Why an answer from GitHub could not be turned into a result.
#[derive(Debug, Clone, Copy, PartialEq, Eq, Structural)]
pub enum GithubError {
    /// The answer holds no user of the requested login.
    UserNotFound,
    /// A total does not fit in its integer type.
    Overflow,
    /// The answer holds a count below zero.
    Malformed,
}

} // verus!
