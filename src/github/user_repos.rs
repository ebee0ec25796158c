//! The repository query: one page of a user's own repositories with their
//! star counts.

use vstd::prelude::*;

verus! {

/// The repository query.
pub struct UserRepo;

pub const OPERATION_NAME: &'static str = "UserRepo";

pub const QUERY: &'static str = "query UserRepo($login: String!, $after: String) {\n  user(login: $login) {\n    repositories(\n      first: 100\n      ownerAffiliations: OWNER\n      isFork: false\n      orderBy: { direction: DESC, field: STARGAZERS }\n      after: $after\n    ) {\n      nodes {\n        name\n        stargazers {\n          totalCount\n        }\n      }\n      pageInfo {\n        hasNextPage\n        endCursor\n      }\n    }\n  }\n}\n";

/// The variables of the repository query: whose repositories, and the
/// cursor after which the page starts (none for the first page).
#[derive(Debug, Clone)]
pub struct Variables {
    pub login: String,
    pub after: Option<String>,
}

/// The answer to the repository query.
#[derive(Debug)]
pub struct ResponseData {
    pub user: Option<UserRepoUser>,
}

#[derive(Debug)]
pub struct UserRepoUser {
    pub repositories: UserRepoUserRepositories,
}

/// One page of repositories.
#[derive(Debug)]
pub struct UserRepoUserRepositories {
    pub nodes: Option<Vec<Option<UserRepoUserRepositoriesNodes>>>,
    pub page_info: UserRepoUserRepositoriesPageInfo,
}

#[derive(Debug)]
pub struct UserRepoUserRepositoriesNodes {
    pub name: String,
    pub stargazers: UserRepoUserRepositoriesNodesStargazers,
}

#[derive(Debug, Clone, Copy)]
pub struct UserRepoUserRepositoriesNodesStargazers {
    pub total_count: i64,
}

/// Whether another page follows, and the cursor that reaches it.
#[derive(Debug)]
pub struct UserRepoUserRepositoriesPageInfo {
    pub has_next_page: bool,
    pub end_cursor: Option<String>,
}

} // verus!
