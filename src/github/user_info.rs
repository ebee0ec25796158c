//! The profile query: a user's counters.

use vstd::prelude::*;

verus! {

/// The profile query.
pub struct UserInfo;

pub const OPERATION_NAME: &'static str = "UserInfo";

pub const QUERY: &'static str = "query UserInfo($login: String!) {\n  user(login: $login) {\n    name\n    login\n    contributionsCollection {\n      totalCommitContributions\n      restrictedContributionsCount\n    }\n    repositoriesContributedTo(\n      contributionTypes: [COMMIT, ISSUE, PULL_REQUEST, REPOSITORY]\n    ) {\n      totalCount\n    }\n    pullRequests {\n      totalCount\n    }\n    openIssues: issues(states: OPEN) {\n      totalCount\n    }\n    closedIssues: issues(states: CLOSED) {\n      totalCount\n    }\n    followers {\n      totalCount\n    }\n    repositories(ownerAffiliations: OWNER) {\n      totalCount\n    }\n  }\n}\n";

/// The variables of the profile query.
#[derive(Debug, Clone)]
pub struct Variables {
    pub login: String,
}

/// The answer to the profile query.
#[derive(Debug)]
pub struct ResponseData {
    pub user: Option<UserInfoUser>,
}

#[derive(Debug)]
pub struct UserInfoUser {
    pub name: Option<String>,
    pub login: String,
    pub contributions_collection: UserInfoUserContributionsCollection,
    pub repositories_contributed_to: UserInfoUserRepositoriesContributedTo,
    pub pull_requests: UserInfoUserPullRequests,
    pub open_issues: UserInfoUserOpenIssues,
    pub closed_issues: UserInfoUserClosedIssues,
    pub followers: UserInfoUserFollowers,
    pub repositories: UserInfoUserRepositories,
}

#[derive(Debug)]
pub struct UserInfoUserContributionsCollection {
    pub total_commit_contributions: i64,
    pub restricted_contributions_count: i64,
}

#[derive(Debug)]
pub struct UserInfoUserRepositoriesContributedTo {
    pub total_count: i64,
}

#[derive(Debug)]
pub struct UserInfoUserPullRequests {
    pub total_count: i64,
}

#[derive(Debug)]
pub struct UserInfoUserOpenIssues {
    pub total_count: i64,
}

#[derive(Debug)]
pub struct UserInfoUserClosedIssues {
    pub total_count: i64,
}

#[derive(Debug)]
pub struct UserInfoUserFollowers {
    pub total_count: i64,
}

#[derive(Debug)]
pub struct UserInfoUserRepositories {
    pub total_count: i64,
}

} // verus!
