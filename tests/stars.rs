use mine_stats::github::stars::StarsQuery;
use mine_stats::github::user_repos::{
    ResponseData, UserRepoUser, UserRepoUserRepositories, UserRepoUserRepositoriesNodes,
    UserRepoUserRepositoriesNodesStargazers, UserRepoUserRepositoriesPageInfo,
};
use mine_stats::github::GithubError;

fn page(repos: &[(&str, i64)], has_next: bool, cursor: Option<&str>) -> ResponseData {
    let nodes = repos
        .iter()
        .map(|(name, stars)| {
            Some(UserRepoUserRepositoriesNodes {
                name: name.to_string(),
                stargazers: UserRepoUserRepositoriesNodesStargazers { total_count: *stars },
            })
        })
        .collect();
    ResponseData {
        user: Some(UserRepoUser {
            repositories: UserRepoUserRepositories {
                nodes: Some(nodes),
                page_info: UserRepoUserRepositoriesPageInfo {
                    has_next_page: has_next,
                    end_cursor: cursor.map(|c| c.to_string()),
                },
            },
        }),
    }
}

#[test]
fn pages_are_summed_until_the_last() {
    let mut q = StarsQuery::new("octocat", vec!["secret".to_string()]);
    let first = q.next_variables().unwrap();
    assert_eq!(first.login, "octocat");
    assert_eq!(first.after, None);
    q.add_page(page(&[("a", 10), ("secret", 1000)], true, Some("c1"))).unwrap();
    let second = q.next_variables().unwrap();
    assert_eq!(second.after.as_deref(), Some("c1"));
    q.add_page(page(&[("b", 5), ("c", 0)], false, Some("c2"))).unwrap();
    assert!(q.next_variables().is_none());
    assert!(q.is_done());
    assert_eq!(q.total(), 15);
}

#[test]
fn empty_cursor_ends_paging() {
    let mut q = StarsQuery::new("octocat", vec![]);
    q.add_page(page(&[("a", 1)], true, Some(""))).unwrap();
    assert!(q.next_variables().is_none());
    let mut q = StarsQuery::new("octocat", vec![]);
    q.add_page(page(&[("a", 1)], true, None)).unwrap();
    assert!(q.is_done());
    assert_eq!(q.total(), 1);
}

#[test]
fn missing_nodes_count_nothing() {
    let mut q = StarsQuery::new("octocat", vec![]);
    let mut data = page(&[], false, None);
    data.user.as_mut().unwrap().repositories.nodes = None;
    q.add_page(data).unwrap();
    assert_eq!(q.total(), 0);
}

#[test]
fn missing_user_stops_with_an_error() {
    let mut q = StarsQuery::new("ghost", vec![]);
    assert_eq!(q.add_page(ResponseData { user: None }), Err(GithubError::UserNotFound));
    assert!(!q.is_done());
    assert_eq!(q.total(), 0);
}

#[test]
fn star_total_overflow_is_refused() {
    let mut q = StarsQuery::new("octocat", vec![]);
    q.add_page(page(&[("a", i64::MAX)], true, Some("c"))).unwrap();
    assert_eq!(q.add_page(page(&[("b", 1)], false, None)), Err(GithubError::Overflow));
    assert_eq!(q.total(), i64::MAX);
    assert!(!q.is_done());
}
