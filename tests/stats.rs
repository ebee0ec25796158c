use mine_stats::github::stats::{Rank, UserGithubStats};
use mine_stats::github::user_info::{
    ResponseData, UserInfoUser, UserInfoUserClosedIssues, UserInfoUserContributionsCollection,
    UserInfoUserFollowers, UserInfoUserOpenIssues, UserInfoUserPullRequests,
    UserInfoUserRepositories, UserInfoUserRepositoriesContributedTo,
};
use mine_stats::github::GithubError;
use mine_stats::utils::SystemTimeWrapper;

const COMMITS_OFFSET: f64 = 1.65;
const CONTRIBS_OFFSET: f64 = 1.65;
const ISSUES_OFFSET: f64 = 1.;
const STARS_OFFSET: f64 = 0.75;
const PRS_OFFSET: f64 = 0.5;
const FOLLOWERS_OFFSET: f64 = 0.45;
const REPO_OFFSET: f64 = 1.;
const ALL_OFFSETS: f64 =
    CONTRIBS_OFFSET + ISSUES_OFFSET + STARS_OFFSET + PRS_OFFSET + FOLLOWERS_OFFSET + REPO_OFFSET;
const TOTAL_VALUES: f64 = 231.;

fn normalcdf(mean: f64, sigma: f64, to: f64) -> f64 {
    let z = (to - mean) / (2. * sigma * sigma).sqrt();
    let t = 1. / (1. + 0.3275911 * z.abs());
    let a1 = 0.254_829_592;
    let a2 = -0.284_496_736;
    let a3 = 1.421_413_741;
    let a4 = -1.453_152_027;
    let a5 = 1.061_405_429;
    let erf = 1. - ((((a5 * t + a4) * t + a3) * t + a2) * t + a1) * t * (-z * z).exp();
    (1. / 2.) * (1. + z.signum() * erf)
}

fn normalized_score(stats: &UserGithubStats) -> u8 {
    let score = stats.weighted_score() as f64 / 10000.;
    (normalcdf(score, TOTAL_VALUES, ALL_OFFSETS) * 100.).round() as u8
}

fn stats_with(commits: i64, repos: i64, followers: i64, contribs: i64, stars: i64, prs: i64, issues: i64) -> UserGithubStats {
    UserGithubStats {
        login: String::new(),
        name: String::new(),
        stars,
        commits,
        repos,
        prs,
        issues,
        contribs,
        followers,
        rank: Rank::default(),
        create_at: SystemTimeWrapper { secs: 0, nanos: 0 },
    }
}

#[test]
fn test_calculate_rank() {
    let mut stats = stats_with(100, 5, 100, 61, 400, 300, 200);
    let normalized = normalized_score(&stats);
    stats.update_rank(normalized);
    assert_eq!(
        stats.rank,
        Rank {
            level: "A+".to_string(),
            score: 49
        }
    );
}

#[test]
fn weighted_score_of_fixture() {
    let stats = stats_with(100, 5, 100, 61, 400, 300, 200);
    // 165 + 100.65 + 200 + 300 + 150 + 45 + 5, in ten-thousandths over 100
    assert_eq!(stats.weighted_score(), 96565);
}

#[test]
fn weighted_score_grows_with_each_counter() {
    let base = stats_with(1, 1, 1, 1, 1, 1, 1);
    let s = base.weighted_score();
    assert!(stats_with(2, 1, 1, 1, 1, 1, 1).weighted_score() > s);
    assert!(stats_with(1, 2, 1, 1, 1, 1, 1).weighted_score() > s);
    assert!(stats_with(1, 1, 2, 1, 1, 1, 1).weighted_score() > s);
    assert!(stats_with(1, 1, 1, 2, 1, 1, 1).weighted_score() > s);
    assert!(stats_with(1, 1, 1, 1, 2, 1, 1).weighted_score() > s);
    assert!(stats_with(1, 1, 1, 1, 1, 2, 1).weighted_score() > s);
    assert!(stats_with(1, 1, 1, 1, 1, 1, 2).weighted_score() > s);
}

#[test]
fn rank_letters_follow_thresholds() {
    assert_eq!(Rank::from_score(0).level, "S+");
    assert_eq!(Rank::from_score(1).level, "S");
    assert_eq!(Rank::from_score(24).level, "S");
    assert_eq!(Rank::from_score(25).level, "A++");
    assert_eq!(Rank::from_score(44).level, "A++");
    assert_eq!(Rank::from_score(45).level, "A+");
    assert_eq!(Rank::from_score(59).level, "A+");
    assert_eq!(Rank::from_score(60).level, "B+");
    assert_eq!(Rank::from_score(100).level, "B+");
    assert_eq!(Rank::from_score(77).score, 77);
}

#[test]
fn default_rank_is_c() {
    assert_eq!(Rank::default(), Rank { level: "C".to_string(), score: 0 });
}

fn user(name: Option<&str>, open: i64, closed: i64) -> UserInfoUser {
    UserInfoUser {
        name: name.map(|n| n.to_string()),
        login: "octocat".to_string(),
        contributions_collection: UserInfoUserContributionsCollection {
            total_commit_contributions: 12,
            restricted_contributions_count: 3,
        },
        repositories_contributed_to: UserInfoUserRepositoriesContributedTo { total_count: 4 },
        pull_requests: UserInfoUserPullRequests { total_count: 5 },
        open_issues: UserInfoUserOpenIssues { total_count: open },
        closed_issues: UserInfoUserClosedIssues { total_count: closed },
        followers: UserInfoUserFollowers { total_count: 6 },
        repositories: UserInfoUserRepositories { total_count: 7 },
    }
}

#[test]
fn stats_from_profile_answer() {
    let now = SystemTimeWrapper { secs: 10, nanos: 5 };
    let data = ResponseData { user: Some(user(Some("The Octocat"), 2, 3)) };
    let s = UserGithubStats::from_response(data, 42, now).unwrap();
    assert_eq!(s.login, "octocat");
    assert_eq!(s.name, "The Octocat");
    assert_eq!(s.stars, 42);
    assert_eq!(s.commits, 12);
    assert_eq!(s.repos, 7);
    assert_eq!(s.prs, 5);
    assert_eq!(s.issues, 5);
    assert_eq!(s.contribs, 4);
    assert_eq!(s.followers, 6);
    assert_eq!(s.rank, Rank::default());
    assert_eq!(s.create_at, now);
}

#[test]
fn display_name_falls_back_to_login() {
    let now = SystemTimeWrapper { secs: 0, nanos: 0 };
    let data = ResponseData { user: Some(user(None, 0, 0)) };
    let s = UserGithubStats::from_response(data, 0, now).unwrap();
    assert_eq!(s.name, "octocat");
}

#[test]
fn missing_user_is_not_found() {
    let now = SystemTimeWrapper { secs: 0, nanos: 0 };
    let r = UserGithubStats::from_response(ResponseData { user: None }, 0, now);
    assert_eq!(r.err(), Some(GithubError::UserNotFound));
}

#[test]
fn issue_total_overflow_is_refused() {
    let now = SystemTimeWrapper { secs: 0, nanos: 0 };
    let data = ResponseData { user: Some(user(None, i64::MAX, 1)) };
    let r = UserGithubStats::from_response(data, 0, now);
    assert_eq!(r.err(), Some(GithubError::Overflow));
}

#[test]
fn stats_round_trip_through_bytes() {
    let mut s = stats_with(100, 5, 100, 61, 400, 300, 200);
    s.login = "octocat".to_string();
    s.name = "Ünïcode name".to_string();
    s.stars = -7;
    s.update_rank(49);
    s.create_at = SystemTimeWrapper { secs: 1_700_000_000, nanos: 123_456_789 };
    let bytes = s.encode();
    assert!(!bytes.is_empty());
    let back = UserGithubStats::decode(&bytes).unwrap();
    assert_eq!(back.login, s.login);
    assert_eq!(back.name, s.name);
    assert_eq!(back.stars, s.stars);
    assert_eq!(back.commits, s.commits);
    assert_eq!(back.repos, s.repos);
    assert_eq!(back.prs, s.prs);
    assert_eq!(back.issues, s.issues);
    assert_eq!(back.contribs, s.contribs);
    assert_eq!(back.followers, s.followers);
    assert_eq!(back.rank, s.rank);
    assert_eq!(back.create_at, s.create_at);
}

#[test]
fn truncated_stats_bytes_are_refused() {
    let s = stats_with(1, 2, 3, 4, 5, 6, 7);
    let bytes = s.encode();
    let cut = bytes[..bytes.len() - 1].to_vec();
    assert!(UserGithubStats::decode(&cut).is_none());
    assert!(UserGithubStats::decode(&Vec::new()).is_none());
}

#[test]
fn normalized_score_falls_as_activity_grows() {
    let low = stats_with(100, 5, 100, 61, 400, 300, 200);
    let high = stats_with(100, 5, 100, 61, 100_000, 300, 200);
    assert!(high.weighted_score() > low.weighted_score());
    assert_eq!(normalized_score(&low), 49);
    assert!(normalized_score(&high) < normalized_score(&low));
}

#[test]
fn huge_string_length_is_refused_without_allocating() {
    let mut bytes = vec![0u8, 0u8];
    bytes.extend([253, 255, 255, 255, 255, 255, 255, 255, 255]);
    assert!(UserGithubStats::decode(&bytes).is_none());
    let mut near = vec![0u8, 0u8];
    near.extend([253, 0, 0, 0, 0, 0, 0, 0, 16]);
    assert!(UserGithubStats::decode(&near).is_none());
}
