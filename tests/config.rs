use mine_stats::cards::style::get_animations;
use mine_stats::cards::{get_stat_collections, Icon, StatItem};
use mine_stats::config::{Config, ListenStack, Theme, Themes};
use mine_stats::github::stats::{Rank, UserGithubStats};
use mine_stats::status::{MyUtsName, Service, ServiceStatus};
use mine_stats::utils::{push_decimal, SystemTimeWrapper};

fn config(allow: &[&str]) -> Config {
    Config {
        listen_stack: ListenStack::Both,
        listen_port: 8080,
        services: vec![],
        github_api_token: String::new(),
        allow_users: allow.iter().map(|s| s.to_string()).collect(),
    }
}

#[test]
fn listen_stack_names() {
    assert_eq!(ListenStack::from_name("ipv4"), ListenStack::V4);
    assert_eq!(ListenStack::from_name("ipv6"), ListenStack::V6);
    assert_eq!(ListenStack::from_name("both"), ListenStack::Both);
    assert_eq!(ListenStack::from_name("other"), ListenStack::V4);
}

#[test]
fn allow_list_filters_users() {
    assert!(config(&[]).allows_user("anyone"));
    assert!(config(&["alice"]).allows_user("alice"));
    assert!(!config(&["alice"]).allows_user("bob"));
}

fn theme(name: &str) -> Theme {
    let mut t = Theme::named(name.to_string());
    t.set_color("title", format!("{name}-title"));
    t
}

#[test]
fn default_theme_is_last_with_its_name() {
    let themes = Themes::from_list(vec![theme("a"), theme("b"), theme("a")], "a").unwrap();
    assert_eq!(themes.len(), 3);
    assert_eq!(themes.items().len(), 3);
    let d = themes.default();
    assert_eq!(d.name, "a");
    let none = Themes::from_list(vec![theme("a"), theme("b")], "zzz").unwrap();
    assert_eq!(none.default().name, "a");
    assert!(Themes::from_list(vec![], "a").is_none());
}

#[test]
fn find_theme_by_name() {
    let themes = Themes::from_list(vec![theme("a"), theme("b")], "b").unwrap();
    assert_eq!(themes.find(Some("a")).name, "a");
    assert_eq!(themes.find(Some("missing")).name, "b");
    assert_eq!(themes.find(None).name, "b");
}

#[test]
fn builtin_themes() {
    let themes = Themes::builtin();
    assert_eq!(themes.default().name, "default");
    let dark = themes.find(Some("onedark"));
    assert_eq!(dark.bg, "#282c34");
    assert_eq!(dark.border, None);
    assert_eq!(Theme::default().ring.as_deref(), Some("#2f80ed"));
}

#[test]
fn theme_colors_by_key() {
    let mut t = Theme::named("x".to_string());
    assert_eq!(t.border, None);
    t.set_color("border", "#111".to_string());
    t.set_color("ring", "#222".to_string());
    t.set_color("bg", "#333".to_string());
    t.set_color("unknown", "#444".to_string());
    assert_eq!(t.border.as_deref(), Some("#111"));
    assert_eq!(t.ring.as_deref(), Some("#222"));
    assert_eq!(t.bg, "#333");
    assert_eq!(t.title, "#2f80ed");
}

#[test]
fn stat_lines_of_a_user() {
    let github = UserGithubStats {
        login: "u".to_string(),
        name: "u".to_string(),
        stars: 1,
        commits: 2,
        repos: 3,
        prs: 4,
        issues: 5,
        contribs: 6,
        followers: 7,
        rank: Rank::default(),
        create_at: SystemTimeWrapper { secs: 0, nanos: 0 },
    };
    let items: Vec<StatItem> = get_stat_collections(&github);
    let lines: Vec<(&str, i64)> = items.iter().map(|i| (i.label.as_str(), i.value)).collect();
    assert_eq!(
        lines,
        vec![
            ("Total Stars Earned: ", 1),
            ("Total Commits (2022): ", 2),
            ("Total PRs: ", 4),
            ("Total Issues: ", 5),
            ("Contributed to (last year): ", 6),
        ]
    );
    assert_eq!(items[0].icon, Icon::Star);
    assert_eq!(items[0].icon.as_str(), "stars");
    let item = StatItem::new(Icon::Prs, "PRs", 9);
    assert_eq!(item.label, "PRs");
}

#[test]
fn animations_define_keyframes() {
    assert!(get_animations().contains("@keyframes fadeInAnimation"));
}

#[test]
fn uname_joined_by_spaces() {
    let u = MyUtsName {
        sysname: "Linux".to_string(),
        nodename: "host".to_string(),
        release: "6.1".to_string(),
        version: "#1".to_string(),
        machine: "x86_64".to_string(),
        domainname: "(none)".to_string(),
    };
    assert_eq!(u.as_string(), "Linux host 6.1 #1 x86_64 (none)");
}

#[test]
fn service_reports() {
    let ok = Service::from_exit("nginx", true, "running".to_string(), "err".to_string());
    assert_eq!(ok.status, ServiceStatus::Active);
    assert_eq!(ok.output, "running");
    let bad = Service::from_exit("nginx", false, "running".to_string(), "err".to_string());
    assert_eq!(bad.status, ServiceStatus::Error);
    assert_eq!(bad.output, "err");
    let unknown = Service::unknown("nginx", "NotFound");
    assert_eq!(unknown.status.as_str(), "Unknown");
    assert_eq!(unknown.output, "systemctl status nginx running error: NotFound");
}

#[test]
fn decimal_rendering() {
    let mut s = String::from("n=");
    push_decimal(&mut s, 0);
    push_decimal(&mut s, 1234567890123);
    assert_eq!(s, "n=01234567890123");
    let mut t = String::new();
    push_decimal(&mut t, u64::MAX);
    assert_eq!(t, u64::MAX.to_string());
}
