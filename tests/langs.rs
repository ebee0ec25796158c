use mine_stats::cards::top_langs::{calculate_normal_layout_height, language_key, use_languages};
use mine_stats::github::top_langs::{Lang, TopLangs};
use mine_stats::codec::{encode_fields, Field};
use mine_stats::github::lang_repos::{
    ResponseData, TopLangUser, TopLangUserRepositories, TopLangUserRepositoriesNodes,
    TopLangUserRepositoriesNodesLanguages, TopLangUserRepositoriesNodesLanguagesEdges,
    TopLangUserRepositoriesNodesLanguagesEdgesNode,
};
use mine_stats::github::user_repos::UserRepoUserRepositoriesPageInfo;
use mine_stats::github::GithubError;
use mine_stats::utils::SystemTimeWrapper;

fn lang(name: &str, size: usize) -> Lang {
    Lang { name: name.to_string(), color: None, size }
}

fn size_of(t: &TopLangs, name: &str) -> Option<usize> {
    t.langs().iter().find(|l| l.name == name).map(|l| l.size)
}

fn merged(edges: &[(&str, usize)]) -> TopLangs {
    let mut t = TopLangs::new(SystemTimeWrapper { secs: 0, nanos: 0 });
    let edges: Vec<Lang> = edges.iter().map(|(n, s)| lang(n, *s)).collect();
    t.add_languages(&edges).unwrap();
    t
}

#[test]
fn edges_merge_by_name() {
    let t = merged(&[("Go", 100), ("Rust", 50), ("Go", 30)]);
    assert_eq!(t.langs().len(), 2);
    assert_eq!(size_of(&t, "Go"), Some(130));
    assert_eq!(size_of(&t, "Rust"), Some(50));
}

#[test]
fn merge_ignores_edge_order() {
    for order in [
        [("Go", 100), ("Rust", 50), ("Go", 30)],
        [("Go", 30), ("Go", 100), ("Rust", 50)],
        [("Rust", 50), ("Go", 30), ("Go", 100)],
    ] {
        let t = merged(&order);
        assert_eq!(size_of(&t, "Go"), Some(130));
        assert_eq!(size_of(&t, "Rust"), Some(50));
        assert_eq!(t.langs().len(), 2);
    }
}

#[test]
fn first_color_of_a_language_is_kept() {
    let mut t = TopLangs::new(SystemTimeWrapper { secs: 0, nanos: 0 });
    t.add_language(Lang { name: "Go".to_string(), color: Some("#00ADD8".to_string()), size: 1 }).unwrap();
    t.add_language(Lang { name: "Go".to_string(), color: Some("#000000".to_string()), size: 2 }).unwrap();
    assert_eq!(t.langs()[0].color.as_deref(), Some("#00ADD8"));
    assert_eq!(t.langs()[0].size, 3);
}

#[test]
fn size_overflow_is_refused() {
    let mut t = TopLangs::new(SystemTimeWrapper { secs: 0, nanos: 0 });
    t.add_language(lang("Go", usize::MAX)).unwrap();
    assert_eq!(t.add_language(lang("Go", 1)), Err(GithubError::Overflow));
    assert_eq!(t.langs()[0].size, usize::MAX);
    let edges = vec![lang("C", 1), lang("Go", 1)];
    assert_eq!(t.add_languages(&edges), Err(GithubError::Overflow));
}

#[test]
fn languages_round_trip_through_bytes() {
    let mut t = TopLangs::new(SystemTimeWrapper { secs: 99, nanos: 7 });
    t.add_language(Lang { name: "Go".to_string(), color: Some("#00ADD8".to_string()), size: 130 }).unwrap();
    t.add_language(Lang { name: "Shell".to_string(), color: None, size: 5 }).unwrap();
    t.add_language(Lang { name: "Empty".to_string(), color: Some(String::new()), size: 0 }).unwrap();
    let bytes = t.encode();
    let back = TopLangs::decode(&bytes).unwrap();
    assert_eq!(back.created(), t.created());
    assert_eq!(back.langs().len(), 3);
    for (a, b) in back.langs().iter().zip(t.langs().iter()) {
        assert_eq!(a.name, b.name);
        assert_eq!(a.color, b.color);
        assert_eq!(a.size, b.size);
    }
}

#[test]
fn duplicate_names_in_bytes_are_refused() {
    let go = |size: u64| {
        vec![
            Field::Str("Go".to_string()),
            Field::U64(0),
            Field::Str(String::new()),
            Field::U64(size),
        ]
    };
    let mut fields = vec![Field::U64(0), Field::U64(0), Field::U64(2)];
    fields.extend(go(1));
    fields.extend(go(2));
    assert!(TopLangs::decode(&encode_fields(&fields)).is_none());
    fields[2] = Field::U64(1);
    let one = TopLangs::decode(&encode_fields(&fields)).unwrap();
    assert_eq!(one.langs().len(), 1);
}

#[test]
fn absent_color_with_text_is_refused() {
    let fields = vec![
        Field::U64(0),
        Field::U64(0),
        Field::U64(1),
        Field::Str("Go".to_string()),
        Field::U64(0),
        Field::Str("#fff".to_string()),
        Field::U64(3),
    ];
    assert!(TopLangs::decode(&encode_fields(&fields)).is_none());
}

#[test]
fn card_shows_largest_visible_languages() {
    let t = merged(&[("Go", 100), ("Rust", 50), ("Shell", 70), ("C", 10)]);
    let shown = use_languages(t, vec![" shell ".to_string()], 2);
    let names: Vec<&str> = shown.iter().map(|l| l.name.as_str()).collect();
    assert_eq!(names, vec!["Go", "Rust"]);
}

#[test]
fn card_language_count_is_clamped() {
    let t = merged(&[("Go", 100), ("Rust", 50)]);
    assert_eq!(use_languages(t, vec![], 0).len(), 1);
    let many: Vec<(String, usize)> = (0..12).map(|i| (format!("L{i}"), i)).collect();
    let edges: Vec<(&str, usize)> = many.iter().map(|(n, s)| (n.as_str(), *s)).collect();
    let shown = use_languages(merged(&edges), vec![], 200);
    assert_eq!(shown.len(), 10);
    assert_eq!(shown[0].size, 11);
    assert_eq!(shown[9].size, 2);
}

#[test]
fn hidden_names_compare_case_insensitively() {
    let t = merged(&[("TypeScript", 10), ("Go", 5)]);
    let shown = use_languages(t, vec!["TYPESCRIPT".to_string()], 5);
    assert_eq!(shown.len(), 1);
    assert_eq!(shown[0].name, "Go");
}

#[test]
fn layout_height_grows_per_line() {
    assert_eq!(calculate_normal_layout_height(0), 85);
    assert_eq!(calculate_normal_layout_height(5), 285);
}

#[test]
fn language_keys_are_trimmed_and_lowercased() {
    assert_eq!(language_key("  Rust\t"), "rust");
    assert_eq!(language_key("C++"), "c++");
    assert_eq!(language_key("ÄB"), "Äb");
    assert_eq!(language_key("\u{3000}Go\u{a0}"), "go");
}

fn repo(edges: &[(&str, i64)]) -> Option<TopLangUserRepositoriesNodes> {
    Some(TopLangUserRepositoriesNodes {
        languages: Some(TopLangUserRepositoriesNodesLanguages {
            edges: Some(
                edges
                    .iter()
                    .map(|(n, s)| {
                        Some(TopLangUserRepositoriesNodesLanguagesEdges {
                            size: *s,
                            node: TopLangUserRepositoriesNodesLanguagesEdgesNode {
                                name: n.to_string(),
                                color: None,
                            },
                        })
                    })
                    .collect(),
            ),
        }),
    })
}

fn lang_page(repos: Vec<Option<TopLangUserRepositoriesNodes>>, cursor: Option<&str>) -> ResponseData {
    ResponseData {
        user: Some(TopLangUser {
            repositories: TopLangUserRepositories {
                nodes: Some(repos),
                page_info: UserRepoUserRepositoriesPageInfo {
                    has_next_page: cursor.is_some(),
                    end_cursor: cursor.map(|c| c.to_string()),
                },
            },
        }),
    }
}

#[test]
fn language_pages_merge_across_repositories() {
    let mut t = TopLangs::new(SystemTimeWrapper { secs: 0, nanos: 0 });
    let next = t
        .add_page(lang_page(vec![repo(&[("Go", 100), ("Rust", 50)]), None], Some("c1")))
        .unwrap();
    assert_eq!(next.as_deref(), Some("c1"));
    let next = t.add_page(lang_page(vec![repo(&[("Go", 30)])], None)).unwrap();
    assert_eq!(next, None);
    assert_eq!(size_of(&t, "Go"), Some(130));
    assert_eq!(size_of(&t, "Rust"), Some(50));
}

#[test]
fn split_of_edges_does_not_change_totals() {
    let mut a = TopLangs::new(SystemTimeWrapper { secs: 0, nanos: 0 });
    a.add_page(lang_page(vec![repo(&[("Go", 100)]), repo(&[("Rust", 50), ("Go", 30)])], None)).unwrap();
    let mut b = TopLangs::new(SystemTimeWrapper { secs: 0, nanos: 0 });
    b.add_languages(&vec![lang("Go", 30)]).unwrap();
    b.add_languages(&vec![lang("Rust", 50), lang("Go", 100)]).unwrap();
    for name in ["Go", "Rust"] {
        assert_eq!(size_of(&a, name), size_of(&b, name));
    }
}

#[test]
fn language_page_errors() {
    let mut t = TopLangs::new(SystemTimeWrapper { secs: 0, nanos: 0 });
    assert_eq!(t.add_page(ResponseData { user: None }), Err(GithubError::UserNotFound));
    assert_eq!(t.add_page(lang_page(vec![repo(&[("Go", -1)])], None)), Err(GithubError::Malformed));
}

#[test]
fn many_pages_in_any_order_give_same_totals() {
    let pages = [
        vec![repo(&[("Go", 100)]), repo(&[("C", 7)])],
        vec![repo(&[("Rust", 50), ("Go", 30)])],
        vec![repo(&[("C", 3), ("Rust", 1)])],
    ];
    let mut totals = vec![];
    for order in [[0, 1, 2], [2, 0, 1], [1, 2, 0]] {
        let mut t = TopLangs::new(SystemTimeWrapper { secs: 0, nanos: 0 });
        for (k, &i) in order.iter().enumerate() {
            let build = |p: &Vec<Option<TopLangUserRepositoriesNodes>>| -> Vec<Option<TopLangUserRepositoriesNodes>> {
                p.iter()
                    .map(|r| {
                        r.as_ref().map(|n| TopLangUserRepositoriesNodes {
                            languages: n.languages.as_ref().map(|l| TopLangUserRepositoriesNodesLanguages {
                                edges: l.edges.as_ref().map(|es| {
                                    es.iter()
                                        .map(|e| {
                                            e.as_ref().map(|e| TopLangUserRepositoriesNodesLanguagesEdges {
                                                size: e.size,
                                                node: TopLangUserRepositoriesNodesLanguagesEdgesNode {
                                                    name: e.node.name.clone(),
                                                    color: e.node.color.clone(),
                                                },
                                            })
                                        })
                                        .collect()
                                }),
                            }),
                        })
                    })
                    .collect()
            };
            let cursor = if k + 1 < order.len() { Some("next") } else { None };
            t.add_page(lang_page(build(&pages[i]), cursor)).unwrap();
        }
        totals.push((size_of(&t, "Go"), size_of(&t, "Rust"), size_of(&t, "C"), t.langs().len()));
    }
    assert!(totals.iter().all(|x| *x == (Some(130), Some(51), Some(10), 3)));
}
