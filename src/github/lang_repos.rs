//! The languages query: one page of a user's own, non-forked repositories
//! with the languages each is written in, merged into a `TopLangs`.

use vstd::prelude::*;

use super::stars::{next_page_cursor, page_info_continues};
use super::top_langs::{color_of, first_color, has_name, lang_views, opt_view, size_of_name, Lang, LangView, TopLangs};
use super::user_repos::UserRepoUserRepositoriesPageInfo;
use super::GithubError;

verus! {

/// The languages query.
pub struct TopLang;

pub const OPERATION_NAME: &'static str = "TopLang";

pub const QUERY: &'static str = "query TopLang($login: String!, $after: String) {\n  user(login: $login) {\n    repositories(ownerAffiliations: OWNER, isFork: false, first: 100, after: $after) {\n      nodes {\n        name\n        languages(first: 10, orderBy: { field: SIZE, direction: DESC }) {\n          edges {\n            size\n            node {\n              color\n              name\n            }\n          }\n        }\n      }\n      pageInfo {\n        hasNextPage\n        endCursor\n      }\n    }\n  }\n}\n";

/// The variables of the languages query.
#[derive(Debug, Clone)]
pub struct Variables {
    pub login: String,
    pub after: Option<String>,
}

/// The answer to the languages query.
#[derive(Debug)]
pub struct ResponseData {
    pub user: Option<TopLangUser>,
}

#[derive(Debug)]
pub struct TopLangUser {
    pub repositories: TopLangUserRepositories,
}

/// One page of repositories with their languages.
#[derive(Debug)]
pub struct TopLangUserRepositories {
    pub nodes: Option<Vec<Option<TopLangUserRepositoriesNodes>>>,
    pub page_info: UserRepoUserRepositoriesPageInfo,
}

#[derive(Debug)]
pub struct TopLangUserRepositoriesNodes {
    pub languages: Option<TopLangUserRepositoriesNodesLanguages>,
}

#[derive(Debug)]
pub struct TopLangUserRepositoriesNodesLanguages {
    pub edges: Option<Vec<Option<TopLangUserRepositoriesNodesLanguagesEdges>>>,
}

/// One language of one repository, with the bytes written in it.
#[derive(Debug)]
pub struct TopLangUserRepositoriesNodesLanguagesEdges {
    pub size: i64,
    pub node: TopLangUserRepositoriesNodesLanguagesEdgesNode,
}

#[derive(Debug)]
pub struct TopLangUserRepositoriesNodesLanguagesEdgesNode {
    pub name: String,
    pub color: Option<String>,
}

pub open spec fn edge_lang(e: Option<TopLangUserRepositoriesNodesLanguagesEdges>) -> Seq<LangView> {
    match e {
        Some(e) => seq![LangView { name: e.node.name@, color: opt_view(e.node.color), size: e.size as usize }],
        None => Seq::empty(),
    }
}

pub open spec fn edge_ok(e: Option<TopLangUserRepositoriesNodesLanguagesEdges>) -> bool {
    match e {
        Some(e) => e.size >= 0,
        None => true,
    }
}

pub open spec fn edges_langs(es: Seq<Option<TopLangUserRepositoriesNodesLanguagesEdges>>) -> Seq<LangView>
    decreases es.len(),
{
    if es.len() == 0 {
        Seq::empty()
    } else {
        edges_langs(es.drop_last()) + edge_lang(es.last())
    }
}

pub open spec fn repo_edges(r: Option<TopLangUserRepositoriesNodes>) -> Seq<Option<TopLangUserRepositoriesNodesLanguagesEdges>> {
    match r {
        Some(n) => match n.languages {
            Some(l) => match l.edges {
                Some(es) => es@,
                None => Seq::empty(),
            },
            None => Seq::empty(),
        },
        None => Seq::empty(),
    }
}

/// The language edges of the repositories in order, absent entries left out.
pub open spec fn repos_langs(rs: Seq<Option<TopLangUserRepositoriesNodes>>) -> Seq<LangView>
    decreases rs.len(),
{
    if rs.len() == 0 {
        Seq::empty()
    } else {
        repos_langs(rs.drop_last()) + edges_langs(repo_edges(rs.last()))
    }
}

/// No edge of the repositories has a size below zero.
pub open spec fn repos_ok(rs: Seq<Option<TopLangUserRepositoriesNodes>>) -> bool {
    forall|i: int, j: int| 0 <= i < rs.len() && 0 <= j < repo_edges(rs[i]).len() ==> edge_ok(#[trigger] repo_edges(rs[i])[j])
}

pub open spec fn page_nodes(p: TopLangUserRepositories) -> Seq<Option<TopLangUserRepositoriesNodes>> {
    match p.nodes {
        Some(v) => v@,
        None => Seq::empty(),
    }
}

/// The language edges of a page.
pub open spec fn page_langs(p: TopLangUserRepositories) -> Seq<LangView> {
    repos_langs(page_nodes(p))
}

/// Appends the edges of one repository to `out` as languages; false, with
/// `out` not to be used, when a size is below zero.
fn repo_languages(r: &Option<TopLangUserRepositoriesNodes>, out: &mut Vec<Lang>) -> (ok: bool)
    ensures
        ok == (forall|j: int| 0 <= j < repo_edges(*r).len() ==> edge_ok(#[trigger] repo_edges(*r)[j])),
        ok ==> lang_views(final(out)@) == lang_views(old(out)@) + edges_langs(repo_edges(*r)),
{
    let edges = match r {
        Some(n) => match &n.languages {
            Some(l) => match &l.edges {
                Some(es) => es,
                None => return true,
            },
            None => return true,
        },
        None => return true,
    };
    let ghost es = edges@;
    let ghost start = lang_views(out@);
    let mut j: usize = 0;
    proof {
        assert(es.take(0) =~= Seq::<Option<TopLangUserRepositoriesNodesLanguagesEdges>>::empty());
        assert(start + edges_langs(es.take(0)) =~= start);
    }
    while j < edges.len()
        invariant
            es == edges@,
            es == repo_edges(*r),
            j <= es.len(),
            forall|k: int| 0 <= k < j ==> edge_ok(#[trigger] es[k]),
            lang_views(out@) == start + edges_langs(es.take(j as int)),
        decreases es.len() - j,
    {
        proof {
            assert(es.take(j + 1).drop_last() =~= es.take(j as int));
            assert(es.take(j + 1).last() == es[j as int]);
        }
        match &edges[j] {
            Some(e) => {
                if e.size < 0 {
                    return false;
                }
                let color = match &e.node.color {
                    Some(c) => Some(c.clone()),
                    None => None,
                };
                let l = Lang { name: e.node.name.clone(), color, size: e.size as usize };
                let ghost before = lang_views(out@);
                out.push(l);
                proof {
                    assert(lang_views(out@) =~= before.push(l@));
                    assert(edge_lang(es[j as int]) =~= seq![l@]);
                    assert(start + edges_langs(es.take(j + 1)) =~= start + edges_langs(es.take(j as int)) + seq![l@]);
                }
            },
            None => {
                proof {
                    assert(start + edges_langs(es.take(j + 1)) =~= start + edges_langs(es.take(j as int)));
                }
            },
        }
        j = j + 1;
    }
    proof {
        assert(es.take(j as int) =~= es);
    }
    true
}

/// The language edges of a page, in order; `None` when a size is below zero.
pub fn page_languages(page: &TopLangUserRepositories) -> (r: Option<Vec<Lang>>)
    ensures
        r is Some <==> repos_ok(page_nodes(*page)),
        r matches Some(v) ==> lang_views(v@) == page_langs(*page),
{
    let mut out: Vec<Lang> = Vec::new();
    let nodes = match &page.nodes {
        Some(v) => v,
        None => {
            assert(lang_views(out@) =~= Seq::<LangView>::empty());
            return Some(out);
        },
    };
    let ghost rs = nodes@;
    let mut i: usize = 0;
    proof {
        assert(rs.take(0) =~= Seq::<Option<TopLangUserRepositoriesNodes>>::empty());
        assert(lang_views(out@) =~= Seq::<LangView>::empty());
    }
    while i < nodes.len()
        invariant
            rs == nodes@,
            rs == page_nodes(*page),
            i <= rs.len(),
            repos_ok(rs.take(i as int)),
            lang_views(out@) == repos_langs(rs.take(i as int)),
        decreases rs.len() - i,
    {
        proof {
            assert(rs.take(i + 1).drop_last() =~= rs.take(i as int));
            assert(rs.take(i + 1).last() == rs[i as int]);
        }
        if !repo_languages(&nodes[i], &mut out) {
            proof {
                let j = choose|j: int| 0 <= j < repo_edges(rs[i as int]).len() && !edge_ok(#[trigger] repo_edges(rs[i as int])[j]);
                assert(!edge_ok(repo_edges(rs[i as int])[j]));
            }
            return None;
        }
        proof {
            assert forall|a: int, b: int| 0 <= a < i + 1 && 0 <= b < repo_edges(rs.take(i + 1)[a]).len() implies
                edge_ok(#[trigger] repo_edges(rs.take(i + 1)[a])[b]) by {
                if a < i {
                    assert(rs.take(i + 1)[a] == rs.take(i as int)[a]);
                }
            }
        }
        i = i + 1;
    }
    proof {
        assert(rs.take(i as int) =~= rs);
    }
    Some(out)
}

impl TopLangs {
    /// Takes in the answer for one page of the languages query and merges
    /// its edges in order. Returns the cursor of the next page, if paging
    /// goes on. Fails when the answer holds no user, a size below zero, or
    /// a total that would not fit in a `usize`; the value is then to be
    /// discarded.
    pub fn add_page(&mut self, data: ResponseData) -> (r: Result<Option<String>, GithubError>)
        ensures
            final(self).create_at_spec() == old(self).create_at_spec(),
            data.user is None ==> r == Err::<Option<String>, GithubError>(GithubError::UserNotFound),
            data.user matches Some(u) ==> {
                let page = u.repositories;
                let edges = page_langs(page);
                &&& !repos_ok(page_nodes(page)) <==> r == Err::<Option<String>, GithubError>(GithubError::Malformed)
                &&& repos_ok(page_nodes(page)) ==> (r is Err <==> exists|n: Seq<char>|
                    #[trigger] size_of_name(old(self).entries(), n) + size_of_name(edges, n) > usize::MAX)
                &&& r is Err ==> r == Err::<Option<String>, GithubError>(GithubError::Overflow)
                    || r == Err::<Option<String>, GithubError>(GithubError::Malformed)
                &&& r matches Ok(c) ==> {
                    &&& (c is Some <==> page_info_continues(page.page_info))
                    &&& (c matches Some(x) ==> page.page_info.end_cursor matches Some(y) && x@ == y@)
                    &&& forall|n: Seq<char>| #[trigger] size_of_name(final(self).entries(), n)
                        == size_of_name(old(self).entries(), n) + size_of_name(edges, n)
                    &&& forall|n: Seq<char>| #[trigger] has_name(final(self).entries(), n)
                        == (has_name(old(self).entries(), n) || has_name(edges, n))
                    &&& forall|n: Seq<char>| #[trigger] color_of(final(self).entries(), n)
                        == if has_name(old(self).entries(), n) {
                            color_of(old(self).entries(), n)
                        } else {
                            first_color(edges, n)
                        }
                }
            },
    {
        let page = match data.user {
            Some(u) => u.repositories,
            None => return Err(GithubError::UserNotFound),
        };
        let edges = match page_languages(&page) {
            Some(e) => e,
            None => return Err(GithubError::Malformed),
        };
        match self.add_languages(&edges) {
            Ok(()) => Ok(next_page_cursor(&page.page_info)),
            Err(e) => Err(e),
        }
    }
}

} // verus!
