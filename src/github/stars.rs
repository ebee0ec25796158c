//! Summing a user's stars across the pages of the repository query.
//!
//! The caller runs the requests: it asks `next_variables` for the variables
//! of the next page, sends the query, and hands the answer to `add_page`,
//! until `next_variables` answers `None`.

use vstd::prelude::*;

use super::user_repos::{
    ResponseData, UserRepoUserRepositories, UserRepoUserRepositoriesNodes, UserRepoUserRepositoriesPageInfo,
    Variables,
};
use super::GithubError;

verus! {

pub open spec fn string_views(s: Seq<String>) -> Seq<Seq<char>> {
    s.map_values(|x: String| x@)
}

/// The stars a repository contributes: none when it is absent or its name
/// is hidden.
pub open spec fn node_stars(n: Option<UserRepoUserRepositoriesNodes>, hidden: Seq<Seq<char>>) -> int {
    match n {
        Some(node) => if hidden.contains(node.name@) {
            0
        } else {
            node.stargazers.total_count as int
        },
        None => 0,
    }
}

pub open spec fn nodes_stars(nodes: Seq<Option<UserRepoUserRepositoriesNodes>>, hidden: Seq<Seq<char>>) -> int
    decreases nodes.len(),
{
    if nodes.len() == 0 {
        0
    } else {
        nodes_stars(nodes.drop_last(), hidden) + node_stars(nodes.last(), hidden)
    }
}

/// The stars of the repositories on one page, hidden names left out.
pub open spec fn page_stars(page: UserRepoUserRepositories, hidden: Seq<Seq<char>>) -> int {
    match page.nodes {
        Some(nodes) => nodes_stars(nodes@, hidden),
        None => 0,
    }
}

/// The stars of all pages, hidden names left out.
pub open spec fn pages_stars(pages: Seq<UserRepoUserRepositories>, hidden: Seq<Seq<char>>) -> int
    decreases pages.len(),
{
    if pages.len() == 0 {
        0
    } else {
        pages_stars(pages.drop_last(), hidden) + page_stars(pages.last(), hidden)
    }
}

/// The page with `info` has a successor: it says so and gives a non-empty
/// cursor.
pub open spec fn page_info_continues(info: UserRepoUserRepositoriesPageInfo) -> bool {
    &&& info.has_next_page
    &&& info.end_cursor matches Some(c)
    &&& c@.len() > 0
}

/// Another page follows this one.
pub open spec fn page_continues(page: UserRepoUserRepositories) -> bool {
    page_info_continues(page.page_info)
}

/// The cursor of the next page, when the page with `info` continues: it
/// says so and gives a non-empty cursor. A page that claims a successor but
/// gives no usable cursor ends paging.
pub fn next_page_cursor(info: &UserRepoUserRepositoriesPageInfo) -> (r: Option<String>)
    ensures
        r is Some <==> page_info_continues(*info),
        r matches Some(c) ==> info.end_cursor matches Some(d) && c@ == d@,
{
    if !info.has_next_page {
        return None;
    }
    match &info.end_cursor {
        Some(c) => if c.as_str().unicode_len() > 0 {
            Some(c.clone())
        } else {
            None
        },
        None => None,
    }
}

/// Paging is over once a page was received that does not continue.
pub open spec fn paging_done(pages: Seq<UserRepoUserRepositories>) -> bool {
    pages.len() > 0 && !page_continues(pages.last())
}

/// The star count of a user's repositories, gathered page by page.
pub struct StarsQuery {
    login: String,
    hidden: Vec<String>,
    after: Option<String>,
    total: i64,
    done: bool,
    pages: Ghost<Seq<UserRepoUserRepositories>>,
}

impl StarsQuery {
    pub closed spec fn login_spec(&self) -> Seq<char> {
        self.login@
    }

    pub closed spec fn hidden_spec(&self) -> Seq<Seq<char>> {
        string_views(self.hidden@)
    }

    /// The pages received so far.
    pub closed spec fn pages_spec(&self) -> Seq<UserRepoUserRepositories> {
        self.pages@
    }

    pub closed spec fn wf(&self) -> bool {
        &&& self.total == pages_stars(self.pages@, string_views(self.hidden@))
        &&& self.done == paging_done(self.pages@)
        &&& self.pages@.len() > 0 && !self.done ==> (self.after matches Some(c)
            && self.pages@.last().page_info.end_cursor == Some(c))
        &&& self.pages@.len() == 0 ==> self.after is None
    }

    /// A query for `login`'s stars leaving out the repositories named in
    /// `hidden`; no page received yet.
    pub fn new(login: &str, hidden: Vec<String>) -> (r: StarsQuery)
        ensures
            r.wf(),
            r.login_spec() == login@,
            r.hidden_spec() == string_views(hidden@),
            r.pages_spec() == Seq::<UserRepoUserRepositories>::empty(),
    {
        StarsQuery {
            login: String::from_str(login),
            hidden,
            after: None,
            total: 0,
            done: false,
            pages: Ghost(Seq::empty()),
        }
    }

    /// The variables for the next page: none once paging is over; the first
    /// page has no cursor, each later one the cursor of the page before.
    pub fn next_variables(&self) -> (r: Option<Variables>)
        requires
            self.wf(),
        ensures
            r is None <==> paging_done(self.pages_spec()),
            r matches Some(v) ==> v.login@ == self.login_spec() && (if self.pages_spec().len() == 0 {
                v.after is None
            } else {
                v.after matches Some(c) && self.pages_spec().last().page_info.end_cursor matches Some(d) && c@ == d@
            }),
    {
        if self.done {
            None
        } else {
            let after = match &self.after {
                Some(c) => Some(c.clone()),
                None => None,
            };
            Some(Variables { login: self.login.clone(), after })
        }
    }

    /// Whether paging is over.
    pub fn is_done(&self) -> (r: bool)
        requires
            self.wf(),
        ensures
            r == paging_done(self.pages_spec()),
    {
        self.done
    }

    /// The stars counted so far.
    pub fn total(&self) -> (r: i64)
        requires
            self.wf(),
        ensures
            r == pages_stars(self.pages_spec(), self.hidden_spec()),
    {
        self.total
    }

    /// Takes in the answer for one page. Fails, changing nothing, when the
    /// answer holds no user, or when the total would leave the range of an
    /// `i64`.
    pub fn add_page(&mut self, data: ResponseData) -> (r: Result<(), GithubError>)
        requires
            old(self).wf(),
        ensures
            final(self).wf(),
            final(self).login_spec() == old(self).login_spec(),
            final(self).hidden_spec() == old(self).hidden_spec(),
            data.user is None ==> r == Err::<(), GithubError>(GithubError::UserNotFound),
            data.user matches Some(u) ==> {
                let sum = pages_stars(old(self).pages_spec(), old(self).hidden_spec()) + page_stars(u.repositories, old(self).hidden_spec());
                &&& (sum < i64::MIN || sum > i64::MAX) <==> r == Err::<(), GithubError>(GithubError::Overflow)
                &&& (i64::MIN <= sum <= i64::MAX) ==> r is Ok
                &&& r is Ok ==> final(self).pages_spec() == old(self).pages_spec().push(u.repositories)
            },
            r is Err ==> final(self).pages_spec() == old(self).pages_spec(),
    {
        let page = match data.user {
            Some(u) => u.repositories,
            None => return Err(GithubError::UserNotFound),
        };
        let sum = self.page_sum(&page);
        let total = self.total as i128 + sum;
        if total < i64::MIN as i128 || total > i64::MAX as i128 {
            return Err(GithubError::Overflow);
        }
        let ghost pages = self.pages@.push(page);
        proof {
            assert(pages.drop_last() =~= self.pages@);
        }
        let continues = next_page_cursor(&page.page_info).is_some();
        self.total = total as i64;
        self.done = !continues;
        self.after = page.page_info.end_cursor;
        self.pages = Ghost(pages);
        Ok(())
    }

    fn page_sum(&self, page: &UserRepoUserRepositories) -> (r: i128)
        ensures
            r == page_stars(*page, string_views(self.hidden@)),
            -(usize::MAX as int) * 0x8000_0000_0000_0000 <= r <= (usize::MAX as int) * 0x8000_0000_0000_0000,
    {
        match &page.nodes {
            None => 0,
            Some(nodes) => {
                let len = nodes.len();
                let mut acc: i128 = 0;
                let mut i: usize = 0;
                while i < len
                    invariant
                        len == nodes@.len(),
                        i <= nodes@.len(),
                        acc == nodes_stars(nodes@.take(i as int), string_views(self.hidden@)),
                        -(i as int) * 0x8000_0000_0000_0000 <= acc <= (i as int) * 0x8000_0000_0000_0000,
                    decreases nodes@.len() - i,
                {
                    proof {
                        assert(nodes@.take(i + 1).drop_last() =~= nodes@.take(i as int));
                    }
                    match &nodes[i] {
                        Some(node) => {
                            if !self.is_hidden(&node.name) {
                                acc = acc + node.stargazers.total_count as i128;
                            }
                        },
                        None => {},
                    }
                    i = i + 1;
                }
                proof {
                    assert(nodes@.take(i as int) =~= nodes@);
                }
                acc
            },
        }
    }

    fn is_hidden(&self, name: &String) -> (r: bool)
        ensures
            r == string_views(self.hidden@).contains(name@),
    {
        let mut i: usize = 0;
        while i < self.hidden.len()
            invariant
                i <= self.hidden@.len(),
                forall|j: int| 0 <= j < i ==> #[trigger] self.hidden@[j]@ != name@,
            decreases self.hidden@.len() - i,
        {
            if self.hidden[i] == *name {
                proof {
                    assert(string_views(self.hidden@)[i as int] == name@);
                }
                return true;
            }
            i = i + 1;
        }
        proof {
            if string_views(self.hidden@).contains(name@) {
                let j = choose|j: int| 0 <= j < string_views(self.hidden@).len() && string_views(self.hidden@)[j] == name@;
                assert(self.hidden@[j]@ == name@);
            }
        }
        false
    }
}

/// Over pages that each point to a next one but the last, which reports no
/// next page, paging goes on through every page and stops after the last:
/// the total then covers all of them.
pub proof fn lemma_paging_stops(pages: Seq<UserRepoUserRepositories>)
    requires
        pages.len() > 0,
        forall|i: int| 0 <= i < pages.len() - 1 ==> page_continues(#[trigger] pages[i]),
        !pages.last().page_info.has_next_page,
    ensures
        paging_done(pages),
        forall|k: int| 0 <= k < pages.len() ==> !paging_done(#[trigger] pages.take(k)),
{
    assert forall|k: int| 0 <= k < pages.len() implies !paging_done(#[trigger] pages.take(k)) by {
        if k > 0 {
            assert(pages.take(k).last() == pages[k - 1]);
        }
    }
}

} // verus!
