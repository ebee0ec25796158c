//! The languages a user writes in, merged across repositories: one entry per
//! language name with its byte count summed.

use vstd::prelude::*;

use super::GithubError;
use crate::codec::{
    decode_fields, encode_fields, encoded_at, field_str, field_u64, field_views, fields_bytes,
    has_shape, kind_of, lemma_encoded_middle, lemma_fields_bytes_concat, lemma_occurs_concat,
    lemma_occurs_within, occurs_at, Field, FieldKind, FieldView,
};
use crate::utils::{MonitorTime, SystemTimeWrapper, NANOS_PER_SEC};

verus! {

/// A language: its name, its color (absent for unclassified languages) and
/// a byte count.
#[derive(Debug, Clone)]
pub struct Lang {
    pub name: String,
    pub color: Option<String>,
    pub size: usize,
}

pub struct LangView {
    pub name: Seq<char>,
    pub color: Option<Seq<char>>,
    pub size: usize,
}

pub open spec fn opt_view(o: Option<String>) -> Option<Seq<char>> {
    match o {
        Some(s) => Some(s@),
        None => None,
    }
}

impl View for Lang {
    type V = LangView;

    open spec fn view(&self) -> LangView {
        LangView { name: self.name@, color: opt_view(self.color), size: self.size }
    }
}

pub open spec fn lang_views(s: Seq<Lang>) -> Seq<LangView> {
    s.map_values(|l: Lang| l@)
}

/// The sum of the sizes of the entries named `n`.
pub open spec fn size_of_name(s: Seq<LangView>, n: Seq<char>) -> int
    decreases s.len(),
{
    if s.len() == 0 {
        0
    } else {
        size_of_name(s.drop_last(), n) + if s.last().name == n {
            s.last().size as int
        } else {
            0
        }
    }
}

/// Some entry is named `n`.
pub open spec fn has_name(s: Seq<LangView>, n: Seq<char>) -> bool {
    exists|i: int| 0 <= i < s.len() && #[trigger] s[i].name == n
}

/// The color of the last entry named `n`, if any.
pub open spec fn color_of(s: Seq<LangView>, n: Seq<char>) -> Option<Seq<char>>
    decreases s.len(),
{
    if s.len() == 0 {
        None
    } else if s.last().name == n {
        s.last().color
    } else {
        color_of(s.drop_last(), n)
    }
}

/// The color of the first entry named `n`, if any.
pub open spec fn first_color(s: Seq<LangView>, n: Seq<char>) -> Option<Seq<char>>
    decreases s.len(),
{
    if s.len() == 0 {
        None
    } else if has_name(s.drop_last(), n) {
        first_color(s.drop_last(), n)
    } else if s.last().name == n {
        s.last().color
    } else {
        None
    }
}

/// No two entries share a name.
pub open spec fn unique_names(s: Seq<LangView>) -> bool {
    forall|i: int, j: int| 0 <= i < j < s.len() ==> #[trigger] s[i].name != #[trigger] s[j].name
}

/// The languages of one user, keyed by name, and when they were gathered.
/// No two entries share a name.
#[derive(Debug)]
pub struct TopLangs {
    langs: Vec<Lang>,
    create_at: SystemTimeWrapper,
}

impl TopLangs {
    #[verifier::type_invariant]
    spec fn inv(&self) -> bool {
        unique_names(lang_views(self.langs@)) && self.create_at.wf()
    }

    pub closed spec fn langs_spec(&self) -> Seq<Lang> {
        self.langs@
    }

    pub closed spec fn create_at_spec(&self) -> SystemTimeWrapper {
        self.create_at
    }

    pub open spec fn entries(&self) -> Seq<LangView> {
        lang_views(self.langs_spec())
    }

    /// The languages, one entry per name.
    pub fn langs(&self) -> (r: &Vec<Lang>)
        ensures
            r@ == self.langs_spec(),
            unique_names(self.entries()),
    {
        proof { use_type_invariant(self); }
        &self.langs
    }

    /// When the languages were gathered.
    pub fn created(&self) -> (r: SystemTimeWrapper)
        ensures
            r == self.create_at_spec(),
            r.wf(),
    {
        proof { use_type_invariant(self); }
        self.create_at
    }
}

proof fn lemma_push(s: Seq<LangView>, e: LangView)
    ensures
        forall|n: Seq<char>| #[trigger] size_of_name(s.push(e), n)
            == size_of_name(s, n) + if e.name == n { e.size as int } else { 0 },
        forall|n: Seq<char>| #[trigger] color_of(s.push(e), n)
            == if e.name == n { e.color } else { color_of(s, n) },
        forall|n: Seq<char>| #[trigger] has_name(s.push(e), n) == (has_name(s, n) || e.name == n),
{
    assert(s.push(e).drop_last() =~= s);
    assert forall|n: Seq<char>| #[trigger] has_name(s.push(e), n) == (has_name(s, n) || e.name == n) by {
        if has_name(s, n) {
            let i = choose|i: int| 0 <= i < s.len() && #[trigger] s[i].name == n;
            assert(s.push(e)[i].name == n);
        }
        if e.name == n {
            assert(s.push(e)[s.len() as int].name == n);
        }
        if has_name(s.push(e), n) {
            let i = choose|i: int| 0 <= i < s.push(e).len() && #[trigger] s.push(e)[i].name == n;
            if i < s.len() {
                assert(s[i].name == n);
            }
        }
    }
}

/// Replacing an entry by one of the same name and color changes only the
/// size recorded for that name.
proof fn lemma_update(s: Seq<LangView>, i: int, x: LangView)
    requires
        0 <= i < s.len(),
        x.name == s[i].name,
        x.color == s[i].color,
    ensures
        forall|n: Seq<char>| #[trigger] size_of_name(s.update(i, x), n)
            == size_of_name(s, n) + if x.name == n { x.size - s[i].size } else { 0 },
        forall|n: Seq<char>| #[trigger] color_of(s.update(i, x), n) == color_of(s, n),
        forall|n: Seq<char>| #[trigger] has_name(s.update(i, x), n) == has_name(s, n),
        unique_names(s) ==> unique_names(s.update(i, x)),
    decreases s.len(),
{
    let t = s.update(i, x);
    if i == s.len() - 1 {
        assert(t.drop_last() =~= s.drop_last());
        assert(t.last() == x);
    } else {
        lemma_update(s.drop_last(), i, x);
        assert(t.drop_last() =~= s.drop_last().update(i, x));
        assert(t.last() == s.last());
    }
    assert forall|n: Seq<char>| #[trigger] size_of_name(t, n)
        == size_of_name(s, n) + if x.name == n { x.size - s[i].size } else { 0 } by {
        assert(size_of_name(t, n) == size_of_name(t.drop_last(), n) + if t.last().name == n {
            t.last().size as int
        } else {
            0
        });
    }
    assert forall|n: Seq<char>| #[trigger] color_of(t, n) == color_of(s, n) by {
        assert(color_of(t, n) == if t.last().name == n { t.last().color } else { color_of(t.drop_last(), n) });
    }
    assert forall|n: Seq<char>| #[trigger] has_name(t, n) == has_name(s, n) by {
        if has_name(s, n) {
            let j = choose|j: int| 0 <= j < s.len() && #[trigger] s[j].name == n;
            assert(t[j].name == n);
        }
        if has_name(t, n) {
            let j = choose|j: int| 0 <= j < t.len() && #[trigger] t[j].name == n;
            assert(s[j].name == n);
        }
    }
    if unique_names(s) {
        assert forall|a: int, b: int| 0 <= a < b < t.len() implies #[trigger] t[a].name != #[trigger] t[b].name by {
            assert(s[a].name != s[b].name);
        }
    }
}

/// With unique names, an entry's color is the color recorded for its name.
proof fn lemma_color_of_unique(s: Seq<LangView>, i: int)
    requires
        unique_names(s),
        0 <= i < s.len(),
    ensures
        color_of(s, s[i].name) == s[i].color,
    decreases s.len(),
{
    if i < s.len() - 1 {
        assert(s.last().name != s[i].name);
        assert(s.drop_last()[i] == s[i]);
        lemma_color_of_unique(s.drop_last(), i);
    }
}

impl TopLangs {
    /// No languages yet, gathered at `now`.
    pub fn new(now: SystemTimeWrapper) -> (r: TopLangs)
        requires
            now.wf(),
        ensures
            r.entries() == Seq::<LangView>::empty(),
            r.create_at_spec() == now,
    {
        let r = TopLangs { langs: Vec::new(), create_at: now };
        assert(r.entries() =~= Seq::<LangView>::empty());
        r
    }

    /// Merges one language edge: a new name is added, a known one has the
    /// edge's size added to its total and keeps its color. Fails, changing
    /// nothing, when the total would not fit in a `usize`.
    pub fn add_language(&mut self, lang: Lang) -> (r: Result<(), GithubError>)
        ensures
            final(self).create_at_spec() == old(self).create_at_spec(),
            unique_names(final(self).entries()),
            r is Err <==> size_of_name(old(self).entries(), lang.name@) + lang.size > usize::MAX,
            r == Err::<(), GithubError>(GithubError::Overflow) || r is Ok,
            r is Err ==> final(self).entries() == old(self).entries(),
            r is Ok ==> forall|n: Seq<char>| #[trigger] size_of_name(final(self).entries(), n)
                == size_of_name(old(self).entries(), n) + if lang.name@ == n { lang.size as int } else { 0 },
            r is Ok ==> forall|n: Seq<char>| #[trigger] has_name(final(self).entries(), n)
                == (has_name(old(self).entries(), n) || lang.name@ == n),
            r is Ok ==> forall|n: Seq<char>| #[trigger] color_of(final(self).entries(), n)
                == if has_name(old(self).entries(), n) {
                    color_of(old(self).entries(), n)
                } else if lang.name@ == n {
                    lang@.color
                } else {
                    None
                },
    {
        proof { use_type_invariant(&*self); }
        let ghost s = self.entries();
        let mut i: usize = 0;
        while i < self.langs.len()
            invariant
                s == self.entries(),
                i <= self.langs@.len(),
                forall|j: int| 0 <= j < i ==> #[trigger] s[j].name != lang.name@,
            ensures
                s == self.entries(),
                i <= self.langs@.len(),
                forall|j: int| 0 <= j < i ==> #[trigger] s[j].name != lang.name@,
                i < self.langs@.len() ==> s[i as int].name == lang.name@,
            decreases self.langs@.len() - i,
        {
            if self.langs[i].name == lang.name {
                break;
            }
            i = i + 1;
        }
        proof {
            assert forall|n: Seq<char>| !has_name(s, n) implies color_of(s, n) == None::<Seq<char>> by {
                lemma_color_none(s, n);
            }
        }
        if i == self.langs.len() {
            proof {
                assert(!has_name(s, lang.name@));
                lemma_size_absent(s, lang.name@);
                lemma_push(s, lang@);
            }
            let mut v: Vec<Lang> = Vec::new();
            std::mem::swap(&mut self.langs, &mut v);
            v.push(lang);
            proof {
                assert(lang_views(v@) =~= s.push(lang@));
                assert forall|a: int, b: int| 0 <= a < b < s.len() + 1 implies
                    #[trigger] s.push(lang@)[a].name != #[trigger] s.push(lang@)[b].name by {
                    if b == s.len() {
                        assert(s[a].name != lang.name@);
                    }
                }
            }
            self.langs = v;
            Ok(())
        } else {
            proof {
                assert(s[i as int].name == lang.name@);
                lemma_size_unique(s, i as int);
            }
            let old_size = self.langs[i].size;
            if old_size > usize::MAX - lang.size {
                return Err(GithubError::Overflow);
            }
            let mut v: Vec<Lang> = Vec::new();
            std::mem::swap(&mut self.langs, &mut v);
            let prev = v.remove(i);
            let merged = Lang { name: lang.name, color: prev.color, size: prev.size + lang.size };
            v.insert(i, merged);
            proof {
                assert(lang_views(v@) =~= s.update(i as int, merged@));
                lemma_update(s, i as int, merged@);
                assert(has_name(s, lang.name@));
            }
            self.langs = v;
            Ok(())
        }
    }
}

impl Lang {
    /// A copy of the language.
    pub fn duplicate(&self) -> (r: Lang)
        ensures
            r@ == self@,
    {
        let color = match &self.color {
            Some(c) => Some(c.clone()),
            None => None,
        };
        Lang { name: self.name.clone(), color, size: self.size }
    }
}

impl TopLangs {
    /// Merges a list of language edges in order. On success every name's
    /// total is its previous total plus the sizes of the edges of that name,
    /// and a name seen for the first time takes the color of its first edge.
    /// Fails exactly when some total would not fit in a `usize`; the value
    /// is then to be discarded.
    pub fn add_languages(&mut self, edges: &Vec<Lang>) -> (r: Result<(), GithubError>)
        ensures
            final(self).create_at_spec() == old(self).create_at_spec(),
            unique_names(final(self).entries()),
            r is Err <==> exists|n: Seq<char>|
                #[trigger] size_of_name(old(self).entries(), n) + size_of_name(lang_views(edges@), n) > usize::MAX,
            r == Err::<(), GithubError>(GithubError::Overflow) || r is Ok,
            r is Ok ==> forall|n: Seq<char>| #[trigger] size_of_name(final(self).entries(), n)
                == size_of_name(old(self).entries(), n) + size_of_name(lang_views(edges@), n),
            r is Ok ==> forall|n: Seq<char>| #[trigger] has_name(final(self).entries(), n)
                == (has_name(old(self).entries(), n) || has_name(lang_views(edges@), n)),
            r is Ok ==> forall|n: Seq<char>| #[trigger] color_of(final(self).entries(), n)
                == if has_name(old(self).entries(), n) {
                    color_of(old(self).entries(), n)
                } else {
                    first_color(lang_views(edges@), n)
                },
    {
        proof { use_type_invariant(&*self); }
        let ghost s0 = self.entries();
        let ghost ev = lang_views(edges@);
        let mut k: usize = 0;
        proof {
            assert(ev.take(0) =~= Seq::<LangView>::empty());
            assert forall|n: Seq<char>| !has_name(s0, n) implies color_of(s0, n) == None::<Seq<char>> by {
                lemma_color_none(s0, n);
            }
        }
        while k < edges.len()
            invariant
                ev == lang_views(edges@),
                s0 == old(self).entries(),
                k <= edges@.len(),
                self.create_at_spec() == old(self).create_at_spec(),
                unique_names(self.entries()),
                forall|n: Seq<char>| #[trigger] size_of_name(self.entries(), n)
                    == size_of_name(s0, n) + size_of_name(ev.take(k as int), n),
                forall|n: Seq<char>| #[trigger] has_name(self.entries(), n)
                    == (has_name(s0, n) || has_name(ev.take(k as int), n)),
                forall|n: Seq<char>| #[trigger] color_of(self.entries(), n)
                    == if has_name(s0, n) { color_of(s0, n) } else { first_color(ev.take(k as int), n) },
            decreases edges@.len() - k,
        {
            let lang = edges[k].duplicate();
            let ghost cur = self.entries();
            let step = self.add_language(lang);
            proof {
                assert(ev.take(k + 1).drop_last() =~= ev.take(k as int));
                assert(ev.take(k + 1).last() == ev[k as int]);
                assert(ev[k as int] == edges@[k as int]@);
            }
            if step.is_err() {
                proof {
                    let n = lang@.name;
                    lemma_size_prefix(ev, k + 1, n);
                    assert(size_of_name(ev.take(k + 1), n) == size_of_name(ev.take(k as int), n) + lang.size);
                    assert(size_of_name(cur, n) == size_of_name(s0, n) + size_of_name(ev.take(k as int), n));
                    assert(size_of_name(s0, n) + size_of_name(ev, n) > usize::MAX);
                    assert(s0 == old(self).entries());
                    assert(size_of_name(old(self).entries(), n) + size_of_name(lang_views(edges@), n) > usize::MAX);
                }
                return Err(GithubError::Overflow);
            }
            proof {
                assert forall|n: Seq<char>| #[trigger] has_name(self.entries(), n)
                    == (has_name(s0, n) || has_name(ev.take(k + 1), n)) by {
                    lemma_has_name_push(ev.take(k as int), ev[k as int], n);
                    assert(ev.take(k as int).push(ev[k as int]) =~= ev.take(k + 1));
                }
                assert forall|n: Seq<char>| #[trigger] color_of(self.entries(), n)
                    == if has_name(s0, n) { color_of(s0, n) } else { first_color(ev.take(k + 1), n) } by {
                    if !has_name(cur, n) {
                        lemma_first_color_none(ev.take(k as int), n);
                    }
                }
            }
            k = k + 1;
        }
        proof {
            assert(ev.take(k as int) =~= ev);
            assert forall|n: Seq<char>|
                #[trigger] size_of_name(s0, n) + size_of_name(ev, n) <= usize::MAX by {
                lemma_size_bounded(self.entries(), n);
            }
        }
        Ok(())
    }
}

proof fn lemma_has_name_push(s: Seq<LangView>, e: LangView, n: Seq<char>)
    ensures
        has_name(s.push(e), n) == (has_name(s, n) || e.name == n),
{
    lemma_push(s, e);
}

proof fn lemma_first_color_none(s: Seq<LangView>, n: Seq<char>)
    requires
        !has_name(s, n),
    ensures
        first_color(s, n) == None::<Seq<char>>,
    decreases s.len(),
{
    if s.len() > 0 {
        assert(s.last().name != n) by {
            assert(s[s.len() - 1].name == s.last().name);
        }
        assert forall|j: int| 0 <= j < s.drop_last().len() implies #[trigger] s.drop_last()[j].name != n by {
            assert(s[j].name != n);
        }
    }
}

/// A prefix never records more for a name than the whole list.
proof fn lemma_size_prefix(s: Seq<LangView>, k: int, n: Seq<char>)
    requires
        0 <= k <= s.len(),
    ensures
        size_of_name(s.take(k), n) <= size_of_name(s, n),
    decreases s.len() - k,
{
    if k < s.len() {
        lemma_size_prefix(s, k + 1, n);
        assert(s.take(k + 1).drop_last() =~= s.take(k));
    } else {
        assert(s.take(k) =~= s);
    }
}

/// With unique names, the size recorded for a name fits in a `usize`.
proof fn lemma_size_bounded(s: Seq<LangView>, n: Seq<char>)
    requires
        unique_names(s),
    ensures
        size_of_name(s, n) <= usize::MAX,
{
    if has_name(s, n) {
        let i = choose|i: int| 0 <= i < s.len() && #[trigger] s[i].name == n;
        lemma_size_unique(s, i);
    } else {
        lemma_size_absent(s, n);
    }
}

proof fn lemma_color_none(s: Seq<LangView>, n: Seq<char>)
    requires
        !has_name(s, n),
    ensures
        color_of(s, n) == None::<Seq<char>>,
    decreases s.len(),
{
    if s.len() > 0 {
        assert(s.last().name != n) by {
            assert(s[s.len() - 1].name == s.last().name);
        }
        assert forall|j: int| 0 <= j < s.drop_last().len() implies #[trigger] s.drop_last()[j].name != n by {
            assert(s[j].name != n);
        }
        lemma_color_none(s.drop_last(), n);
    }
}

proof fn lemma_size_absent(s: Seq<LangView>, n: Seq<char>)
    requires
        !has_name(s, n),
    ensures
        size_of_name(s, n) == 0,
    decreases s.len(),
{
    if s.len() > 0 {
        assert(s.last().name != n) by {
            assert(s[s.len() - 1].name == s.last().name);
        }
        assert forall|j: int| 0 <= j < s.drop_last().len() implies #[trigger] s.drop_last()[j].name != n by {
            assert(s[j].name != n);
        }
        lemma_size_absent(s.drop_last(), n);
    }
}

/// With unique names, the size recorded for an entry's name is its size.
proof fn lemma_size_unique(s: Seq<LangView>, i: int)
    requires
        unique_names(s),
        0 <= i < s.len(),
    ensures
        size_of_name(s, s[i].name) == s[i].size,
    decreases s.len(),
{
    let n = s[i].name;
    if i == s.len() - 1 {
        assert forall|j: int| 0 <= j < s.drop_last().len() implies #[trigger] s.drop_last()[j].name != n by {
            assert(s[j].name != s[i].name);
        }
        lemma_size_absent(s.drop_last(), n);
    } else {
        assert(s.last().name != n);
        assert(s.drop_last()[i] == s[i]);
        lemma_size_unique(s.drop_last(), i);
    }
}

} // verus!

verus! {

broadcast use vstd::seq_lib::group_to_multiset_ensures;

proof fn lemma_size_remove(s: Seq<LangView>, j: int, n: Seq<char>)
    requires
        0 <= j < s.len(),
    ensures
        size_of_name(s, n) == size_of_name(s.remove(j), n) + if s[j].name == n { s[j].size as int } else { 0 },
    decreases s.len(),
{
    if j == s.len() - 1 {
        assert(s.remove(j) =~= s.drop_last());
    } else {
        lemma_size_remove(s.drop_last(), j, n);
        assert(s.remove(j).drop_last() =~= s.drop_last().remove(j));
        assert(s.remove(j).last() == s.last());
    }
}

/// Edge lists merged one after the other, as one list.
pub open spec fn concat_chunks(chunks: Seq<Seq<LangView>>) -> Seq<LangView>
    decreases chunks.len(),
{
    if chunks.len() == 0 {
        Seq::empty()
    } else {
        concat_chunks(chunks.drop_last()) + chunks.last()
    }
}

/// `states` are the entries of a languages value before its first merge
/// (none) and after each merge, and `chunks` the edge lists merged in turn,
/// one `add_languages` or `add_page` call each: every merge adds its edges'
/// sizes to each name and its edges' names to the names, as those calls
/// ensure.
pub open spec fn merged_in_turn(states: Seq<Seq<LangView>>, chunks: Seq<Seq<LangView>>) -> bool {
    &&& states.len() == chunks.len() + 1
    &&& states[0].len() == 0
    &&& forall|i: int, n: Seq<char>| 0 <= i < chunks.len() ==> {
        &&& size_of_name(states[i + 1], n) == size_of_name(states[i], n) + #[trigger] size_of_name(chunks[i], n)
        &&& has_name(states[i + 1], n) == (has_name(states[i], n) || has_name(chunks[i], n))
    }
}

pub proof fn lemma_size_concat(a: Seq<LangView>, b: Seq<LangView>, n: Seq<char>)
    ensures
        size_of_name(a + b, n) == size_of_name(a, n) + size_of_name(b, n),
    decreases b.len(),
{
    if b.len() == 0 {
        assert(a + b =~= a);
    } else {
        lemma_size_concat(a, b.drop_last(), n);
        assert((a + b).drop_last() =~= a + b.drop_last());
        assert((a + b).last() == b.last());
    }
}

pub proof fn lemma_has_name_concat(a: Seq<LangView>, b: Seq<LangView>, n: Seq<char>)
    ensures
        has_name(a + b, n) == (has_name(a, n) || has_name(b, n)),
{
    if has_name(a, n) {
        let i = choose|i: int| 0 <= i < a.len() && #[trigger] a[i].name == n;
        assert((a + b)[i].name == n);
    }
    if has_name(b, n) {
        let i = choose|i: int| 0 <= i < b.len() && #[trigger] b[i].name == n;
        assert((a + b)[a.len() + i].name == n);
    }
    if has_name(a + b, n) {
        let i = choose|i: int| 0 <= i < (a + b).len() && #[trigger] (a + b)[i].name == n;
        if i < a.len() {
            assert(a[i].name == n);
        } else {
            assert(b[i - a.len()].name == n);
        }
    }
}

/// After merging edge lists in turn, each name's total and presence are
/// those of all the edges merged, taken as one list.
pub proof fn lemma_merged_in_turn(states: Seq<Seq<LangView>>, chunks: Seq<Seq<LangView>>, n: Seq<char>)
    requires
        merged_in_turn(states, chunks),
    ensures
        size_of_name(states.last(), n) == size_of_name(concat_chunks(chunks), n),
        has_name(states.last(), n) == has_name(concat_chunks(chunks), n),
    decreases chunks.len(),
{
    let k = chunks.len() as int;
    if k == 0 {
        let s0 = states[0];
        assert(states.last() == s0);
        assert(concat_chunks(chunks) =~= Seq::<LangView>::empty());
        assert(s0 =~= Seq::<LangView>::empty());
        assert(!has_name(s0, n));
        assert(!has_name(Seq::<LangView>::empty(), n));
    } else {
        let s1 = states.drop_last();
        let c1 = chunks.drop_last();
        assert(s1[0] == states[0]);
        assert forall|i: int, m: Seq<char>| 0 <= i < c1.len() implies {
            &&& size_of_name(s1[i + 1], m) == size_of_name(s1[i], m) + #[trigger] size_of_name(c1[i], m)
            &&& has_name(s1[i + 1], m) == (has_name(s1[i], m) || has_name(c1[i], m))
        } by {
            assert(c1[i] == chunks[i]);
            assert(s1[i + 1] == states[i + 1]);
            assert(s1[i] == states[i]);
            assert(size_of_name(states[i + 1], m) == size_of_name(states[i], m) + size_of_name(chunks[i], m));
        }
        assert(merged_in_turn(s1, c1));
        assert(states.last() == states[k]);
        assert(s1.last() == states[k - 1]);
        assert(chunks.last() == chunks[k - 1]);
        lemma_merged_in_turn(s1, c1, n);
        assert(size_of_name(chunks[k - 1], n) == size_of_name(chunks[k - 1], n));
        lemma_size_concat(concat_chunks(c1), chunks.last(), n);
        lemma_has_name_concat(concat_chunks(c1), chunks.last(), n);
    }
}

/// However the edges are split (across repositories, pages or calls, any
/// number of them) and in whatever order they come, merging them gives
/// every language the same total and the same set of names: two merge
/// histories over the same edges, up to order, agree.
pub proof fn lemma_merges_order_independent(
    s1: Seq<Seq<LangView>>,
    c1: Seq<Seq<LangView>>,
    s2: Seq<Seq<LangView>>,
    c2: Seq<Seq<LangView>>,
    n: Seq<char>,
)
    requires
        merged_in_turn(s1, c1),
        merged_in_turn(s2, c2),
        concat_chunks(c1).to_multiset() == concat_chunks(c2).to_multiset(),
    ensures
        size_of_name(s1.last(), n) == size_of_name(s2.last(), n),
        has_name(s1.last(), n) == has_name(s2.last(), n),
{
    lemma_merged_in_turn(s1, c1, n);
    lemma_merged_in_turn(s2, c2, n);
    lemma_merge_order_independent(concat_chunks(c1), concat_chunks(c2), n);
}

/// The total merged for a language does not depend on the order in which
/// the edges come: any two orderings of the same edges give the same total.
pub proof fn lemma_merge_order_independent(a: Seq<LangView>, b: Seq<LangView>, n: Seq<char>)
    requires
        a.to_multiset() == b.to_multiset(),
    ensures
        size_of_name(a, n) == size_of_name(b, n),
        has_name(a, n) == has_name(b, n),
    decreases a.len(),
{
    if a.len() == 0 {
        assert(a.to_multiset().len() == 0);
        assert(b.to_multiset().len() == b.len());
        assert(b.len() == 0);
        assert(!has_name(b, n));
        assert(!has_name(a, n));
    } else {
        let x = a.last();
        let a1 = a.drop_last();
        assert(a =~= a1.push(x));
        assert(a.to_multiset().count(x) > 0);
        assert(b.contains(x));
        let j = choose|j: int| 0 <= j < b.len() && b[j] == x;
        let b1 = b.remove(j);
        assert(b1.to_multiset() =~= a1.to_multiset());
        lemma_merge_order_independent(a1, b1, n);
        lemma_size_remove(b, j, n);
        assert(has_name(a, n) == has_name(b, n)) by {
            if has_name(a, n) {
                let i = choose|i: int| 0 <= i < a.len() && #[trigger] a[i].name == n;
                if i < a.len() - 1 {
                    assert(a1[i].name == n);
                    let k = choose|k: int| 0 <= k < b1.len() && #[trigger] b1[k].name == n;
                    if k < j {
                        assert(b[k].name == n);
                    } else {
                        assert(b[k + 1].name == n);
                    }
                } else {
                    assert(b[j].name == n);
                }
            }
            if has_name(b, n) {
                let i = choose|i: int| 0 <= i < b.len() && #[trigger] b[i].name == n;
                if i == j {
                    assert(a[a.len() - 1].name == n);
                } else {
                    let k = if i < j { i } else { i - 1 };
                    assert(b1[k].name == n);
                    let m = choose|m: int| 0 <= m < a1.len() && #[trigger] a1[m].name == n;
                    assert(a[m].name == n);
                }
            }
        }
    }
}

} // verus!

verus! {

pub struct TopLangsView {
    pub langs: Seq<LangView>,
    pub create_at: SystemTimeWrapper,
}

impl View for TopLangs {
    type V = TopLangsView;

    open spec fn view(&self) -> TopLangsView {
        TopLangsView { langs: self.entries(), create_at: self.create_at_spec() }
    }
}

impl TopLangsView {
    pub open spec fn wf(&self) -> bool {
        &&& unique_names(self.langs)
        &&& self.create_at.wf()
        &&& self.langs.len() <= u64::MAX
    }
}

/// The fields one language is encoded as: name, whether a color is present,
/// the color (empty when absent), and size.
pub open spec fn lang_fields(l: LangView) -> Seq<FieldView> {
    seq![
        FieldView::Str(l.name),
        FieldView::U64(if l.color is Some { 1 } else { 0 }),
        FieldView::Str(match l.color {
            Some(c) => c,
            None => Seq::empty(),
        }),
        FieldView::U64(l.size as u64),
    ]
}

pub open spec fn lang_shape() -> Seq<FieldKind> {
    seq![FieldKind::Str, FieldKind::U64, FieldKind::Str, FieldKind::U64]
}

pub open spec fn langs_fields(s: Seq<LangView>) -> Seq<FieldView>
    decreases s.len(),
{
    if s.len() == 0 {
        Seq::empty()
    } else {
        langs_fields(s.drop_last()) + lang_fields(s.last())
    }
}

pub open spec fn top_langs_header(v: TopLangsView) -> Seq<FieldView> {
    seq![
        FieldView::U64(v.create_at.secs),
        FieldView::U64(v.create_at.nanos as u64),
        FieldView::U64(v.langs.len() as u64),
    ]
}

pub open spec fn header_shape() -> Seq<FieldKind> {
    seq![FieldKind::U64, FieldKind::U64, FieldKind::U64]
}

/// The fields a languages value is encoded as: creation time, the number of
/// languages, then each language.
pub open spec fn top_langs_fields(v: TopLangsView) -> Seq<FieldView> {
    top_langs_header(v) + langs_fields(v.langs)
}

/// The bytes a languages value is cached as.
pub open spec fn top_langs_bytes(v: TopLangsView) -> Seq<u8> {
    fields_bytes(top_langs_fields(v))
}

proof fn lemma_langs_fields_split(s: Seq<LangView>, k: int)
    requires
        0 <= k < s.len(),
    ensures
        langs_fields(s) == langs_fields(s.take(k)) + lang_fields(s[k]) + langs_fields(s.skip(k + 1)),
        langs_fields(s.take(k + 1)) == langs_fields(s.take(k)) + lang_fields(s[k]),
    decreases s.len(),
{
    assert(s.take(k + 1).drop_last() =~= s.take(k));
    if k == s.len() - 1 {
        assert(s.skip(k + 1) =~= Seq::<LangView>::empty());
        assert(s.take(k) =~= s.drop_last());
        assert(langs_fields(s.take(k)) + lang_fields(s[k]) + Seq::<FieldView>::empty()
            =~= langs_fields(s.take(k)) + lang_fields(s[k]));
    } else {
        lemma_langs_fields_split(s.drop_last(), k);
        assert(s.drop_last().take(k) =~= s.take(k));
        assert(s.drop_last().skip(k + 1) =~= s.skip(k + 1).drop_last());
        assert(s.skip(k + 1).last() == s.last());
        assert(langs_fields(s.skip(k + 1)) == langs_fields(s.skip(k + 1).drop_last()) + lang_fields(s.skip(k + 1).last()));
        assert(langs_fields(s.take(k)) + lang_fields(s[k]) + langs_fields(s.skip(k + 1))
            =~= langs_fields(s.take(k)) + lang_fields(s[k]) + langs_fields(s.drop_last().skip(k + 1)) + lang_fields(s.last()));
    }
}

proof fn lemma_lang_shape(l: LangView)
    ensures
        has_shape(lang_fields(l), lang_shape()),
{
    assert forall|i: int| 0 <= i < lang_fields(l).len() implies #[trigger] kind_of(lang_fields(l)[i]) == lang_shape()[i] by {}
}

proof fn lemma_header_shape(v: TopLangsView)
    ensures
        has_shape(top_langs_header(v), header_shape()),
{
    assert forall|i: int| 0 <= i < top_langs_header(v).len() implies #[trigger] kind_of(top_langs_header(v)[i]) == header_shape()[i] by {}
}

/// The index of the language named `name`, if any.
fn find_lang(langs: &Vec<Lang>, name: &String) -> (r: Option<usize>)
    ensures
        r matches Some(i) ==> i < langs@.len() && langs@[i as int].name@ == name@,
        r is None ==> !has_name(lang_views(langs@), name@),
{
    let mut i: usize = 0;
    while i < langs.len()
        invariant
            i <= langs@.len(),
            forall|j: int| 0 <= j < i ==> #[trigger] langs@[j].name@ != name@,
        decreases langs@.len() - i,
    {
        if langs[i].name == *name {
            return Some(i);
        }
        i = i + 1;
    }
    proof {
        assert forall|j: int| 0 <= j < lang_views(langs@).len() implies #[trigger] lang_views(langs@)[j].name != name@ by {
            assert(langs@[j].name@ != name@);
        }
    }
    None
}

impl TopLangs {
    /// Encodes the languages for the cache, creation time first.
    pub fn encode(&self) -> (r: Vec<u8>)
        ensures
            r@ == top_langs_bytes(self@),
    {
        let ghost v = self@;
        let mut fields: Vec<Field> = vec![
            Field::U64(self.create_at.secs),
            Field::U64(self.create_at.nanos as u64),
            Field::U64(self.langs.len() as u64),
        ];
        proof {
            assert(field_views(fields@) =~= top_langs_header(v));
            assert(v.langs.take(0) =~= Seq::<LangView>::empty());
            assert(top_langs_header(v) + langs_fields(v.langs.take(0)) =~= top_langs_header(v));
        }
        let mut i: usize = 0;
        while i < self.langs.len()
            invariant
                v == self@,
                i <= self.langs@.len(),
                field_views(fields@) == top_langs_header(v) + langs_fields(v.langs.take(i as int)),
            decreases self.langs@.len() - i,
        {
            let l = &self.langs[i];
            let ghost before = fields@;
            let (tag, color): (u64, String) = match &l.color {
                Some(c) => (1, c.clone()),
                None => (0, String::new()),
            };
            fields.push(Field::Str(l.name.clone()));
            fields.push(Field::U64(tag));
            fields.push(Field::Str(color));
            fields.push(Field::U64(l.size as u64));
            proof {
                assert(v.langs[i as int] == l@);
                lemma_langs_fields_split(v.langs, i as int);
                assert(field_views(fields@) =~= field_views(before) + lang_fields(l@));
            }
            i = i + 1;
        }
        proof {
            assert(v.langs.take(i as int) =~= v.langs);
        }
        encode_fields(&fields)
    }

    /// Decodes languages written by `encode`: bytes that begin with the
    /// encoding of a well-formed languages value decode to that value, and a
    /// value comes back only from bytes that begin with its encoding. Bytes
    /// naming a language twice are refused.
    pub fn decode(bytes: &Vec<u8>) -> (r: Option<TopLangs>)
        ensures
            r matches Some(t) ==> t@.wf() && occurs_at(top_langs_bytes(t@), bytes@, 0),
            forall|v: TopLangsView| v.wf() && #[trigger] occurs_at(top_langs_bytes(v), bytes@, 0)
                ==> (r matches Some(t) && t@ == v),
    {
        let header = vec![FieldKind::U64, FieldKind::U64, FieldKind::U64];
        let lang_kinds = vec![FieldKind::Str, FieldKind::U64, FieldKind::Str, FieldKind::U64];
        proof {
            assert(header@ =~= header_shape());
            assert(lang_kinds@ =~= lang_shape());
            assert forall|v: TopLangsView| v.wf() && #[trigger] occurs_at(top_langs_bytes(v), bytes@, 0)
                implies encoded_at(top_langs_header(v), header_shape(), bytes@, 0) by {
                lemma_header_shape(v);
                lemma_encoded_middle(Seq::empty(), top_langs_header(v), langs_fields(v.langs), header_shape());
                assert(Seq::<FieldView>::empty() + top_langs_header(v) + langs_fields(v.langs) =~= top_langs_fields(v));
                assert(fields_bytes(Seq::<FieldView>::empty()).len() == 0);
                lemma_occurs_within(top_langs_bytes(v), bytes@, 0, fields_bytes(top_langs_header(v)), 0);
            }
        }
        let (hs, mut cur) = match decode_fields(bytes, 0, &header) {
            Some(d) => d,
            None => return None,
        };
        proof {
            assert forall|i: int| 0 <= i < hs@.len() implies #[trigger] kind_of(hs@[i]@) == header_shape()[i] by {
                assert(field_views(hs@)[i] == hs@[i]@);
            }
            assert(field_views(hs@)[0] == hs@[0]@);
            assert(field_views(hs@)[1] == hs@[1]@);
            assert(field_views(hs@)[2] == hs@[2]@);
        }
        let secs = field_u64(&hs[0]);
        let nanos = field_u64(&hs[1]);
        let count = field_u64(&hs[2]);
        if nanos >= NANOS_PER_SEC as u64 {
            return None;
        }
        let create_at = SystemTimeWrapper { secs, nanos: nanos as u32 };
        let mut langs: Vec<Lang> = Vec::new();
        let mut k: u64 = 0;
        let ghost hdr = field_views(hs@);
        proof {
            assert(langs_fields(lang_views(langs@)) =~= Seq::<FieldView>::empty());
            assert(hdr + langs_fields(lang_views(langs@)) =~= hdr);
            assert forall|v: TopLangsView| v.wf() && #[trigger] occurs_at(top_langs_bytes(v), bytes@, 0) implies {
                &&& lang_views(langs@) == v.langs.take(k as int)
                &&& cur == fields_bytes(top_langs_header(v) + langs_fields(v.langs.take(k as int))).len()
            } by {
                assert(v.langs.take(0) =~= Seq::<LangView>::empty());
                assert(lang_views(langs@) =~= Seq::<LangView>::empty());
                assert(top_langs_header(v) + langs_fields(v.langs.take(0)) =~= top_langs_header(v));
            }
        }
        while k < count
            invariant
                lang_kinds@ == lang_shape(),
                cur <= bytes@.len(),
                k <= count,
                create_at.wf(),
                lang_views(langs@).len() == k,
                unique_names(lang_views(langs@)),
                hdr == seq![FieldView::U64(secs), FieldView::U64(create_at.nanos as u64), FieldView::U64(count)],
                occurs_at(fields_bytes(hdr + langs_fields(lang_views(langs@))), bytes@, 0),
                cur == fields_bytes(hdr + langs_fields(lang_views(langs@))).len(),
                forall|v: TopLangsView| v.wf() && #[trigger] occurs_at(top_langs_bytes(v), bytes@, 0) ==> {
                    &&& v.create_at == create_at
                    &&& v.langs.len() == count
                    &&& lang_views(langs@) == v.langs.take(k as int)
                    &&& cur == fields_bytes(top_langs_header(v) + langs_fields(v.langs.take(k as int))).len()
                },
            decreases count - k,
        {
            proof {
                assert forall|v: TopLangsView| v.wf() && #[trigger] occurs_at(top_langs_bytes(v), bytes@, 0)
                    implies encoded_at(lang_fields(v.langs[k as int]), lang_shape(), bytes@, cur as int) by {
                    lemma_langs_fields_split(v.langs, k as int);
                    lemma_lang_shape(v.langs[k as int]);
                    let p = top_langs_header(v) + langs_fields(v.langs.take(k as int));
                    lemma_encoded_middle(p, lang_fields(v.langs[k as int]), langs_fields(v.langs.skip(k + 1)), lang_shape());
                    assert(p + lang_fields(v.langs[k as int]) + langs_fields(v.langs.skip(k + 1)) =~= top_langs_fields(v));
                    lemma_occurs_within(top_langs_bytes(v), bytes@, 0, fields_bytes(lang_fields(v.langs[k as int])), fields_bytes(p).len() as int);
                }
            }
            let (fs, end) = match decode_fields(bytes, cur, &lang_kinds) {
                Some(d) => d,
                None => return None,
            };
            proof {
                assert forall|i: int| 0 <= i < fs@.len() implies #[trigger] kind_of(fs@[i]@) == lang_shape()[i] by {
                    assert(field_views(fs@)[i] == fs@[i]@);
                }
                assert(field_views(fs@)[0] == fs@[0]@);
                assert(field_views(fs@)[1] == fs@[1]@);
                assert(field_views(fs@)[2] == fs@[2]@);
                assert(field_views(fs@)[3] == fs@[3]@);
            }
            let name = field_str(&fs[0]);
            let tag = field_u64(&fs[1]);
            let color_text = field_str(&fs[2]);
            let size = field_u64(&fs[3]);
            if tag > 1 || size > usize::MAX as u64 || (tag == 0 && color_text.as_str().unicode_len() != 0) {
                return None;
            }
            if let Some(j) = find_lang(&langs, &name) {
                proof {
                    assert forall|v: TopLangsView| v.wf() && #[trigger] occurs_at(top_langs_bytes(v), bytes@, 0) implies false by {
                        assert(field_views(fs@) == lang_fields(v.langs[k as int]));
                        assert(name@ == v.langs[k as int].name);
                        assert(lang_views(langs@)[j as int] == langs@[j as int]@);
                        assert(v.langs.take(k as int)[j as int] == v.langs[j as int]);
                        assert(v.langs[j as int].name != v.langs[k as int].name);
                    }
                }
                return None;
            }
            let color = if tag == 1 { Some(color_text) } else { None };
            let lang = Lang { name, color, size: size as usize };
            let ghost before = langs@;
            langs.push(lang);
            proof {
                assert(lang_views(langs@) =~= lang_views(before).push(lang@));
                if tag == 0 {
                    assert(color_text@ =~= Seq::<char>::empty());
                }
                assert(field_views(fs@) =~= lang_fields(lang@));
                assert(lang_views(before).push(lang@).drop_last() =~= lang_views(before));
                assert(lang_views(before).push(lang@).last() == lang@);
                assert(langs_fields(lang_views(langs@)) == langs_fields(lang_views(before)) + lang_fields(lang@));
                assert(hdr + langs_fields(lang_views(langs@)) =~= hdr + langs_fields(lang_views(before)) + lang_fields(lang@));
                lemma_fields_bytes_concat(hdr + langs_fields(lang_views(before)), lang_fields(lang@));
                lemma_occurs_concat(fields_bytes(hdr + langs_fields(lang_views(before))), fields_bytes(lang_fields(lang@)), bytes@, 0);
                assert forall|a: int, b: int| 0 <= a < b < lang_views(langs@).len() implies
                    #[trigger] lang_views(langs@)[a].name != #[trigger] lang_views(langs@)[b].name by {
                    if b == lang_views(before).len() {
                        assert(lang_views(before)[a].name != lang@.name);
                    } else {
                        assert(lang_views(before)[a].name != lang_views(before)[b].name);
                    }
                }
                assert forall|v: TopLangsView| v.wf() && #[trigger] occurs_at(top_langs_bytes(v), bytes@, 0) implies {
                    &&& lang_views(langs@) == v.langs.take(k + 1)
                    &&& end == fields_bytes(top_langs_header(v) + langs_fields(v.langs.take(k + 1))).len()
                } by {
                    let l = v.langs[k as int];
                    assert(field_views(fs@) == lang_fields(l));
                    assert(lang@ == l);
                    assert(v.langs.take(k + 1) =~= v.langs.take(k as int).push(l));
                    lemma_langs_fields_split(v.langs, k as int);
                    let p = top_langs_header(v) + langs_fields(v.langs.take(k as int));
                    lemma_fields_bytes_concat(p, lang_fields(l));
                    assert(top_langs_header(v) + langs_fields(v.langs.take(k + 1)) =~= p + lang_fields(l));
                }
            }
            cur = end;
            k = k + 1;
        }
        let r = TopLangs { langs, create_at };
        proof {
            assert(hdr =~= top_langs_header(r@));
            assert forall|v: TopLangsView| v.wf() && #[trigger] occurs_at(top_langs_bytes(v), bytes@, 0) implies r@ == v by {
                assert(v.langs.take(k as int) =~= v.langs);
            }
        }
        Some(r)
    }
}

impl MonitorTime for TopLangs {
    fn create_at(&self) -> SystemTimeWrapper {
        self.create_at
    }
}

} // verus!
