//! The cache: an untyped store of encoded values keyed by kind and user key,
//! and the refresh policy that decides between using an entry and fetching
//! anew.

use vstd::prelude::*;

use crate::codec::{
    decode_fields, encoded_at, field_u64, field_views, fields_bytes, has_shape, kind_of, occurs_at,
    FieldKind, FieldView,
};
use crate::github::stats::{stats_bytes, UserGithubStats, UserGithubStatsView};
use crate::github::top_langs::{top_langs_bytes, TopLangs, TopLangsView};
use crate::utils::{SystemTimeWrapper, NANOS_PER_SEC};

verus! {

/// How long a cached value stays fresh, in seconds: one hour.
pub const TIMEOUT_SECS: u64 = 3600;

/// The kind of a cached value; part of every key, so that one user key can
/// hold one entry of each kind.
#[derive(Debug, Clone, Copy, PartialEq, Eq, Structural)]
pub enum CacheKind {
    UserGithubStats,
    TopLangs,
}

impl CacheKind {
    pub open spec fn tag_spec(self) -> Seq<char> {
        match self {
            CacheKind::UserGithubStats => "UserGithubStats"@,
            CacheKind::TopLangs => "TopLangs"@,
        }
    }

    /// The name of the kind as it appears in keys.
    pub fn tag(&self) -> (r: &'static str)
        ensures
            r@ == self.tag_spec(),
    {
        match self {
            CacheKind::UserGithubStats => "UserGithubStats",
            CacheKind::TopLangs => "TopLangs",
        }
    }
}

/// The key an entry is stored under: `"{kind}__{key}"`.
pub open spec fn full_key(kind: CacheKind, key: Seq<char>) -> Seq<char> {
    kind.tag_spec() + "__"@ + key
}

/// The key an entry of `kind` for `key` is stored under.
pub fn cache_key(kind: CacheKind, key: &str) -> (r: String)
    ensures
        r@ == full_key(kind, key@),
{
    let mut r = String::from_str(kind.tag());
    r.append("__");
    r.append(key);
    r
}

/// The map that a list of entries stands for; later entries win.
pub open spec fn entries_map(s: Seq<(String, Vec<u8>)>) -> Map<Seq<char>, Seq<u8>>
    decreases s.len(),
{
    if s.len() == 0 {
        Map::empty()
    } else {
        entries_map(s.drop_last()).insert(s.last().0@, s.last().1@)
    }
}

pub open spec fn unique_keys(s: Seq<(String, Vec<u8>)>) -> bool {
    forall|i: int, j: int| 0 <= i < j < s.len() ==> #[trigger] s[i].0@ != #[trigger] s[j].0@
}

/// Encoded values by full key. Entries are never expired here: staleness is
/// decided when an entry is read.
#[derive(Debug, Default)]
pub struct CacheStore {
    db: Vec<(String, Vec<u8>)>,
}

impl View for CacheStore {
    type V = Map<Seq<char>, Seq<u8>>;

    closed spec fn view(&self) -> Map<Seq<char>, Seq<u8>> {
        entries_map(self.db@)
    }
}

proof fn lemma_entries_map_absent(s: Seq<(String, Vec<u8>)>, k: Seq<char>)
    requires
        forall|j: int| 0 <= j < s.len() ==> #[trigger] s[j].0@ != k,
    ensures
        !entries_map(s).contains_key(k),
    decreases s.len(),
{
    if s.len() > 0 {
        assert(s.last().0@ != k) by {
            assert(s[s.len() - 1] == s.last());
        }
        assert forall|j: int| 0 <= j < s.drop_last().len() implies #[trigger] s.drop_last()[j].0@ != k by {
            assert(s[j].0@ != k);
        }
        lemma_entries_map_absent(s.drop_last(), k);
    }
}

proof fn lemma_entries_map_at(s: Seq<(String, Vec<u8>)>, i: int)
    requires
        unique_keys(s),
        0 <= i < s.len(),
    ensures
        entries_map(s).contains_key(s[i].0@),
        entries_map(s)[s[i].0@] == s[i].1@,
    decreases s.len(),
{
    if i < s.len() - 1 {
        assert(s.last().0@ != s[i].0@);
        assert(s.drop_last()[i] == s[i]);
        assert forall|a: int, b: int| 0 <= a < b < s.drop_last().len() implies
            #[trigger] s.drop_last()[a].0@ != #[trigger] s.drop_last()[b].0@ by {
            assert(s[a].0@ != s[b].0@);
        }
        lemma_entries_map_at(s.drop_last(), i);
    }
}

proof fn lemma_entries_map_update(s: Seq<(String, Vec<u8>)>, i: int, e: (String, Vec<u8>))
    requires
        unique_keys(s),
        0 <= i < s.len(),
        e.0@ == s[i].0@,
    ensures
        entries_map(s.update(i, e)) == entries_map(s).insert(e.0@, e.1@),
        unique_keys(s.update(i, e)),
    decreases s.len(),
{
    let t = s.update(i, e);
    assert forall|a: int, b: int| 0 <= a < b < t.len() implies #[trigger] t[a].0@ != #[trigger] t[b].0@ by {
        assert(s[a].0@ != s[b].0@);
    }
    if i == s.len() - 1 {
        assert(t.drop_last() =~= s.drop_last());
        assert(entries_map(s.drop_last()).insert(e.0@, e.1@) =~= entries_map(s).insert(e.0@, e.1@));
    } else {
        let d = s.drop_last();
        assert forall|a: int, b: int| 0 <= a < b < d.len() implies #[trigger] d[a].0@ != #[trigger] d[b].0@ by {
            assert(s[a].0@ != s[b].0@);
        }
        lemma_entries_map_update(d, i, e);
        assert(t.drop_last() =~= d.update(i, e));
        assert(t.last() == s.last());
        assert(s.last().0@ != e.0@);
        assert(entries_map(d).insert(e.0@, e.1@).insert(s.last().0@, s.last().1@)
            =~= entries_map(d).insert(s.last().0@, s.last().1@).insert(e.0@, e.1@));
    }
}

impl CacheStore {
    #[verifier::type_invariant]
    spec fn inv(&self) -> bool {
        unique_keys(self.db@)
    }

    /// An empty store.
    pub fn new() -> (r: CacheStore)
        ensures
            r@ == Map::<Seq<char>, Seq<u8>>::empty(),
    {
        CacheStore { db: Vec::new() }
    }

    fn position(&self, full: &String) -> (r: Option<usize>)
        ensures
            r matches Some(i) ==> i < self.db@.len() && self.db@[i as int].0@ == full@,
            r is None ==> forall|j: int| 0 <= j < self.db@.len() ==> #[trigger] self.db@[j].0@ != full@,
    {
        let mut i: usize = 0;
        while i < self.db.len()
            invariant
                i <= self.db@.len(),
                forall|j: int| 0 <= j < i ==> #[trigger] self.db@[j].0@ != full@,
            decreases self.db@.len() - i,
        {
            if self.db[i].0 == *full {
                return Some(i);
            }
            i = i + 1;
        }
        None
    }

    /// The bytes stored for `kind` and `key`, if any.
    pub fn get(&self, kind: CacheKind, key: &str) -> (r: Option<Vec<u8>>)
        ensures
            r matches Some(b) ==> self@.contains_key(full_key(kind, key@)) && b@ == self@[full_key(kind, key@)],
            r is None ==> !self@.contains_key(full_key(kind, key@)),
    {
        proof { use_type_invariant(self); }
        let full = cache_key(kind, key);
        match self.position(&full) {
            Some(i) => {
                proof { lemma_entries_map_at(self.db@, i as int); }
                Some(self.db[i].1.clone())
            },
            None => {
                proof { lemma_entries_map_absent(self.db@, full@); }
                None
            },
        }
    }

    /// Stores `bytes` for `kind` and `key`, replacing any earlier entry for
    /// that pair and no other.
    pub fn set(&mut self, kind: CacheKind, key: &str, bytes: Vec<u8>)
        ensures
            final(self)@ == old(self)@.insert(full_key(kind, key@), bytes@),
    {
        proof { use_type_invariant(&*self); }
        let full = cache_key(kind, key);
        let found = self.position(&full);
        let mut db: Vec<(String, Vec<u8>)> = Vec::new();
        std::mem::swap(&mut self.db, &mut db);
        let ghost s = db@;
        let ghost k = full@;
        let ghost e = (full, bytes);
        match found {
            Some(i) => {
                proof { lemma_entries_map_update(s, i as int, e); }
                db.set(i, (full, bytes));
                assert(db@ == s.update(i as int, e));
            },
            None => {
                db.push((full, bytes));
                proof {
                    assert(db@.drop_last() =~= s);
                    assert forall|a: int, b: int| 0 <= a < b < db@.len() implies
                        #[trigger] db@[a].0@ != #[trigger] db@[b].0@ by {
                        if b == s.len() {
                            assert(s[a].0@ != k);
                        } else {
                            assert(s[a].0@ != s[b].0@);
                        }
                    }
                }
            },
        }
        self.db = db;
    }

    /// The full keys of all entries, each once.
    pub fn list_keys(&self) -> (r: Vec<String>)
        ensures
            r@.len() == self@.len(),
            forall|k: Seq<char>| self@.contains_key(k) <==> exists|i: int| 0 <= i < r@.len() && #[trigger] r@[i]@ == k,
            forall|i: int, j: int| 0 <= i < j < r@.len() ==> #[trigger] r@[i]@ != #[trigger] r@[j]@,
    {
        proof { use_type_invariant(self); }
        let mut r: Vec<String> = Vec::new();
        let mut i: usize = 0;
        while i < self.db.len()
            invariant
                unique_keys(self.db@),
                i <= self.db@.len(),
                r@.len() == i,
                forall|j: int| 0 <= j < i ==> #[trigger] r@[j]@ == self.db@[j].0@,
            decreases self.db@.len() - i,
        {
            r.push(self.db[i].0.clone());
            i = i + 1;
        }
        proof { lemma_keys_listed(self.db@, r@); }
        r
    }
}

/// The full keys of all entries in `cache`, each once.
pub fn list_keys(cache: &CacheStore) -> (r: Vec<String>)
    ensures
        r@.len() == cache@.len(),
        forall|k: Seq<char>| cache@.contains_key(k) <==> exists|i: int| 0 <= i < r@.len() && #[trigger] r@[i]@ == k,
        forall|i: int, j: int| 0 <= i < j < r@.len() ==> #[trigger] r@[i]@ != #[trigger] r@[j]@,
{
    cache.list_keys()
}

proof fn lemma_keys_listed(s: Seq<(String, Vec<u8>)>, r: Seq<String>)
    requires
        unique_keys(s),
        r.len() == s.len(),
        forall|j: int| 0 <= j < s.len() ==> #[trigger] r[j]@ == s[j].0@,
    ensures
        entries_map(s).dom().finite(),
        r.len() == entries_map(s).len(),
        forall|k: Seq<char>| entries_map(s).contains_key(k) <==> exists|i: int| 0 <= i < r.len() && #[trigger] r[i]@ == k,
        forall|i: int, j: int| 0 <= i < j < r.len() ==> #[trigger] r[i]@ != #[trigger] r[j]@,
    decreases s.len(),
{
    assert forall|i: int, j: int| 0 <= i < j < r.len() implies #[trigger] r[i]@ != #[trigger] r[j]@ by {
        assert(s[i].0@ != s[j].0@);
    }
    if s.len() == 0 {
        assert(entries_map(s).dom() =~= Set::<Seq<char>>::empty());
    } else {
        let d = s.drop_last();
        let rd = r.drop_last();
        assert forall|a: int, b: int| 0 <= a < b < d.len() implies #[trigger] d[a].0@ != #[trigger] d[b].0@ by {
            assert(s[a].0@ != s[b].0@);
        }
        assert forall|j: int| 0 <= j < d.len() implies #[trigger] rd[j]@ == d[j].0@ by {
            assert(r[j]@ == s[j].0@);
        }
        lemma_keys_listed(d, rd);
        let last = s.last().0@;
        assert(!entries_map(d).contains_key(last)) by {
            assert forall|j: int| 0 <= j < d.len() implies #[trigger] d[j].0@ != last by {
                assert(s[j].0@ != s[s.len() - 1].0@);
            }
            lemma_entries_map_absent(d, last);
        }
        assert(r[r.len() - 1]@ == last);
        assert(entries_map(s).dom() =~= entries_map(d).dom().insert(last));
        assert(entries_map(s).len() == entries_map(d).len() + 1);
        assert forall|k: Seq<char>| entries_map(s).contains_key(k) <==> exists|i: int| 0 <= i < r.len() && #[trigger] r[i]@ == k by {
            if entries_map(s).contains_key(k) && k != last {
                assert(entries_map(d).contains_key(k));
                let i = choose|i: int| 0 <= i < rd.len() && #[trigger] rd[i]@ == k;
                assert(r[i]@ == k);
            }
            if exists|i: int| 0 <= i < r.len() && #[trigger] r[i]@ == k {
                let i = choose|i: int| 0 <= i < r.len() && #[trigger] r[i]@ == k;
                if i < r.len() - 1 {
                    assert(rd[i]@ == k);
                }
            }
        }
    }
}

} // verus!

verus! {

/// What a lookup found: a fresh entry (served as is), no entry (fetch and
/// store), or an entry past the timeout or unreadable (fetch and replace).
#[derive(Debug, Clone, Copy, PartialEq, Eq, Structural)]
pub enum CacheStatus {
    Get,
    Miss,
    Update,
}

/// The fields every cached value starts with: its creation time.
pub open spec fn stamp_fields(t: SystemTimeWrapper) -> Seq<FieldView> {
    seq![FieldView::U64(t.secs), FieldView::U64(t.nanos as u64)]
}

/// `b` begins with the creation time `t`, as every encoded value does.
pub open spec fn stamped(b: Seq<u8>, t: SystemTimeWrapper) -> bool {
    occurs_at(fields_bytes(stamp_fields(t)), b, 0)
}

/// The creation time at the start of an encoded value.
pub fn read_create_at(bytes: &Vec<u8>) -> (r: Option<SystemTimeWrapper>)
    ensures
        r matches Some(t) ==> t.wf() && stamped(bytes@, t),
        forall|t: SystemTimeWrapper| t.wf() && #[trigger] stamped(bytes@, t) ==> r == Some(t),
{
    let shape = vec![FieldKind::U64, FieldKind::U64];
    let ghost sh = seq![FieldKind::U64, FieldKind::U64];
    proof {
        assert(shape@ =~= sh);
        assert forall|t: SystemTimeWrapper| t.wf() && #[trigger] stamped(bytes@, t) implies
            encoded_at(stamp_fields(t), sh, bytes@, 0) by {
            assert(has_shape(stamp_fields(t), sh)) by {
                assert forall|i: int| 0 <= i < stamp_fields(t).len() implies
                    #[trigger] kind_of(stamp_fields(t)[i]) == sh[i] by {}
            }
        }
    }
    let (fs, _end) = match decode_fields(bytes, 0, &shape) {
        Some(d) => d,
        None => return None,
    };
    proof {
        assert(field_views(fs@)[0] == fs@[0]@);
        assert(field_views(fs@)[1] == fs@[1]@);
    }
    let secs = field_u64(&fs[0]);
    let nanos = field_u64(&fs[1]);
    if nanos >= NANOS_PER_SEC as u64 {
        return None;
    }
    let t = SystemTimeWrapper { secs, nanos: nanos as u32 };
    assert(field_views(fs@) =~= stamp_fields(t));
    Some(t)
}

/// The answer of a lookup.
#[derive(Debug)]
pub enum CacheLookup {
    /// A fresh entry, to be served as is.
    Get(Vec<u8>),
    /// No entry: fetch, then store.
    Miss,
    /// A stale or unreadable entry: fetch, then replace it.
    Update,
}

impl CacheStore {
    /// Looks up `kind` and `key` and decides, from the creation time at the
    /// start of the stored bytes, whether the entry can be served at `now`
    /// or must be fetched anew. An entry is stale when more than
    /// `timeout_secs` seconds separate its creation from `now`; an entry
    /// whose creation time cannot be read is replaced too.
    pub fn lookup(&self, kind: CacheKind, key: &str, now: SystemTimeWrapper, timeout_secs: u64) -> (r: CacheLookup)
        ensures
            !self@.contains_key(full_key(kind, key@)) <==> r is Miss,
            r matches CacheLookup::Get(b) ==> b@ == self@[full_key(kind, key@)] && exists|t: SystemTimeWrapper|
                t.wf() && #[trigger] stamped(b@, t) && !t.older_than_spec(now, timeout_secs),
            forall|t: SystemTimeWrapper|
                t.wf() && self@.contains_key(full_key(kind, key@)) && #[trigger] stamped(self@[full_key(kind, key@)], t)
                ==> (r is Update <==> t.older_than_spec(now, timeout_secs)),
    {
        match self.get(kind, key) {
            None => CacheLookup::Miss,
            Some(bytes) => match read_create_at(&bytes) {
                Some(t) => {
                    if t.older_than(now, timeout_secs) {
                        CacheLookup::Update
                    } else {
                        CacheLookup::Get(bytes)
                    }
                },
                None => CacheLookup::Update,
            },
        }
    }
}

/// `kind`'s tag and another kind's tag never give the same full key for
/// one user key.
pub proof fn lemma_kinds_isolated(a: CacheKind, b: CacheKind, key: Seq<char>)
    requires
        a != b,
    ensures
        full_key(a, key) != full_key(b, key),
{
    reveal_strlit("UserGithubStats");
    reveal_strlit("TopLangs");
    assert(full_key(a, key).len() != full_key(b, key).len());
}

/// Storing an entry of one kind leaves the entry of any other kind for the
/// same user key as it was: what a lookup of that kind sees is unchanged.
pub proof fn lemma_store_isolated(
    m: Map<Seq<char>, Seq<u8>>,
    a: CacheKind,
    b: CacheKind,
    key: Seq<char>,
    bytes: Seq<u8>,
)
    requires
        a != b,
    ensures
        m.insert(full_key(a, key), bytes).contains_key(full_key(b, key)) == m.contains_key(full_key(b, key)),
        m.insert(full_key(a, key), bytes)[full_key(b, key)] == m[full_key(b, key)],
{
    lemma_kinds_isolated(a, b, key);
}

} // verus!

verus! {

pub open spec fn stats_result_view(r: Result<UserGithubStats, CacheStatus>) -> Result<UserGithubStatsView, CacheStatus> {
    match r {
        Ok(s) => Ok(s@),
        Err(e) => Err(e),
    }
}

pub open spec fn langs_result_view(r: Result<TopLangs, CacheStatus>) -> Result<TopLangsView, CacheStatus> {
    match r {
        Ok(t) => Ok(t@),
        Err(e) => Err(e),
    }
}

/// What a lookup of stats for `key` in `m` at `now` answers: a fetch when
/// nothing is stored; for stored stats, those stats while fresh and a
/// refresh once stale; a refresh as well for stored bytes that begin with
/// no stats encoding. Stats come back only from bytes that begin with
/// their encoding.
pub open spec fn stats_lookup_ok(
    m: Map<Seq<char>, Seq<u8>>,
    key: Seq<char>,
    now: SystemTimeWrapper,
    timeout_secs: u64,
    r: Result<UserGithubStatsView, CacheStatus>,
) -> bool {
    let fk = full_key(CacheKind::UserGithubStats, key);
    &&& !m.contains_key(fk) <==> r == Err::<UserGithubStatsView, CacheStatus>(CacheStatus::Miss)
    &&& r != Err::<UserGithubStatsView, CacheStatus>(CacheStatus::Get)
    &&& r matches Ok(s) ==> s.wf() && m.contains_key(fk) && occurs_at(stats_bytes(s), m[fk], 0)
        && !s.create_at.older_than_spec(now, timeout_secs)
    &&& forall|v: UserGithubStatsView| v.wf() && m.contains_key(fk) && #[trigger] occurs_at(stats_bytes(v), m[fk], 0) ==>
        r == if v.create_at.older_than_spec(now, timeout_secs) {
            Err::<UserGithubStatsView, CacheStatus>(CacheStatus::Update)
        } else {
            Ok::<UserGithubStatsView, CacheStatus>(v)
        }
}

/// What a lookup of languages for `key` in `m` at `now` answers, as for
/// stats.
pub open spec fn langs_lookup_ok(
    m: Map<Seq<char>, Seq<u8>>,
    key: Seq<char>,
    now: SystemTimeWrapper,
    timeout_secs: u64,
    r: Result<TopLangsView, CacheStatus>,
) -> bool {
    let fk = full_key(CacheKind::TopLangs, key);
    &&& !m.contains_key(fk) <==> r == Err::<TopLangsView, CacheStatus>(CacheStatus::Miss)
    &&& r != Err::<TopLangsView, CacheStatus>(CacheStatus::Get)
    &&& r matches Ok(t) ==> t.wf() && m.contains_key(fk) && occurs_at(top_langs_bytes(t), m[fk], 0)
        && !t.create_at.older_than_spec(now, timeout_secs)
    &&& forall|v: TopLangsView| v.wf() && m.contains_key(fk) && #[trigger] occurs_at(top_langs_bytes(v), m[fk], 0) ==>
        r == if v.create_at.older_than_spec(now, timeout_secs) {
            Err::<TopLangsView, CacheStatus>(CacheStatus::Update)
        } else {
            Ok::<TopLangsView, CacheStatus>(v)
        }
}

impl CacheStore {
    /// The stats cached for `key` when fresh at `now`; otherwise whether
    /// they must be fetched and stored (`Miss`) or fetched and replaced
    /// (`Update`, also for an unreadable entry).
    pub fn cached_stats(&self, key: &str, now: SystemTimeWrapper, timeout_secs: u64) -> (r: Result<UserGithubStats, CacheStatus>)
        ensures
            stats_lookup_ok(self@, key@, now, timeout_secs, stats_result_view(r)),
    {
        match self.get(CacheKind::UserGithubStats, key) {
            None => Err(CacheStatus::Miss),
            Some(bytes) => match UserGithubStats::decode(&bytes) {
                Some(s) => if s.create_at.older_than(now, timeout_secs) {
                    Err(CacheStatus::Update)
                } else {
                    Ok(s)
                },
                None => Err(CacheStatus::Update),
            },
        }
    }

    /// Caches `stats` for `key`, replacing any earlier stats for it.
    pub fn store_stats(&mut self, key: &str, stats: &UserGithubStats)
        ensures
            final(self)@ == old(self)@.insert(full_key(CacheKind::UserGithubStats, key@), stats_bytes(stats@)),
    {
        let bytes = stats.encode();
        self.set(CacheKind::UserGithubStats, key, bytes);
    }

    /// The languages cached for `key` when fresh at `now`; otherwise whether
    /// they must be fetched and stored (`Miss`) or fetched and replaced
    /// (`Update`, also for an unreadable entry).
    pub fn cached_langs(&self, key: &str, now: SystemTimeWrapper, timeout_secs: u64) -> (r: Result<TopLangs, CacheStatus>)
        ensures
            langs_lookup_ok(self@, key@, now, timeout_secs, langs_result_view(r)),
    {
        match self.get(CacheKind::TopLangs, key) {
            None => Err(CacheStatus::Miss),
            Some(bytes) => match TopLangs::decode(&bytes) {
                Some(t) => if t.created().older_than(now, timeout_secs) {
                    Err(CacheStatus::Update)
                } else {
                    Ok(t)
                },
                None => Err(CacheStatus::Update),
            },
        }
    }

    /// Caches `langs` for `key`, replacing any earlier languages for it.
    pub fn store_langs(&mut self, key: &str, langs: &TopLangs)
        ensures
            final(self)@ == old(self)@.insert(full_key(CacheKind::TopLangs, key@), top_langs_bytes(langs@)),
    {
        let bytes = langs.encode();
        self.set(CacheKind::TopLangs, key, bytes);
    }
}

/// Two lookups of the same stats with a store in between fetch once: the
/// first, on a key never stored, asks for a fetch; the second is served the
/// stored stats while they are fresh, and asks for a refresh once the
/// timeout has passed.
pub proof fn lemma_stats_fetched_once(
    m: Map<Seq<char>, Seq<u8>>,
    key: Seq<char>,
    v: UserGithubStatsView,
    first_at: SystemTimeWrapper,
    second_at: SystemTimeWrapper,
    timeout_secs: u64,
    first: Result<UserGithubStatsView, CacheStatus>,
    second: Result<UserGithubStatsView, CacheStatus>,
)
    requires
        v.wf(),
        !m.contains_key(full_key(CacheKind::UserGithubStats, key)),
        stats_lookup_ok(m, key, first_at, timeout_secs, first),
        stats_lookup_ok(
            m.insert(full_key(CacheKind::UserGithubStats, key), stats_bytes(v)),
            key,
            second_at,
            timeout_secs,
            second,
        ),
    ensures
        first == Err::<UserGithubStatsView, CacheStatus>(CacheStatus::Miss),
        !v.create_at.older_than_spec(second_at, timeout_secs) ==> second == Ok::<UserGithubStatsView, CacheStatus>(v),
        v.create_at.older_than_spec(second_at, timeout_secs) ==> second == Err::<UserGithubStatsView, CacheStatus>(CacheStatus::Update),
{
    let m2 = m.insert(full_key(CacheKind::UserGithubStats, key), stats_bytes(v));
    assert(m2[full_key(CacheKind::UserGithubStats, key)] == stats_bytes(v));
    assert(stats_bytes(v).subrange(0, stats_bytes(v).len() as int) =~= stats_bytes(v));
    assert(occurs_at(stats_bytes(v), m2[full_key(CacheKind::UserGithubStats, key)], 0));
}

/// The same for languages: a first lookup on a key never stored asks for a
/// fetch; after a store, the stored languages are served while fresh and a
/// refresh is asked for once the timeout has passed.
pub proof fn lemma_langs_fetched_once(
    m: Map<Seq<char>, Seq<u8>>,
    key: Seq<char>,
    v: TopLangsView,
    first_at: SystemTimeWrapper,
    second_at: SystemTimeWrapper,
    timeout_secs: u64,
    first: Result<TopLangsView, CacheStatus>,
    second: Result<TopLangsView, CacheStatus>,
)
    requires
        v.wf(),
        !m.contains_key(full_key(CacheKind::TopLangs, key)),
        langs_lookup_ok(m, key, first_at, timeout_secs, first),
        langs_lookup_ok(
            m.insert(full_key(CacheKind::TopLangs, key), top_langs_bytes(v)),
            key,
            second_at,
            timeout_secs,
            second,
        ),
    ensures
        first == Err::<TopLangsView, CacheStatus>(CacheStatus::Miss),
        !v.create_at.older_than_spec(second_at, timeout_secs) ==> second == Ok::<TopLangsView, CacheStatus>(v),
        v.create_at.older_than_spec(second_at, timeout_secs) ==> second == Err::<TopLangsView, CacheStatus>(CacheStatus::Update),
{
    let m2 = m.insert(full_key(CacheKind::TopLangs, key), top_langs_bytes(v));
    assert(m2[full_key(CacheKind::TopLangs, key)] == top_langs_bytes(v));
    assert(top_langs_bytes(v).subrange(0, top_langs_bytes(v).len() as int) =~= top_langs_bytes(v));
    assert(occurs_at(top_langs_bytes(v), m2[full_key(CacheKind::TopLangs, key)], 0));
}

} // verus!
