//! The languages card: which languages it shows and how tall it is.

use vstd::prelude::*;

use crate::github::top_langs::{lang_views, Lang, LangView, TopLangs};

verus! {

broadcast use vstd::seq_lib::group_to_multiset_ensures;

/// The height of the languages card for `total_langs` lines.
pub fn calculate_normal_layout_height(total_langs: u16) -> (r: u16)
    requires
        45 + (total_langs + 1) * 40 <= u16::MAX,
    ensures
        r == 45 + (total_langs + 1) * 40,
{
    45 + (total_langs + 1) * 40
}

/// A character with the Unicode `White_Space` property.
pub open spec fn is_white_space(c: char) -> bool {
    let u = c as u32;
    ||| 0x09 <= u <= 0x0D
    ||| u == 0x20
    ||| u == 0x85
    ||| u == 0xA0
    ||| u == 0x1680
    ||| 0x2000 <= u <= 0x200A
    ||| u == 0x2028
    ||| u == 0x2029
    ||| u == 0x202F
    ||| u == 0x205F
    ||| u == 0x3000
}

/// `s` without its leading white space.
pub open spec fn trim_start(s: Seq<char>) -> Seq<char>
    decreases s.len(),
{
    if s.len() > 0 && is_white_space(s[0]) {
        trim_start(s.drop_first())
    } else {
        s
    }
}

/// `s` without its trailing white space.
pub open spec fn trim_end(s: Seq<char>) -> Seq<char>
    decreases s.len(),
{
    if s.len() > 0 && is_white_space(s.last()) {
        trim_end(s.drop_last())
    } else {
        s
    }
}

/// The text `s` with leading and trailing white space removed.
pub open spec fn trim_of(s: Seq<char>) -> Seq<char> {
    trim_end(trim_start(s))
}

/// An ASCII upper-case letter in lower case; any other character as is.
pub open spec fn lower_char(c: char) -> char {
    if 65 <= c as u32 <= 90 {
        ((c as u32 + 32) as u8) as char
    } else {
        c
    }
}

pub open spec fn lower_ascii(s: Seq<char>) -> Seq<char> {
    s.map_values(|c: char| lower_char(c))
}

/// The form a language name is compared in: trimmed, ASCII lower case.
pub open spec fn name_key(s: Seq<char>) -> Seq<char> {
    lower_ascii(trim_of(s))
}

/// Relies on `str::trim`: leading and trailing characters with the Unicode
/// `White_Space` property removed.
#[verifier::external_body]
fn trim_text(s: &str) -> (r: String)
    ensures
        r@ == trim_of(s@),
{
    s.trim().to_string()
}

/// Relies on `str::to_ascii_lowercase`: ASCII letters 'A' to 'Z' become
/// 'a' to 'z', every other character is kept.
#[verifier::external_body]
fn lowercase_ascii(s: &str) -> (r: String)
    ensures
        r@ == lower_ascii(s@),
{
    s.to_ascii_lowercase()
}

/// The comparison form of a language name.
pub fn language_key(name: &str) -> (r: String)
    ensures
        r@ == name_key(name@),
{
    let t = trim_text(name);
    lowercase_ascii(t.as_str())
}

/// The languages whose key is not among the hidden keys, in order.
pub open spec fn visible_langs(langs: Seq<LangView>, keys: Seq<Seq<char>>, hidden: Seq<Seq<char>>) -> Seq<LangView>
    decreases langs.len(),
{
    if langs.len() == 0 || keys.len() != langs.len() {
        Seq::empty()
    } else {
        let rest = visible_langs(langs.drop_last(), keys.drop_last(), hidden);
        if hidden.contains(keys.last()) {
            rest
        } else {
            rest.push(langs.last())
        }
    }
}

/// Sizes never increase along `s`.
pub open spec fn sorted_by_size(s: Seq<LangView>) -> bool {
    forall|i: int, j: int| 0 <= i < j < s.len() ==> #[trigger] s[i].size >= #[trigger] s[j].size
}

/// How many languages the card shows for a requested count: between 1 and
/// 10.
pub open spec fn shown_count(langs_count: u8) -> int {
    if langs_count < 1 {
        1
    } else if langs_count > 10 {
        10
    } else {
        langs_count as int
    }
}

/// `r` holds the `count` largest of `visible` (all of them when there are
/// fewer), largest first.
pub open spec fn largest_first(r: Seq<LangView>, visible: Seq<LangView>, count: int) -> bool {
    &&& r.len() == if visible.len() < count { visible.len() as int } else { count }
    &&& sorted_by_size(r)
    &&& exists|rest: Seq<LangView>| {
        &&& #[trigger] r.to_multiset().add(rest.to_multiset()) == visible.to_multiset()
        &&& forall|i: int, j: int| 0 <= i < rest.len() && 0 <= j < r.len() ==> #[trigger] rest[i].size <= #[trigger] r[j].size
    }
}

pub open spec fn text_views(s: Seq<String>) -> Seq<Seq<char>> {
    s.map_values(|x: String| x@)
}

fn contains_text(list: &Vec<String>, s: &String) -> (r: bool)
    ensures
        r == text_views(list@).contains(s@),
{
    let mut i: usize = 0;
    while i < list.len()
        invariant
            i <= list@.len(),
            forall|j: int| 0 <= j < i ==> #[trigger] list@[j]@ != s@,
        decreases list@.len() - i,
    {
        if list[i] == *s {
            proof {
                assert(text_views(list@)[i as int] == s@);
            }
            return true;
        }
        i = i + 1;
    }
    proof {
        assert forall|j: int| 0 <= j < list@.len() implies #[trigger] text_views(list@)[j] != s@ by {
            assert(list@[j]@ != s@);
        }
    }
    false
}

/// The languages to show: those whose key (`keys[i]` for `langs[i]`) is
/// not hidden, the largest first, at most `shown_count(langs_count)`.
pub fn pick_languages(langs: &Vec<Lang>, keys: &Vec<String>, hidden: &Vec<String>, langs_count: u8) -> (r: Vec<Lang>)
    requires
        keys@.len() == langs@.len(),
    ensures
        largest_first(
            lang_views(r@),
            visible_langs(lang_views(langs@), text_views(keys@), text_views(hidden@)),
            shown_count(langs_count),
        ),
{
    let count: usize = if langs_count < 1 { 1 } else if langs_count > 10 { 10 } else { langs_count as usize };
    let ghost lv = lang_views(langs@);
    let ghost kv = text_views(keys@);
    let ghost hv = text_views(hidden@);
    let mut remaining: Vec<Lang> = Vec::new();
    let mut i: usize = 0;
    proof {
        assert(lv.take(0) =~= Seq::<LangView>::empty());
        assert(lang_views(remaining@) =~= Seq::<LangView>::empty());
    }
    while i < langs.len()
        invariant
            i <= langs@.len(),
            keys@.len() == langs@.len(),
            lv == lang_views(langs@),
            kv == text_views(keys@),
            hv == text_views(hidden@),
            lang_views(remaining@) == visible_langs(lv.take(i as int), kv.take(i as int), hv),
        decreases langs@.len() - i,
    {
        proof {
            assert(lv.take(i + 1).drop_last() =~= lv.take(i as int));
            assert(kv.take(i + 1).drop_last() =~= kv.take(i as int));
            assert(lv.take(i + 1).last() == langs@[i as int]@);
            assert(kv.take(i + 1).last() == keys@[i as int]@);
        }
        if !contains_text(hidden, &keys[i]) {
            let l = langs[i].duplicate();
            let ghost before = remaining@;
            remaining.push(l);
            proof {
                assert(lang_views(remaining@) =~= lang_views(before).push(l@));
            }
        }
        i = i + 1;
    }
    proof {
        assert(lv.take(i as int) =~= lv);
        assert(kv.take(i as int) =~= kv);
    }
    let ghost visible = lang_views(remaining@);
    let mut result: Vec<Lang> = Vec::new();
    proof {
        assert(lang_views(result@) =~= Seq::<LangView>::empty());
        assert(lang_views(result@).to_multiset().add(lang_views(remaining@).to_multiset()) =~= visible.to_multiset());
    }
    while result.len() < count && remaining.len() > 0
        invariant
            1 <= count <= 10,
            result@.len() <= count,
            lang_views(result@).to_multiset().add(lang_views(remaining@).to_multiset()) == visible.to_multiset(),
            sorted_by_size(lang_views(result@)),
            forall|a: int, b: int| 0 <= a < remaining@.len() && 0 <= b < result@.len() ==>
                #[trigger] remaining@[a].size <= #[trigger] result@[b].size,
        decreases remaining@.len(),
    {
        let mut best: usize = 0;
        let mut j: usize = 1;
        while j < remaining.len()
            invariant
                remaining@.len() > 0,
                best < remaining@.len(),
                1 <= j <= remaining@.len(),
                forall|a: int| 0 <= a < j ==> #[trigger] remaining@[a].size <= remaining@[best as int].size,
            decreases remaining@.len() - j,
        {
            if remaining[j].size > remaining[best].size {
                best = j;
            }
            j = j + 1;
        }
        let ghost rv = lang_views(remaining@);
        let ghost resv = lang_views(result@);
        let x = remaining.remove(best);
        proof {
            assert(lang_views(remaining@) =~= rv.remove(best as int));
            assert(rv[best as int] == x@);
        }
        result.push(x);
        proof {
            assert(lang_views(result@) =~= resv.push(x@));
            assert(resv.push(x@).to_multiset().add(rv.remove(best as int).to_multiset())
                =~= resv.to_multiset().add(rv.to_multiset()));
            assert forall|a: int, b: int| 0 <= a < remaining@.len() && 0 <= b < result@.len() implies
                #[trigger] remaining@[a].size <= #[trigger] result@[b].size by {
                let a0 = if a < best { a } else { a + 1 };
                assert(remaining@[a]@ == rv[a0]);
                assert(rv[a0].size <= x.size);
            }
            assert forall|a: int, b: int| 0 <= a < b < lang_views(result@).len() implies
                #[trigger] lang_views(result@)[a].size >= #[trigger] lang_views(result@)[b].size by {
                if b == result@.len() - 1 {
                    assert(rv[best as int].size <= resv[a].size);
                }
            }
        }
    }
    proof {
        let rest = lang_views(remaining@);
        assert(lang_views(result@).to_multiset().add(rest.to_multiset()) == visible.to_multiset());
        assert(lang_views(result@).to_multiset().len() + rest.to_multiset().len() == visible.to_multiset().len());
        assert forall|a: int, b: int| 0 <= a < rest.len() && 0 <= b < lang_views(result@).len() implies
            #[trigger] rest[a].size <= #[trigger] lang_views(result@)[b].size by {
            assert(remaining@[a].size <= result@[b].size);
        }
    }
    result
}

} // verus!

verus! {

pub open spec fn lang_keys(langs: Seq<Lang>) -> Seq<Seq<char>> {
    langs.map_values(|l: Lang| name_key(l.name@))
}

pub open spec fn hidden_keys(names: Seq<String>) -> Seq<Seq<char>> {
    names.map_values(|h: String| name_key(h@))
}

/// The languages the card shows: those not named in `hidden_names` (names compared
/// trimmed and in ASCII lower case), the largest first, between 1 and 10 of
/// them as `langs_count` asks.
pub fn use_languages(top_langs: TopLangs, hidden_names: Vec<String>, langs_count: u8) -> (r: Vec<Lang>)
    ensures
        largest_first(
            lang_views(r@),
            visible_langs(top_langs.entries(), lang_keys(top_langs.langs_spec()), hidden_keys(hidden_names@)),
            shown_count(langs_count),
        ),
{
    let langs = top_langs.langs();
    let mut keys: Vec<String> = Vec::new();
    let mut i: usize = 0;
    while i < langs.len()
        invariant
            langs@ == top_langs.langs_spec(),
            i <= top_langs.langs_spec().len(),
            text_views(keys@) == lang_keys(top_langs.langs_spec()).take(i as int),
        decreases top_langs.langs_spec().len() - i,
    {
        let k = language_key(langs[i].name.as_str());
        let ghost before = keys@;
        keys.push(k);
        proof {
            assert(text_views(keys@) =~= text_views(before).push(k@));
            assert(lang_keys(top_langs.langs_spec()).take(i + 1) =~= lang_keys(top_langs.langs_spec()).take(i as int).push(k@));
        }
        i = i + 1;
    }
    let mut hidden: Vec<String> = Vec::new();
    let mut j: usize = 0;
    while j < hidden_names.len()
        invariant
            j <= hidden_names@.len(),
            text_views(hidden@) == hidden_keys(hidden_names@).take(j as int),
        decreases hidden_names@.len() - j,
    {
        let k = language_key(hidden_names[j].as_str());
        let ghost before = hidden@;
        hidden.push(k);
        proof {
            assert(text_views(hidden@) =~= text_views(before).push(k@));
            assert(hidden_keys(hidden_names@).take(j + 1) =~= hidden_keys(hidden_names@).take(j as int).push(k@));
        }
        j = j + 1;
    }
    proof {
        assert(lang_keys(top_langs.langs_spec()).take(i as int) =~= lang_keys(top_langs.langs_spec()));
        assert(hidden_keys(hidden_names@).take(j as int) =~= hidden_keys(hidden_names@));
    }
    pick_languages(langs, &keys, &hidden, langs_count)
}

} // verus!
