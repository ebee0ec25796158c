//! Binary encoding of cached values, built field by field on bincode's
//! standard configuration.
//!
//! A value is written as the concatenation of the encodings of its fields.
//! Reading walks the same fields in the same order; each step consumes the
//! bytes that bincode reports as read.

use vstd::prelude::*;

verus! {

/// The bytes bincode's standard configuration writes for a `u64`.
pub uninterp spec fn bincode_u64(v: u64) -> Seq<u8>;

/// The bytes bincode's standard configuration writes for an `i64`.
pub uninterp spec fn bincode_i64(v: i64) -> Seq<u8>;

/// The bytes bincode's standard configuration writes for a string.
pub uninterp spec fn bincode_str(s: Seq<char>) -> Seq<u8>;

/// `p` occurs in `b` starting at index `pos`.
pub open spec fn occurs_at(p: Seq<u8>, b: Seq<u8>, pos: int) -> bool {
    &&& 0 <= pos
    &&& pos + p.len() <= b.len()
    &&& b.subrange(pos, pos + p.len()) == p
}

/// Relies on `bincode::encode_to_vec` with `config::standard()`: the bytes
/// depend on the value alone, and writing a `u64` into a `Vec` cannot fail,
/// so the error arm never runs.
#[verifier::external_body]
pub fn encode_u64(v: u64) -> (r: Vec<u8>)
    ensures
        r@ == bincode_u64(v),
{
    match bincode::encode_to_vec(v, bincode::config::standard()) {
        Ok(bytes) => bytes,
        Err(_) => Vec::new(),
    }
}

/// Relies on `bincode::encode_to_vec` with `config::standard()`: the bytes
/// depend on the value alone, and writing an `i64` into a `Vec` cannot fail,
/// so the error arm never runs.
#[verifier::external_body]
pub fn encode_i64(v: i64) -> (r: Vec<u8>)
    ensures
        r@ == bincode_i64(v),
{
    match bincode::encode_to_vec(v, bincode::config::standard()) {
        Ok(bytes) => bytes,
        Err(_) => Vec::new(),
    }
}

/// Relies on `bincode::encode_to_vec` with `config::standard()`: the bytes
/// depend on the characters alone, and writing a `String` into a `Vec`
/// cannot fail, so the error arm never runs.
#[verifier::external_body]
pub fn encode_str(s: &String) -> (r: Vec<u8>)
    ensures
        r@ == bincode_str(s@),
{
    match bincode::encode_to_vec(s, bincode::config::standard()) {
        Ok(bytes) => bytes,
        Err(_) => Vec::new(),
    }
}

/// Relies on `bincode::decode_from_slice` with `config::standard()` on the
/// bytes from `pos` on: what `encode_u64` wrote is read back, with the
/// number of bytes it took; the count never exceeds what was available.
#[verifier::external_body]
pub fn decode_u64(bytes: &Vec<u8>, pos: usize) -> (r: Option<(u64, usize)>)
    requires
        pos <= bytes@.len(),
    ensures
        forall|v: u64| #[trigger] occurs_at(bincode_u64(v), bytes@, pos as int)
            ==> r.is_some() && r.unwrap().0 == v && r.unwrap().1 == bincode_u64(v).len(),
        r matches Some((_, n)) ==> pos + n <= bytes@.len(),
{
    bincode::decode_from_slice::<u64, _>(&bytes[pos..], bincode::config::standard()).ok()
}

/// Relies on `bincode::decode_from_slice` with `config::standard()` on the
/// bytes from `pos` on: what `encode_i64` wrote is read back, with the
/// number of bytes it took; the count never exceeds what was available.
#[verifier::external_body]
pub fn decode_i64(bytes: &Vec<u8>, pos: usize) -> (r: Option<(i64, usize)>)
    requires
        pos <= bytes@.len(),
    ensures
        forall|v: i64| #[trigger] occurs_at(bincode_i64(v), bytes@, pos as int)
            ==> r.is_some() && r.unwrap().0 == v && r.unwrap().1 == bincode_i64(v).len(),
        r matches Some((_, n)) ==> pos + n <= bytes@.len(),
{
    bincode::decode_from_slice::<i64, _>(&bytes[pos..], bincode::config::standard()).ok()
}

/// Relies on `bincode::borrow_decode_from_slice` with `config::standard()`
/// on the bytes from `pos` on, as a `&str`: what `encode_str` wrote is read
/// back, with the number of bytes it took; a length beyond the bytes
/// available is an error, never an allocation, and the count never exceeds
/// what was available.
#[verifier::external_body]
pub fn decode_str(bytes: &Vec<u8>, pos: usize) -> (r: Option<(String, usize)>)
    requires
        pos <= bytes@.len(),
    ensures
        forall|s: Seq<char>| #[trigger] occurs_at(bincode_str(s), bytes@, pos as int)
            ==> r.is_some() && r.unwrap().0@ == s && r.unwrap().1 == bincode_str(s).len(),
        r matches Some((_, n)) ==> pos + n <= bytes@.len(),
{
    bincode::borrow_decode_from_slice::<&str, _>(&bytes[pos..], bincode::config::standard())
        .ok()
        .map(|(s, n)| (s.to_string(), n))
}

} // verus!

verus! {

/// The type of one encoded field.
#[derive(Debug, Clone, Copy, PartialEq, Eq, Structural)]
pub enum FieldKind {
    U64,
    I64,
    Str,
}

/// One field of an encoded value.
#[derive(Debug)]
pub enum Field {
    U64(u64),
    I64(i64),
    Str(String),
}

/// What a `Field` holds.
pub enum FieldView {
    U64(u64),
    I64(i64),
    Str(Seq<char>),
}

impl View for Field {
    type V = FieldView;

    open spec fn view(&self) -> FieldView {
        match self {
            Field::U64(v) => FieldView::U64(*v),
            Field::I64(v) => FieldView::I64(*v),
            Field::Str(s) => FieldView::Str(s@),
        }
    }
}

pub open spec fn kind_of(f: FieldView) -> FieldKind {
    match f {
        FieldView::U64(_) => FieldKind::U64,
        FieldView::I64(_) => FieldKind::I64,
        FieldView::Str(_) => FieldKind::Str,
    }
}

pub open spec fn field_bytes(f: FieldView) -> Seq<u8> {
    match f {
        FieldView::U64(v) => bincode_u64(v),
        FieldView::I64(v) => bincode_i64(v),
        FieldView::Str(s) => bincode_str(s),
    }
}

/// The encoding of a list of fields: their encodings one after the other.
pub open spec fn fields_bytes(fs: Seq<FieldView>) -> Seq<u8>
    decreases fs.len(),
{
    if fs.len() == 0 {
        Seq::empty()
    } else {
        fields_bytes(fs.drop_last()) + field_bytes(fs.last())
    }
}

pub open spec fn field_views(fs: Seq<Field>) -> Seq<FieldView> {
    fs.map_values(|f: Field| f@)
}

/// `fs` has the kinds listed in `shape`.
pub open spec fn has_shape(fs: Seq<FieldView>, shape: Seq<FieldKind>) -> bool {
    &&& fs.len() == shape.len()
    &&& forall|i: int| 0 <= i < fs.len() ==> #[trigger] kind_of(fs[i]) == shape[i]
}

/// The fields `fs`, of kinds `shape`, are encoded in `b` from index `pos` on.
pub open spec fn encoded_at(fs: Seq<FieldView>, shape: Seq<FieldKind>, b: Seq<u8>, pos: int) -> bool {
    has_shape(fs, shape) && occurs_at(fields_bytes(fs), b, pos)
}

pub proof fn lemma_fields_bytes_concat(a: Seq<FieldView>, b: Seq<FieldView>)
    ensures
        fields_bytes(a + b) == fields_bytes(a) + fields_bytes(b),
    decreases b.len(),
{
    if b.len() == 0 {
        assert(a + b =~= a);
        assert(fields_bytes(a) + fields_bytes(b) =~= fields_bytes(a));
    } else {
        lemma_fields_bytes_concat(a, b.drop_last());
        assert((a + b).drop_last() =~= a + b.drop_last());
        assert((a + b).last() == b.last());
        assert(fields_bytes(a) + fields_bytes(b.drop_last()) + field_bytes(b.last())
            =~= fields_bytes(a) + (fields_bytes(b.drop_last()) + field_bytes(b.last())));
    }
}

proof fn lemma_split_at(fs: Seq<FieldView>, i: int)
    requires
        0 <= i < fs.len(),
    ensures
        fields_bytes(fs) == fields_bytes(fs.take(i)) + field_bytes(fs[i]) + fields_bytes(fs.skip(i + 1)),
        fields_bytes(fs.take(i + 1)) == fields_bytes(fs.take(i)) + field_bytes(fs[i]),
{
    assert(fs.take(i + 1).drop_last() =~= fs.take(i));
    assert(fs =~= fs.take(i + 1) + fs.skip(i + 1));
    lemma_fields_bytes_concat(fs.take(i + 1), fs.skip(i + 1));
}

proof fn lemma_field_occurs(fs: Seq<FieldView>, shape: Seq<FieldKind>, b: Seq<u8>, pos: int, i: int)
    requires
        encoded_at(fs, shape, b, pos),
        0 <= i < fs.len(),
    ensures
        occurs_at(field_bytes(fs[i]), b, pos + fields_bytes(fs.take(i)).len()),
        fields_bytes(fs.take(i + 1)).len() == fields_bytes(fs.take(i)).len() + field_bytes(fs[i]).len(),
{
    lemma_split_at(fs, i);
    let pre = fields_bytes(fs.take(i));
    let mid = field_bytes(fs[i]);
    let post = fields_bytes(fs.skip(i + 1));
    let whole = fields_bytes(fs);
    assert(whole == pre + mid + post);
    assert(whole.len() == pre.len() + mid.len() + post.len());
    assert(b.subrange(pos, pos + whole.len()) == pre + mid + post);
    assert(b.subrange(pos + pre.len(), pos + pre.len() + mid.len())
        =~= b.subrange(pos, pos + whole.len()).subrange(pre.len() as int, (pre.len() + mid.len()) as int));
    assert((pre + mid + post).subrange(pre.len() as int, (pre.len() + mid.len()) as int) =~= mid);
    assert(b.subrange(pos + pre.len(), pos + pre.len() + mid.len())
        =~= (pre + mid + post).subrange(pre.len() as int, (pre.len() + mid.len()) as int));
}

/// Encodes `fields` one after the other.
pub fn encode_fields(fields: &Vec<Field>) -> (r: Vec<u8>)
    ensures
        r@ == fields_bytes(field_views(fields@)),
{
    let mut out: Vec<u8> = Vec::new();
    let mut i: usize = 0;
    while i < fields.len()
        invariant
            i <= fields@.len(),
            out@ == fields_bytes(field_views(fields@.take(i as int))),
        decreases fields@.len() - i,
    {
        let mut part = match &fields[i] {
            Field::U64(v) => encode_u64(*v),
            Field::I64(v) => encode_i64(*v),
            Field::Str(s) => encode_str(s),
        };
        proof {
            let next = field_views(fields@.take(i + 1));
            assert(next.drop_last() =~= field_views(fields@.take(i as int)));
            assert(next.last() == fields@[i as int]@);
        }
        out.append(&mut part);
        i = i + 1;
    }
    proof {
        assert(fields@.take(fields@.len() as int) =~= fields@);
    }
    out
}

/// Reads one field of kind `kind` from `bytes` at `pos`, with the number of
/// bytes it took.
fn read_field(bytes: &Vec<u8>, pos: usize, kind: FieldKind) -> (r: Option<(Field, usize)>)
    requires
        pos <= bytes@.len(),
    ensures
        r matches Some((f, n)) ==> pos + n <= bytes@.len() && kind_of(f@) == kind,
        forall|f: FieldView| kind_of(f) == kind && #[trigger] occurs_at(field_bytes(f), bytes@, pos as int) ==> {
            &&& r matches Some((g, n))
            &&& g@ == f
            &&& n == field_bytes(f).len()
        },
{
    match kind {
        FieldKind::U64 => {
            let r = match decode_u64(bytes, pos) {
                Some((v, n)) => Some((Field::U64(v), n)),
                None => None,
            };
            proof {
                assert forall|f: FieldView| kind_of(f) == kind && #[trigger] occurs_at(field_bytes(f), bytes@, pos as int)
                    implies (r matches Some((g, n)) && g@ == f && n == field_bytes(f).len()) by {
                    if let FieldView::U64(v) = f {
                        assert(occurs_at(bincode_u64(v), bytes@, pos as int));
                    }
                }
            }
            r
        },
        FieldKind::I64 => {
            let r = match decode_i64(bytes, pos) {
                Some((v, n)) => Some((Field::I64(v), n)),
                None => None,
            };
            proof {
                assert forall|f: FieldView| kind_of(f) == kind && #[trigger] occurs_at(field_bytes(f), bytes@, pos as int)
                    implies (r matches Some((g, n)) && g@ == f && n == field_bytes(f).len()) by {
                    if let FieldView::I64(v) = f {
                        assert(occurs_at(bincode_i64(v), bytes@, pos as int));
                    }
                }
            }
            r
        },
        FieldKind::Str => {
            let r = match decode_str(bytes, pos) {
                Some((s, n)) => Some((Field::Str(s), n)),
                None => None,
            };
            proof {
                assert forall|f: FieldView| kind_of(f) == kind && #[trigger] occurs_at(field_bytes(f), bytes@, pos as int)
                    implies (r matches Some((g, n)) && g@ == f && n == field_bytes(f).len()) by {
                    if let FieldView::Str(t) = f {
                        assert(occurs_at(bincode_str(t), bytes@, pos as int));
                    }
                }
            }
            r
        },
    }
}

/// Whether `expected` occurs in `bytes` starting at `pos`.
pub fn bytes_match(bytes: &Vec<u8>, pos: usize, expected: &Vec<u8>) -> (r: bool)
    requires
        pos <= bytes@.len(),
    ensures
        r == occurs_at(expected@, bytes@, pos as int),
{
    let total = bytes.len();
    if expected.len() > total - pos {
        return false;
    }
    let mut i: usize = 0;
    while i < expected.len()
        invariant
            total == bytes@.len(),
            pos + expected@.len() <= bytes@.len(),
            i <= expected@.len(),
            forall|j: int| 0 <= j < i ==> bytes@[pos + j] == #[trigger] expected@[j],
        decreases expected@.len() - i,
    {
        if bytes[pos + i] != expected[i] {
            proof {
                assert(bytes@.subrange(pos as int, pos + expected@.len())[i as int] != expected@[i as int]);
            }
            return false;
        }
        i = i + 1;
    }
    proof {
        assert(bytes@.subrange(pos as int, pos + expected@.len()) =~= expected@);
    }
    true
}

/// Two encodings found one right after the other form the encoding of
/// their concatenation.
pub proof fn lemma_occurs_concat(a: Seq<u8>, c: Seq<u8>, b: Seq<u8>, pos: int)
    requires
        occurs_at(a, b, pos),
        occurs_at(c, b, pos + a.len()),
    ensures
        occurs_at(a + c, b, pos),
{
    assert(b.subrange(pos, pos + (a + c).len()) =~= a + c) by {
        assert forall|j: int| 0 <= j < (a + c).len() implies b.subrange(pos, pos + (a + c).len())[j] == (a + c)[j] by {
            if j < a.len() {
                assert(b.subrange(pos, pos + a.len())[j] == a[j]);
            } else {
                assert(b.subrange(pos + a.len(), pos + a.len() + c.len())[j - a.len()] == c[j - a.len()]);
            }
        }
    }
}

/// Reads one field of kind `kind` from `bytes` at `pos`, with the number of
/// bytes it took. A field comes back only when its encoding is exactly the
/// bytes read, and every field encoded at `pos` comes back.
pub fn decode_field(bytes: &Vec<u8>, pos: usize, kind: FieldKind) -> (r: Option<(Field, usize)>)
    requires
        pos <= bytes@.len(),
    ensures
        r matches Some((f, n)) ==> kind_of(f@) == kind && occurs_at(field_bytes(f@), bytes@, pos as int)
            && n == field_bytes(f@).len(),
        forall|f: FieldView| kind_of(f) == kind && #[trigger] occurs_at(field_bytes(f), bytes@, pos as int) ==> {
            &&& r matches Some((g, n))
            &&& g@ == f
            &&& n == field_bytes(f).len()
        },
{
    match read_field(bytes, pos, kind) {
        None => None,
        Some((f, n)) => {
            let written = match &f {
                Field::U64(v) => encode_u64(*v),
                Field::I64(v) => encode_i64(*v),
                Field::Str(s) => encode_str(s),
            };
            assert(written@ == field_bytes(f@));
            if written.len() == n && bytes_match(bytes, pos, &written) {
                Some((f, n))
            } else {
                None
            }
        },
    }
}

/// Reads fields of the kinds in `shape` from `bytes`, starting at `pos`.
/// Returns them with the index just past the last one read.
///
/// Whenever fields of those kinds were encoded at `pos`, exactly those
/// fields come back.
pub fn decode_fields(bytes: &Vec<u8>, pos: usize, shape: &Vec<FieldKind>) -> (r: Option<(Vec<Field>, usize)>)
    requires
        pos <= bytes@.len(),
    ensures
        r matches Some((fs, end)) ==> pos <= end <= bytes@.len() && has_shape(field_views(fs@), shape@)
            && occurs_at(fields_bytes(field_views(fs@)), bytes@, pos as int)
            && end == pos + fields_bytes(field_views(fs@)).len(),
        forall|fs: Seq<FieldView>| #[trigger] encoded_at(fs, shape@, bytes@, pos as int) ==> {
            &&& r matches Some((out, end))
            &&& field_views(out@) == fs
            &&& end == pos + fields_bytes(fs).len()
        },
{
    let total: usize = bytes.len();
    let mut out: Vec<Field> = Vec::new();
    let mut cur: usize = pos;
    let mut i: usize = 0;
    proof {
        assert(field_views(out@) =~= Seq::<FieldView>::empty());
        assert(bytes@.subrange(pos as int, pos as int) =~= Seq::<u8>::empty());
    }
    while i < shape.len()
        invariant
            i <= shape@.len(),
            total == bytes@.len(),
            pos <= cur <= bytes@.len(),
            out@.len() == i,
            has_shape(field_views(out@), shape@.take(i as int)),
            occurs_at(fields_bytes(field_views(out@)), bytes@, pos as int),
            cur == pos + fields_bytes(field_views(out@)).len(),
            forall|fs: Seq<FieldView>| #[trigger] encoded_at(fs, shape@, bytes@, pos as int) ==> {
                &&& field_views(out@) == fs.take(i as int)
                &&& cur == pos + fields_bytes(fs.take(i as int)).len()
            },
        decreases shape@.len() - i,
    {
        proof {
            assert forall|fs: Seq<FieldView>| #[trigger] encoded_at(fs, shape@, bytes@, pos as int) implies
                occurs_at(field_bytes(fs[i as int]), bytes@, cur as int) by {
                lemma_field_occurs(fs, shape@, bytes@, pos as int, i as int);
            }
        }
        let step = decode_field(bytes, cur, shape[i]);
        proof {
            assert forall|fs: Seq<FieldView>| #[trigger] encoded_at(fs, shape@, bytes@, pos as int) implies
                (step matches Some((f, n)) && f@ == fs[i as int] && n == field_bytes(fs[i as int]).len()) by {
                lemma_field_occurs(fs, shape@, bytes@, pos as int, i as int);
                assert(kind_of(fs[i as int]) == shape@[i as int]);
            }
        }
        match step {
            Some((f, n)) => {
                proof {
                    let ghost old_out = out@;
                    assert(field_views(old_out.push(f)) =~= field_views(old_out).push(f@));
                    assert(field_views(old_out).push(f@).drop_last() =~= field_views(old_out));
                    lemma_occurs_concat(fields_bytes(field_views(old_out)), field_bytes(f@), bytes@, pos as int);
                    assert(shape@.take(i + 1) =~= shape@.take(i as int).push(shape@[i as int]));
                    assert forall|fs: Seq<FieldView>| #[trigger] encoded_at(fs, shape@, bytes@, pos as int) implies
                        field_views(old_out).push(f@) == fs.take(i + 1)
                        && cur + n == pos + fields_bytes(fs.take(i + 1)).len() by {
                        lemma_field_occurs(fs, shape@, bytes@, pos as int, i as int);
                        assert(fs.take(i + 1) =~= fs.take(i as int).push(fs[i as int]));
                    }
                }
                assert(cur + n <= bytes@.len());
                out.push(f);
                cur = cur + n;
                i = i + 1;
            },
            None => {
                return None;
            },
        }
    }
    proof {
        assert(shape@.take(i as int) =~= shape@);
        assert forall|fs: Seq<FieldView>| #[trigger] encoded_at(fs, shape@, bytes@, pos as int) implies
            fs.take(i as int) == fs by {
            assert(fs.take(i as int) =~= fs);
        }
    }
    Some((out, cur))
}

} // verus!

verus! {

/// The integer held by a field known to be a `u64`.
pub fn field_u64(f: &Field) -> (r: u64)
    requires
        kind_of(f@) == FieldKind::U64,
    ensures
        f@ == FieldView::U64(r),
{
    match f {
        Field::U64(v) => *v,
        Field::I64(_) => 0,
        Field::Str(_) => 0,
    }
}

/// The integer held by a field known to be an `i64`.
pub fn field_i64(f: &Field) -> (r: i64)
    requires
        kind_of(f@) == FieldKind::I64,
    ensures
        f@ == FieldView::I64(r),
{
    match f {
        Field::I64(v) => *v,
        Field::U64(_) => 0,
        Field::Str(_) => 0,
    }
}

/// A copy of the string held by a field known to be a string.
pub fn field_str(f: &Field) -> (r: String)
    requires
        kind_of(f@) == FieldKind::Str,
    ensures
        f@ == FieldView::Str(r@),
{
    match f {
        Field::Str(s) => s.clone(),
        Field::U64(_) => String::new(),
        Field::I64(_) => String::new(),
    }
}

} // verus!

verus! {

/// Fields encoded between a prefix `p` and a suffix `r` sit right after the
/// prefix's encoding.
pub proof fn lemma_encoded_middle(p: Seq<FieldView>, fs: Seq<FieldView>, r: Seq<FieldView>, shape: Seq<FieldKind>)
    requires
        has_shape(fs, shape),
    ensures
        encoded_at(fs, shape, fields_bytes(p + fs + r), fields_bytes(p).len() as int),
{
    lemma_fields_bytes_concat(p + fs, r);
    lemma_fields_bytes_concat(p, fs);
    let b = fields_bytes(p + fs + r);
    let pl = fields_bytes(p).len() as int;
    let fl = fields_bytes(fs).len() as int;
    assert(b == fields_bytes(p) + fields_bytes(fs) + fields_bytes(r));
    assert(b.subrange(pl, pl + fl) =~= fields_bytes(fs));
}

/// An encoding found inside a part of `b` is found in `b` itself.
pub proof fn lemma_occurs_within(outer: Seq<u8>, b: Seq<u8>, pos: int, inner: Seq<u8>, off: int)
    requires
        occurs_at(outer, b, pos),
        occurs_at(inner, outer, off),
    ensures
        occurs_at(inner, b, pos + off),
{
    assert(b.subrange(pos + off, pos + off + inner.len())
        =~= b.subrange(pos, pos + outer.len()).subrange(off, off + inner.len()));
}

} // verus!
