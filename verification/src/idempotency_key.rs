//! The `Idempotency-Key` header: UTF-8 check, ASCII-whitespace trimming
//! and the length limit.

use vstd::prelude::*;
use vstd::string::StringSliceAdditionalSpecFns;
use vstd::utf8::*;

verus! {

/// Longest accepted key, in bytes, after trimming.
pub const MAX_KEY_BYTES: usize = 128;

/// The five bytes that `char::is_ascii_whitespace` accepts:
/// space, tab, line feed, form feed and carriage return.
pub open spec fn is_ascii_whitespace_byte(b: u8) -> bool {
    b == 0x20u8 || b == 0x09u8 || b == 0x0au8 || b == 0x0cu8 || b == 0x0du8
}

/// `b` without its leading ASCII whitespace.
pub open spec fn trim_leading(b: Seq<u8>) -> Seq<u8>
    decreases b.len(),
{
    if b.len() > 0 && is_ascii_whitespace_byte(b[0]) {
        trim_leading(b.drop_first())
    } else {
        b
    }
}

/// `b` without its trailing ASCII whitespace.
pub open spec fn trim_trailing(b: Seq<u8>) -> Seq<u8>
    decreases b.len(),
{
    if b.len() > 0 && is_ascii_whitespace_byte(b.last()) {
        trim_trailing(b.drop_last())
    } else {
        b
    }
}

/// `b` without ASCII whitespace at either end.
pub open spec fn trim_ascii_whitespace(b: Seq<u8>) -> Seq<u8> {
    trim_trailing(trim_leading(b))
}


/// Why a header could not serve as an idempotency key.
#[derive(Clone, Copy, Debug, PartialEq, Eq, Structural)]
pub enum KeyRejection {
    /// No header, or a header that is not UTF-8.
    Missing,
    /// Empty, or longer than `MAX_KEY_BYTES`, once trimmed.
    BadLength,
}

/// The key that a raw header value stands for, as UTF-8 bytes.
pub open spec fn key_outcome(raw: Option<Seq<u8>>) -> Result<Seq<u8>, KeyRejection> {
    match raw {
        None => Err(KeyRejection::Missing),
        Some(bytes) => if !valid_utf8(bytes) {
            Err(KeyRejection::Missing)
        } else {
            let key = trim_ascii_whitespace(bytes);
            if key.len() == 0 || key.len() > MAX_KEY_BYTES {
                Err(KeyRejection::BadLength)
            } else {
                Ok(key)
            }
        },
    }
}

/// Calls `std::str::from_utf8`. Its documentation promises `Ok` exactly when
/// the bytes are well-formed UTF-8, and a `str` over those same bytes; the
/// contract states both with vstd's model of UTF-8.
#[verifier::external_body]
fn utf8_str(bytes: &[u8]) -> (r: Option<&str>)
    ensures
        r is Some <==> valid_utf8(bytes@),
        r matches Some(s) ==> s.spec_bytes() == bytes@,
{
    std::str::from_utf8(bytes).ok()
}

/// Index of the first byte that is not ASCII whitespace (or the length).
fn leading_whitespace_end(b: &[u8]) -> (s: usize)
    ensures
        s <= b@.len(),
        forall|i: int| 0 <= i < s ==> is_ascii_whitespace_byte(#[trigger] b@[i]),
        s < b@.len() ==> !is_ascii_whitespace_byte(b@[s as int]),
        trim_leading(b@) == b@.subrange(s as int, b@.len() as int),
{
    let mut s: usize = 0;
    assert(b@.subrange(0, b@.len() as int) =~= b@);
    while s < b.len() && (b[s] == 0x20u8 || b[s] == 0x09u8 || b[s] == 0x0au8 || b[s] == 0x0cu8
        || b[s] == 0x0du8)
        invariant
            s <= b@.len(),
            forall|i: int| 0 <= i < s ==> is_ascii_whitespace_byte(#[trigger] b@[i]),
            trim_leading(b@) == trim_leading(b@.subrange(s as int, b@.len() as int)),
        decreases b@.len() - s,
    {
        assert(b@.subrange(s as int, b@.len() as int).drop_first() =~= b@.subrange(
            s + 1,
            b@.len() as int,
        ));
        s = s + 1;
    }
    s
}

/// Index just past the last byte, at or after `s`, that is not ASCII whitespace.
fn trailing_whitespace_start(b: &[u8], s: usize) -> (e: usize)
    requires
        s <= b@.len(),
    ensures
        s <= e <= b@.len(),
        forall|i: int| e <= i < b@.len() ==> is_ascii_whitespace_byte(#[trigger] b@[i]),
        s < e ==> !is_ascii_whitespace_byte(b@[e - 1]),
        trim_trailing(b@.subrange(s as int, b@.len() as int)) == b@.subrange(s as int, e as int),
{
    let mut e: usize = b.len();
    while e > s && (b[e - 1] == 0x20u8 || b[e - 1] == 0x09u8 || b[e - 1] == 0x0au8 || b[e - 1]
        == 0x0cu8 || b[e - 1] == 0x0du8)
        invariant
            s <= e <= b@.len(),
            forall|i: int| e <= i < b@.len() ==> is_ascii_whitespace_byte(#[trigger] b@[i]),
            trim_trailing(b@.subrange(s as int, b@.len() as int)) == trim_trailing(
                b@.subrange(s as int, e as int),
            ),
        decreases e,
    {
        assert(b@.subrange(s as int, e as int).drop_last() =~= b@.subrange(
            s as int,
            e - 1,
        ));
        e = e - 1;
    }
    e
}

/// A run of ASCII bytes is well-formed UTF-8.
proof fn lemma_ascii_run_is_utf8(a: Seq<u8>)
    requires
        forall|i: int| 0 <= i < a.len() ==> #[trigger] is_leading_byte_width_1(a[i]),
    ensures
        valid_utf8(a),
{
    assert(a.subrange(0, 0) =~= Seq::<u8>::empty());
    assert(partial_valid_utf8(a, 0));
    partial_valid_utf8_extend_ascii_block(a, 0, a.len() as int);
    assert(a.subrange(0, a.len() as int) =~= a);
}

/// Cutting ASCII whitespace off both ends of a byte string does not change
/// whether it is well-formed UTF-8.
pub proof fn lemma_trim_keeps_utf8_validity(b: Seq<u8>, s: int, e: int)
    requires
        0 <= s <= e <= b.len(),
        forall|i: int| 0 <= i < s ==> is_ascii_whitespace_byte(#[trigger] b[i]),
        forall|i: int| e <= i < b.len() ==> is_ascii_whitespace_byte(#[trigger] b[i]),
    ensures
        valid_utf8(b) <==> valid_utf8(b.subrange(s, e)),
{
    let front = b.subrange(0, s);
    let middle = b.subrange(s, e);
    let back = b.subrange(e, b.len() as int);
    let rest = b.subrange(s, b.len() as int);
    assert forall|i: int| 0 <= i < front.len() implies #[trigger] is_leading_byte_width_1(
        front[i],
    ) by {
        assert(is_ascii_whitespace_byte(b[i]));
    }
    assert forall|i: int| 0 <= i < back.len() implies #[trigger] is_leading_byte_width_1(
        back[i],
    ) by {
        assert(is_ascii_whitespace_byte(b[e + i]));
    }
    lemma_ascii_run_is_utf8(front);
    lemma_ascii_run_is_utf8(back);
    assert(b =~= front + middle + back);
    if valid_utf8(middle) {
        valid_utf8_concat(front, middle);
        valid_utf8_concat(front + middle, back);
    }
    if valid_utf8(b) {
        if !valid_utf8(rest) {
            partial_valid_partial_invalid_utf8(b, s);
        }
        if e < b.len() {
            assert(rest[e - s] == b[e]);
            assert(is_ascii_whitespace_byte(b[e]));
            is_char_boundary_iff_not_is_continuation_byte(rest, e - s);
            valid_utf8_split(rest, e - s);
            assert(rest.subrange(0, e - s) =~= middle);
        } else {
            assert(rest =~= middle);
        }
    }
}

/// Reads an `Idempotency-Key` header value: it must be UTF-8, and once
/// ASCII whitespace is cut from both ends it must hold 1 to `MAX_KEY_BYTES`
/// bytes. On success the key's UTF-8 encoding is exactly the trimmed bytes.
pub fn idempotency_key(raw: Option<&[u8]>) -> (r: Result<String, KeyRejection>)
    ensures
        match (r, key_outcome(
            match raw {
                Some(b) => Some(b@),
                None => None,
            },
        )) {
            (Ok(key), Ok(bytes)) => encode_utf8(key@) == bytes,
            (Err(e1), Err(e2)) => e1 == e2,
            _ => false,
        },
{
    match raw {
        None => Err(KeyRejection::Missing),
        Some(bytes) => {
            let s = leading_whitespace_end(bytes);
            let e = trailing_whitespace_start(bytes, s);
            proof {
                lemma_trim_keeps_utf8_validity(bytes@, s as int, e as int);
            }
            let trimmed = &bytes[s..e];
            match utf8_str(trimmed) {
                None => Err(KeyRejection::Missing),
                Some(text) => {
                    if e - s == 0 || e - s > MAX_KEY_BYTES {
                        Err(KeyRejection::BadLength)
                    } else {
                        let key = text.to_owned();
                        Ok(key)
                    }
                },
            }
        },
    }
}


/// Leading whitespace in front of `x` is cut away with the rest.
proof fn lemma_trim_leading_prefix(pre: Seq<u8>, x: Seq<u8>)
    requires
        forall|i: int| 0 <= i < pre.len() ==> is_ascii_whitespace_byte(#[trigger] pre[i]),
    ensures
        trim_leading(pre + x) == trim_leading(x),
    decreases pre.len(),
{
    if pre.len() == 0 {
        assert(pre + x =~= x);
    } else {
        assert((pre + x)[0] == pre[0]);
        assert((pre + x).drop_first() =~= pre.drop_first() + x);
        lemma_trim_leading_prefix(pre.drop_first(), x);
    }
}

/// Trailing whitespace after `x` is cut away with the rest.
proof fn lemma_trim_trailing_suffix(x: Seq<u8>, post: Seq<u8>)
    requires
        forall|i: int| 0 <= i < post.len() ==> is_ascii_whitespace_byte(#[trigger] post[i]),
    ensures
        trim_trailing(x + post) == trim_trailing(x),
    decreases post.len(),
{
    if post.len() == 0 {
        assert(x + post =~= x);
    } else {
        assert((x + post).last() == post.last());
        assert((x + post).drop_last() =~= x + post.drop_last());
        lemma_trim_trailing_suffix(x, post.drop_last());
    }
}

/// Cutting the front of `k + post` stops inside `k` unless `k` is all
/// whitespace.
proof fn lemma_trim_leading_append(k: Seq<u8>, post: Seq<u8>)
    ensures
        trim_leading(k).len() > 0 ==> trim_leading(k + post) == trim_leading(k) + post,
        trim_leading(k).len() == 0 ==> trim_leading(k + post) == trim_leading(post),
    decreases k.len(),
{
    if k.len() == 0 {
        assert(k + post =~= post);
    } else {
        assert((k + post)[0] == k[0]);
        if is_ascii_whitespace_byte(k[0]) {
            assert((k + post).drop_first() =~= k.drop_first() + post);
            lemma_trim_leading_append(k.drop_first(), post);
        }
    }
}

/// A run of whitespace trims to nothing.
proof fn lemma_trim_leading_all_whitespace(w: Seq<u8>)
    requires
        forall|i: int| 0 <= i < w.len() ==> is_ascii_whitespace_byte(#[trigger] w[i]),
    ensures
        trim_leading(w).len() == 0,
    decreases w.len(),
{
    if w.len() > 0 {
        assert(is_ascii_whitespace_byte(w[0]));
        lemma_trim_leading_all_whitespace(w.drop_first());
    }
}

/// ASCII whitespace around a header value does not change the key it
/// stands for: `"  key-1\t"` and `"key-1"` name the same key, and a value
/// is refused exactly when the bare one is.
pub proof fn lemma_surrounding_whitespace_ignored(pre: Seq<u8>, k: Seq<u8>, post: Seq<u8>)
    requires
        forall|i: int| 0 <= i < pre.len() ==> is_ascii_whitespace_byte(#[trigger] pre[i]),
        forall|i: int| 0 <= i < post.len() ==> is_ascii_whitespace_byte(#[trigger] post[i]),
    ensures
        key_outcome(Some(pre + k + post)) == key_outcome(Some(k)),
{
    let whole = pre + k + post;
    assert(whole =~= pre + (k + post));
    lemma_trim_leading_prefix(pre, k + post);
    lemma_trim_leading_append(k, post);
    if trim_leading(k).len() > 0 {
        lemma_trim_trailing_suffix(trim_leading(k), post);
    } else {
        lemma_trim_leading_all_whitespace(post);
        assert(trim_leading(k + post) =~= trim_leading(k));
    }
    assert(trim_ascii_whitespace(whole) == trim_ascii_whitespace(k));
    assert(whole.subrange(pre.len() as int, (pre.len() + k.len()) as int) =~= k);
    lemma_trim_keeps_utf8_validity(whole, pre.len() as int, (pre.len() + k.len()) as int);
}


/// Where the front cut of `b` ends.
proof fn lemma_trim_leading_bounds(b: Seq<u8>) -> (s: int)
    ensures
        0 <= s <= b.len(),
        forall|i: int| 0 <= i < s ==> is_ascii_whitespace_byte(#[trigger] b[i]),
        s < b.len() ==> !is_ascii_whitespace_byte(b[s]),
        trim_leading(b) == b.subrange(s, b.len() as int),
    decreases b.len(),
{
    if b.len() > 0 && is_ascii_whitespace_byte(b[0]) {
        let s1 = lemma_trim_leading_bounds(b.drop_first());
        assert(b.drop_first().subrange(s1, b.drop_first().len() as int) =~= b.subrange(
            s1 + 1,
            b.len() as int,
        ));
        assert forall|i: int| 0 <= i < s1 + 1 implies is_ascii_whitespace_byte(#[trigger] b[i]) by {
            if i > 0 {
                assert(b[i] == b.drop_first()[i - 1]);
            }
        }
        s1 + 1
    } else {
        assert(b.subrange(0, b.len() as int) =~= b);
        0
    }
}

/// Where the back cut of `b` starts.
proof fn lemma_trim_trailing_bounds(b: Seq<u8>) -> (e: int)
    ensures
        0 <= e <= b.len(),
        forall|i: int| e <= i < b.len() ==> is_ascii_whitespace_byte(#[trigger] b[i]),
        e > 0 ==> !is_ascii_whitespace_byte(b[e - 1]),
        trim_trailing(b) == b.subrange(0, e),
    decreases b.len(),
{
    if b.len() > 0 && is_ascii_whitespace_byte(b.last()) {
        let e1 = lemma_trim_trailing_bounds(b.drop_last());
        assert(b.drop_last().subrange(0, e1) =~= b.subrange(0, e1));
        assert forall|i: int| e1 <= i < b.len() implies is_ascii_whitespace_byte(#[trigger] b[i]) by {
            if i < b.len() - 1 {
                assert(b[i] == b.drop_last()[i]);
            }
        }
        e1
    } else {
        assert(b.subrange(0, b.len() as int) =~= b);
        b.len() as int
    }
}

/// The trimmed bytes are a slice `b[s..e]` with only whitespace outside it
/// and no whitespace at its ends.
pub proof fn lemma_trim_bounds(b: Seq<u8>) -> (r: (int, int))
    ensures
        0 <= r.0 <= r.1 <= b.len(),
        forall|i: int| 0 <= i < r.0 ==> is_ascii_whitespace_byte(#[trigger] b[i]),
        forall|i: int| r.1 <= i < b.len() ==> is_ascii_whitespace_byte(#[trigger] b[i]),
        r.0 < r.1 ==> !is_ascii_whitespace_byte(b[r.0]) && !is_ascii_whitespace_byte(b[r.1 - 1]),
        trim_ascii_whitespace(b) == b.subrange(r.0, r.1),
{
    let s = lemma_trim_leading_bounds(b);
    let rest = b.subrange(s, b.len() as int);
    let m = lemma_trim_trailing_bounds(rest);
    assert(rest.subrange(0, m) =~= b.subrange(s, s + m));
    assert forall|i: int| s + m <= i < b.len() implies is_ascii_whitespace_byte(#[trigger] b[i]) by {
        assert(b[i] == rest[i - s]);
    }
    if m > 0 {
        assert(b[s + m - 1] == rest[m - 1]);
    }
    (s, s + m)
}

/// An accepted key is accepted again, unchanged, when given back as the
/// header value: reading a key is idempotent.
pub proof fn lemma_accepted_key_is_stable(raw: Seq<u8>)
    requires
        key_outcome(Some(raw)) is Ok,
    ensures
        key_outcome(Some(key_outcome(Some(raw))->Ok_0)) == key_outcome(Some(raw)),
{
    let (s, e) = lemma_trim_bounds(raw);
    let key = raw.subrange(s, e);
    lemma_trim_keeps_utf8_validity(raw, s, e);
    let (s2, e2) = lemma_trim_bounds(key);
    assert(s < e);
    assert(key[0] == raw[s]);
    assert(key[key.len() - 1] == raw[e - 1]);
    if s2 > 0 {
        assert(is_ascii_whitespace_byte(key[0]));
    }
    if e2 < key.len() {
        assert(is_ascii_whitespace_byte(key[key.len() - 1]));
    }
    assert(key.subrange(s2, e2) =~= key);
}


/// What a header value is read as, stated without the trimming functions:
/// for a header made of whitespace (space, tab, line feed, form feed,
/// carriage return), a core `k` that neither starts nor ends with one of
/// those, and whitespace again, the key is `k` itself when `k` is UTF-8
/// of 1 to 128 bytes; a core that is not UTF-8 is a missing key, and an
/// empty or longer core is a bad length. No header is a missing key.
pub proof fn lemma_key_is_the_core_of_the_header(pre: Seq<u8>, k: Seq<u8>, post: Seq<u8>)
    requires
        forall|i: int|
            0 <= i < pre.len() ==> #[trigger] pre[i] == 0x20u8 || pre[i] == 0x09u8 || pre[i] == 0x0au8
                || pre[i] == 0x0cu8 || pre[i] == 0x0du8,
        forall|i: int|
            0 <= i < post.len() ==> #[trigger] post[i] == 0x20u8 || post[i] == 0x09u8 || post[i]
                == 0x0au8 || post[i] == 0x0cu8 || post[i] == 0x0du8,
        k.len() > 0 ==> !(k[0] == 0x20u8 || k[0] == 0x09u8 || k[0] == 0x0au8 || k[0] == 0x0cu8
            || k[0] == 0x0du8),
        k.len() > 0 ==> !(k.last() == 0x20u8 || k.last() == 0x09u8 || k.last() == 0x0au8
            || k.last() == 0x0cu8 || k.last() == 0x0du8),
    ensures
        !valid_utf8(k) ==> key_outcome(Some(pre + k + post)) == Err::<Seq<u8>, KeyRejection>(
            KeyRejection::Missing,
        ),
        valid_utf8(k) && (k.len() == 0 || k.len() > 128) ==> key_outcome(Some(pre + k + post))
            == Err::<Seq<u8>, KeyRejection>(KeyRejection::BadLength),
        valid_utf8(k) && 1 <= k.len() <= 128 ==> key_outcome(Some(pre + k + post)) == Ok::<
            Seq<u8>,
            KeyRejection,
        >(k),
        key_outcome(None) == Err::<Seq<u8>, KeyRejection>(KeyRejection::Missing),
{
    assert forall|i: int| 0 <= i < pre.len() implies is_ascii_whitespace_byte(#[trigger] pre[i]) by {}
    assert forall|i: int| 0 <= i < post.len() implies is_ascii_whitespace_byte(#[trigger] post[i]) by {}
    lemma_surrounding_whitespace_ignored(pre, k, post);
    let (s, e) = lemma_trim_bounds(k);
    if k.len() > 0 {
        if s > 0 {
            assert(is_ascii_whitespace_byte(k[0]));
        }
        if e < k.len() {
            assert(is_ascii_whitespace_byte(k[k.len() - 1]));
        }
        assert(k.subrange(s, e) =~= k);
    } else {
        assert(k.subrange(s, e) =~= k);
    }
}

} // verus!
