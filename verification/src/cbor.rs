//! Minimal CBOR primitives for the control-plane header protocol.
//!
//! Only the pieces the fixed header contract needs are implemented: unsigned
//! integers, text strings, booleans and map headers. Encoders produce the
//! shortest (canonical) form; decoders accept any well-formed length form.

use vstd::prelude::*;
use vstd::slice::slice_subrange;
use vstd::string::StringSliceAdditionalSpecFns;
use vstd::utf8::{decode_utf8, encode_utf8, valid_utf8};

verus! {

/// Base byte for unsigned integers (major type 0).
pub const MAJOR_UINT: u8 = 0x00;

/// Base byte for text strings (major type 3).
pub const MAJOR_TEXT: u8 = 0x60;

/// Base byte for maps (major type 5).
pub const MAJOR_MAP: u8 = 0xa0;

/// The encoding of the simple value `false`.
pub const SIMPLE_FALSE: u8 = 0xf4;

/// The encoding of the simple value `true`.
pub const SIMPLE_TRUE: u8 = 0xf5;

/// The canonical head of a CBOR item: the base byte of its major type with
/// the argument `v` packed in the shortest form.
#[verifier::opaque]
pub open spec fn spec_head(base: u8, v: u64) -> Seq<u8>
    recommends
        base == MAJOR_UINT || base == MAJOR_TEXT || base == MAJOR_MAP,
{
    if v < 24 {
        seq![(base + v) as u8]
    } else if v < 0x100 {
        seq![(base + 24) as u8, v as u8]
    } else if v < 0x10000 {
        seq![(base + 25) as u8, (v / 0x100) as u8, (v % 0x100) as u8]
    } else if v < 0x100000000 {
        seq![
            (base + 26) as u8,
            (v / 0x1000000) as u8,
            ((v / 0x10000) % 0x100) as u8,
            ((v / 0x100) % 0x100) as u8,
            (v % 0x100) as u8,
        ]
    } else {
        seq![
            (base + 27) as u8,
            (v / 0x100000000000000) as u8,
            ((v / 0x1000000000000) % 0x100) as u8,
            ((v / 0x10000000000) % 0x100) as u8,
            ((v / 0x100000000) % 0x100) as u8,
            ((v / 0x1000000) % 0x100) as u8,
            ((v / 0x10000) % 0x100) as u8,
            ((v / 0x100) % 0x100) as u8,
            (v % 0x100) as u8,
        ]
    }
}

/// Canonical encoding of an unsigned integer.
pub open spec fn spec_uint(v: u64) -> Seq<u8> {
    spec_head(MAJOR_UINT, v)
}

/// Canonical encoding of a text string: its head carries the UTF-8 byte
/// length, followed by the UTF-8 bytes themselves.
pub open spec fn spec_text(s: Seq<char>) -> Seq<u8> {
    spec_head(MAJOR_TEXT, encode_utf8(s).len() as u64) + encode_utf8(s)
}

/// Encoding of a boolean.
pub open spec fn spec_bool(b: bool) -> Seq<u8> {
    if b {
        seq![SIMPLE_TRUE]
    } else {
        seq![SIMPLE_FALSE]
    }
}

/// Canonical head of a map with `n` key/value pairs.
pub open spec fn spec_map(n: u64) -> Seq<u8> {
    spec_head(MAJOR_MAP, n)
}

/// Appends the canonical head for `(base, v)` to `buf`.
pub fn push_head(buf: &mut Vec<u8>, base: u8, v: u64)
    requires
        base == MAJOR_UINT || base == MAJOR_TEXT || base == MAJOR_MAP,
    ensures
        final(buf)@ == old(buf)@ + spec_head(base, v),
{
    proof {
        reveal(spec_head);
    }
    if v < 24 {
        buf.push(base + v as u8);
    } else if v < 0x100 {
        buf.push(base + 24);
        buf.push(v as u8);
    } else if v < 0x10000 {
        buf.push(base + 25);
        buf.push((v / 0x100) as u8);
        buf.push((v % 0x100) as u8);
    } else if v < 0x100000000 {
        buf.push(base + 26);
        buf.push((v / 0x1000000) as u8);
        buf.push(((v / 0x10000) % 0x100) as u8);
        buf.push(((v / 0x100) % 0x100) as u8);
        buf.push((v % 0x100) as u8);
    } else {
        buf.push(base + 27);
        buf.push((v / 0x100000000000000) as u8);
        buf.push(((v / 0x1000000000000) % 0x100) as u8);
        buf.push(((v / 0x10000000000) % 0x100) as u8);
        buf.push(((v / 0x100000000) % 0x100) as u8);
        buf.push(((v / 0x1000000) % 0x100) as u8);
        buf.push(((v / 0x10000) % 0x100) as u8);
        buf.push(((v / 0x100) % 0x100) as u8);
        buf.push((v % 0x100) as u8);
    }
    assert(buf@ =~= old(buf)@ + spec_head(base, v));
}

/// Appends the canonical encoding of an unsigned integer to `buf`.
pub fn push_uint(buf: &mut Vec<u8>, v: u64)
    ensures
        final(buf)@ == old(buf)@ + spec_uint(v),
{
    push_head(buf, MAJOR_UINT, v);
}

/// Appends the canonical encoding of a text string to `buf`.
pub fn push_text(buf: &mut Vec<u8>, s: &str)
    ensures
        final(buf)@ == old(buf)@ + spec_text(s@),
{
    let bytes = s.as_bytes();
    push_head(buf, MAJOR_TEXT, bytes.len() as u64);
    buf.extend_from_slice(bytes);
    assert(buf@ =~= old(buf)@ + spec_text(s@));
}

/// Appends the encoding of a boolean to `buf`.
pub fn push_bool(buf: &mut Vec<u8>, b: bool)
    ensures
        final(buf)@ == old(buf)@ + spec_bool(b),
{
    if b {
        buf.push(SIMPLE_TRUE);
    } else {
        buf.push(SIMPLE_FALSE);
    }
    assert(buf@ =~= old(buf)@ + spec_bool(b));
}

/// Appends the canonical head of a map with `n` pairs to `buf`.
pub fn push_map(buf: &mut Vec<u8>, n: u64)
    ensures
        final(buf)@ == old(buf)@ + spec_map(n),
{
    push_head(buf, MAJOR_MAP, n);
}

/// Reads the head of an item at position `i`: its major-type base byte, its
/// argument, and the position just past the head. Indefinite lengths and
/// reserved length forms are rejected.
#[verifier::opaque]
pub open spec fn dec_head(b: Seq<u8>, i: int) -> Option<(u8, u64, int)> {
    if 0 <= i < b.len() {
        let base = ((b[i] / 32) * 32) as u8;
        let info = b[i] % 32;
        if info < 24 {
            Some((base, info as u64, i + 1))
        } else if info == 24 && i + 2 <= b.len() {
            Some((base, b[i + 1] as u64, i + 2))
        } else if info == 25 && i + 3 <= b.len() {
            Some((base, (b[i + 1] as u64 * 0x100 + b[i + 2] as u64) as u64, i + 3))
        } else if info == 26 && i + 5 <= b.len() {
            Some(
                (
                    base,
                    (b[i + 1] as u64 * 0x1000000 + b[i + 2] as u64 * 0x10000 + b[i + 3] as u64
                        * 0x100 + b[i + 4] as u64) as u64,
                    i + 5,
                ),
            )
        } else if info == 27 && i + 9 <= b.len() {
            Some(
                (
                    base,
                    (b[i + 1] as u64 * 0x100000000000000 + b[i + 2] as u64 * 0x1000000000000 + b[i
                        + 3] as u64 * 0x10000000000 + b[i + 4] as u64 * 0x100000000 + b[i
                        + 5] as u64 * 0x1000000 + b[i + 6] as u64 * 0x10000 + b[i + 7] as u64
                        * 0x100 + b[i + 8] as u64) as u64,
                    i + 9,
                ),
            )
        } else {
            None
        }
    } else {
        None
    }
}

/// Reads an unsigned integer at position `i`.
pub open spec fn dec_uint(b: Seq<u8>, i: int) -> Option<(u64, int)> {
    match dec_head(b, i) {
        Some((base, v, j)) => {
            if base == MAJOR_UINT {
                Some((v, j))
            } else {
                None
            }
        },
        None => None,
    }
}

/// Reads a text string at position `i`: the decoded characters and the
/// position just past the string.
pub open spec fn dec_text(b: Seq<u8>, i: int) -> Option<(Seq<char>, int)> {
    match dec_head(b, i) {
        Some((base, n, j)) => {
            if base == MAJOR_TEXT && j + n <= b.len() && valid_utf8(b.subrange(j, j + n as int)) {
                Some((decode_utf8(b.subrange(j, j + n as int)), j + n as int))
            } else {
                None
            }
        },
        None => None,
    }
}

/// Reads a boolean at position `i`.
pub open spec fn dec_bool(b: Seq<u8>, i: int) -> Option<(bool, int)> {
    if 0 <= i < b.len() {
        if b[i] == SIMPLE_TRUE {
            Some((true, i + 1))
        } else if b[i] == SIMPLE_FALSE {
            Some((false, i + 1))
        } else {
            None
        }
    } else {
        None
    }
}

/// Reads an item head, as [`dec_head`] describes.
pub fn read_head(buf: &[u8], i: usize) -> (r: Option<(u8, u64, usize)>)
    ensures
        match r {
            Some((base, v, j)) => dec_head(buf@, i as int) == Some((base, v, j as int)) && i < j
                <= buf@.len(),
            None => dec_head(buf@, i as int) is None,
        },
{
    proof {
        reveal(dec_head);
    }
    if i >= buf.len() {
        return None;
    }
    let hb = buf[i];
    let info = hb % 32;
    let base = hb / 32 * 32;
    if info < 24 {
        Some((base, info as u64, i + 1))
    } else if info == 24 && buf.len() - i >= 2 {
        Some((base, buf[i + 1] as u64, i + 2))
    } else if info == 25 && buf.len() - i >= 3 {
        Some((base, buf[i + 1] as u64 * 0x100 + buf[i + 2] as u64, i + 3))
    } else if info == 26 && buf.len() - i >= 5 {
        Some(
            (
                base,
                buf[i + 1] as u64 * 0x1000000 + buf[i + 2] as u64 * 0x10000 + buf[i + 3] as u64
                    * 0x100 + buf[i + 4] as u64,
                i + 5,
            ),
        )
    } else if info == 27 && buf.len() - i >= 9 {
        Some(
            (
                base,
                buf[i + 1] as u64 * 0x100000000000000 + buf[i + 2] as u64 * 0x1000000000000 + buf[i
                    + 3] as u64 * 0x10000000000 + buf[i + 4] as u64 * 0x100000000 + buf[i
                    + 5] as u64 * 0x1000000 + buf[i + 6] as u64 * 0x10000 + buf[i + 7] as u64
                    * 0x100 + buf[i + 8] as u64,
                i + 9,
            ),
        )
    } else {
        None
    }
}

/// Reads an unsigned integer, as [`dec_uint`] describes.
pub fn read_uint(buf: &[u8], i: usize) -> (r: Option<(u64, usize)>)
    ensures
        match r {
            Some((v, j)) => dec_uint(buf@, i as int) == Some((v, j as int)) && i < j
                <= buf@.len(),
            None => dec_uint(buf@, i as int) is None,
        },
{
    match read_head(buf, i) {
        Some((base, v, j)) => {
            if base == MAJOR_UINT {
                Some((v, j))
            } else {
                None
            }
        },
        None => None,
    }
}

/// Relies on `core::str::from_utf8`: it succeeds exactly on valid UTF-8 and
/// returns the string slice over those same bytes.
#[verifier::external_body]
fn bytes_as_str(v: &[u8]) -> (r: Option<&str>)
    ensures
        r matches Some(s) ==> s.spec_bytes() == v@,
        valid_utf8(v@) ==> r is Some,
{
    core::str::from_utf8(v).ok()
}

/// Reads a text string, as [`dec_text`] describes.
pub fn read_text(buf: &[u8], i: usize) -> (r: Option<(String, usize)>)
    ensures
        match r {
            Some((s, j)) => dec_text(buf@, i as int) == Some((s@, j as int)) && i < j
                <= buf@.len(),
            None => dec_text(buf@, i as int) is None,
        },
{
    match read_head(buf, i) {
        Some((base, n, j)) => {
            if base == MAJOR_TEXT && n <= (buf.len() - j) as u64 {
                let end = j + n as usize;
                let sub = slice_subrange(buf, j, end);
                match bytes_as_str(sub) {
                    Some(s) => {
                        proof {
                            vstd::utf8::encode_utf8_valid_utf8(s@);
                            vstd::utf8::encode_utf8_decode_utf8(s@);
                        }
                        Some((s.to_owned(), end))
                    },
                    None => {
                        assert(!valid_utf8(buf@.subrange(j as int, j + n as int)));
                        None
                    },
                }
            } else {
                None
            }
        },
        None => None,
    }
}

/// Reads a boolean, as [`dec_bool`] describes.
pub fn read_bool(buf: &[u8], i: usize) -> (r: Option<(bool, usize)>)
    ensures
        match r {
            Some((v, j)) => dec_bool(buf@, i as int) == Some((v, j as int)) && i < j <= buf@.len(),
            None => dec_bool(buf@, i as int) is None,
        },
{
    if i < buf.len() {
        let hb = buf[i];
        if hb == SIMPLE_TRUE {
            Some((true, i + 1))
        } else if hb == SIMPLE_FALSE {
            Some((false, i + 1))
        } else {
            None
        }
    } else {
        None
    }
}

/// The length of the canonical head for argument `v`.
pub open spec fn head_len(v: u64) -> int {
    if v < 24 {
        1
    } else if v < 0x100 {
        2
    } else if v < 0x10000 {
        3
    } else if v < 0x100000000 {
        5
    } else {
        9
    }
}

/// The canonical head of argument `v` takes [`head_len`] bytes.
pub broadcast proof fn lemma_spec_head_len(base: u8, v: u64)
    ensures
        (#[trigger] spec_head(base, v)).len() == head_len(v),
{
    reveal(spec_head);
}

/// Decoding a canonical head from any position where its bytes stand yields
/// exactly the encoded base and argument.
pub proof fn lemma_dec_head_of_spec_head(b: Seq<u8>, i: int, base: u8, v: u64)
    requires
        base == MAJOR_UINT || base == MAJOR_TEXT || base == MAJOR_MAP,
        0 <= i,
        i + head_len(v) <= b.len(),
        b.subrange(i, i + head_len(v)) == spec_head(base, v),
    ensures
        dec_head(b, i) == Some((base, v, i + head_len(v))),
{
    reveal(spec_head);
    reveal(dec_head);
    if v < 24 {
        let hb = (base + v) as u8;
        assert(b[i] == spec_head(base, v)[0]);
        assert(hb % 32 == v && (hb / 32) * 32 == base) by (bit_vector)
            requires
                hb == (base + v) as u8,
                v < 24,
                base == 0x00 || base == 0x60 || base == 0xa0,
        ;
    } else if v < 0x100 {
        let hb = (base + 24) as u8;
        assert(b[i] == spec_head(base, v)[0]);
        assert(b[i + 1] == spec_head(base, v)[1]);
        assert(hb % 32 == 24 && (hb / 32) * 32 == base) by (bit_vector)
            requires
                hb == (base + 24) as u8,
                base == 0x00 || base == 0x60 || base == 0xa0,
        ;
    } else if v < 0x10000 {
        let hb = (base + 25) as u8;
        assert(b[i] == spec_head(base, v)[0]);
        assert(b[i + 1] == spec_head(base, v)[1]);
        assert(b[i + 2] == spec_head(base, v)[2]);
        assert(hb % 32 == 25 && (hb / 32) * 32 == base) by (bit_vector)
            requires
                hb == (base + 25) as u8,
                base == 0x00 || base == 0x60 || base == 0xa0,
        ;
        assert((v / 0x100) as u8 as u64 * 0x100 + (v % 0x100) as u8 as u64 == v) by (bit_vector)
            requires
                v < 0x10000,
        ;
    } else if v < 0x100000000 {
        let hb = (base + 26) as u8;
        assert(b[i] == spec_head(base, v)[0]);
        assert(b[i + 1] == spec_head(base, v)[1]);
        assert(b[i + 2] == spec_head(base, v)[2]);
        assert(b[i + 3] == spec_head(base, v)[3]);
        assert(b[i + 4] == spec_head(base, v)[4]);
        assert(hb % 32 == 26 && (hb / 32) * 32 == base) by (bit_vector)
            requires
                hb == (base + 26) as u8,
                base == 0x00 || base == 0x60 || base == 0xa0,
        ;
        assert((v / 0x1000000) as u8 as u64 * 0x1000000 + ((v / 0x10000) % 0x100) as u8 as u64
            * 0x10000 + ((v / 0x100) % 0x100) as u8 as u64 * 0x100 + (v % 0x100) as u8 as u64
            == v) by (bit_vector)
            requires
                v < 0x100000000,
        ;
    } else {
        let hb = (base + 27) as u8;
        assert(b[i] == spec_head(base, v)[0]);
        assert(b[i + 1] == spec_head(base, v)[1]);
        assert(b[i + 2] == spec_head(base, v)[2]);
        assert(b[i + 3] == spec_head(base, v)[3]);
        assert(b[i + 4] == spec_head(base, v)[4]);
        assert(b[i + 5] == spec_head(base, v)[5]);
        assert(b[i + 6] == spec_head(base, v)[6]);
        assert(b[i + 7] == spec_head(base, v)[7]);
        assert(b[i + 8] == spec_head(base, v)[8]);
        assert(hb % 32 == 27 && (hb / 32) * 32 == base) by (bit_vector)
            requires
                hb == (base + 27) as u8,
                base == 0x00 || base == 0x60 || base == 0xa0,
        ;
        assert((v / 0x100000000000000) as u8 as u64 * 0x100000000000000 + ((v / 0x1000000000000)
            % 0x100) as u8 as u64 * 0x1000000000000 + ((v / 0x10000000000) % 0x100) as u8 as u64
            * 0x10000000000 + ((v / 0x100000000) % 0x100) as u8 as u64 * 0x100000000 + ((v
            / 0x1000000) % 0x100) as u8 as u64 * 0x1000000 + ((v / 0x10000) % 0x100) as u8 as u64
            * 0x10000 + ((v / 0x100) % 0x100) as u8 as u64 * 0x100 + (v % 0x100) as u8 as u64
            == v) by (bit_vector);
    }
}

/// Decoding a canonical text encoding from any position where its bytes
/// stand yields exactly the encoded characters.
pub proof fn lemma_dec_text_of_spec_text(b: Seq<u8>, i: int, s: Seq<char>)
    requires
        0 <= i,
        encode_utf8(s).len() <= u64::MAX,
        i + spec_text(s).len() <= b.len(),
        b.subrange(i, i + spec_text(s).len()) == spec_text(s),
    ensures
        dec_text(b, i) == Some((s, i + spec_text(s).len())),
{
    let u = encode_utf8(s);
    let n = u.len() as u64;
    let hl = head_len(n);
    let t = spec_text(s);
    assert(spec_head(MAJOR_TEXT, n).len() == hl) by {
        reveal(spec_head);
    }
    assert(t.len() == hl + n);
    assert(forall|k: int| 0 <= k < t.len() ==> b[i + k] == #[trigger] t[k]) by {
        assert(forall|k: int|
            0 <= k < t.len() ==> #[trigger] b.subrange(i, i + t.len() as int)[k] == b[i + k]);
    }
    assert(b.subrange(i, i + hl) =~= spec_head(MAJOR_TEXT, n)) by {
        assert(forall|k: int|
            0 <= k < hl ==> #[trigger] t[k] == spec_head(MAJOR_TEXT, n).add(u)[k]);
    }
    lemma_dec_head_of_spec_head(b, i, MAJOR_TEXT, n);
    assert(b.subrange(i + hl, i + hl + n as int) =~= u) by {
        assert forall|k: int| 0 <= k < n implies b.subrange(i + hl, i + hl + n as int)[k] == u[k] by {
            assert(t[hl + k] == spec_head(MAJOR_TEXT, n).add(u)[hl + k]);
            assert(t[hl + k] == u[k]);
            assert(b[i + (hl + k)] == t[hl + k]);
        }
    }
    vstd::utf8::encode_utf8_valid_utf8(s);
    vstd::utf8::encode_utf8_decode_utf8(s);
}

/// Decoding a canonical integer encoding from any position where its bytes
/// stand yields the encoded value.
pub proof fn lemma_dec_uint_of_spec_uint(b: Seq<u8>, i: int, v: u64)
    requires
        0 <= i,
        i + spec_uint(v).len() <= b.len(),
        b.subrange(i, i + spec_uint(v).len()) == spec_uint(v),
    ensures
        dec_uint(b, i) == Some((v, i + head_len(v))),
{
    lemma_spec_head_len(MAJOR_UINT, v);
    lemma_dec_head_of_spec_head(b, i, MAJOR_UINT, v);
}

/// Splits a window of `b` that holds the concatenation `x + y` into the two
/// windows that hold `x` and `y`.
pub proof fn lemma_concat_parts(b: Seq<u8>, i: int, x: Seq<u8>, y: Seq<u8>)
    requires
        0 <= i,
        i + x.len() + y.len() <= b.len(),
        b.subrange(i, i + x.len() + y.len()) == x + y,
    ensures
        b.subrange(i, i + x.len()) == x,
        b.subrange(i + x.len(), i + x.len() + y.len()) == y,
{
    let whole = x + y;
    assert(b.subrange(i, i + x.len() as int) =~= x) by {
        assert forall|k: int| 0 <= k < x.len() implies b.subrange(i, i + x.len() as int)[k]
            == x[k] by {
            assert(b.subrange(i, i + x.len() + y.len()) =~= whole);
            assert(b[i + k] == whole[k]) by {
                assert(b.subrange(i, i + x.len() + y.len())[k] == whole[k]);
            }
        }
    }
    assert(b.subrange(i + x.len(), i + x.len() + y.len()) =~= y) by {
        assert forall|k: int| 0 <= k < y.len() implies b.subrange(
            i + x.len(),
            i + x.len() + y.len(),
        )[k] == y[k] by {
            assert(b[i + x.len() + k] == whole[x.len() + k]) by {
                assert(b.subrange(i, i + x.len() + y.len())[x.len() + k] == whole[x.len() + k]);
            }
        }
    }
}

/// Decoding a boolean from the position where its byte stands yields the
/// encoded value.
pub proof fn lemma_dec_bool_of_spec_bool(b: Seq<u8>, i: int, v: bool)
    requires
        0 <= i,
        i + 1 <= b.len(),
        b.subrange(i, i + 1) == spec_bool(v),
    ensures
        dec_bool(b, i) == Some((v, i + 1)),
{
    assert(b[i] == spec_bool(v)[0]) by {
        assert(b.subrange(i, i + 1)[0] == spec_bool(v)[0]);
    }
}

} // verus!
