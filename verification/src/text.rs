//! Small text helpers shared by the portal modules.

use vstd::prelude::*;
use vstd::string::StringExecFns;

verus! {

/// Relies on `str`'s `PartialEq`: two string slices are equal exactly when
/// their characters are equal.
#[verifier::external_body]
pub fn str_eq(a: &str, b: &str) -> (r: bool)
    ensures
        r == (a@ == b@),
{
    a == b
}

/// The concatenation of `parts`, the separator `sep` between neighbours.
pub open spec fn spec_join(parts: Seq<Seq<char>>, sep: Seq<char>) -> Seq<char>
    decreases parts.len(),
{
    if parts.len() == 0 {
        Seq::empty()
    } else if parts.len() == 1 {
        parts[0]
    } else {
        parts[0] + sep + spec_join(parts.drop_first(), sep)
    }
}

/// Joins `parts` with the separator `sep` between neighbours.
pub fn join(parts: &Vec<String>, sep: &str) -> (r: String)
    ensures
        r@ == spec_join(parts@.map_values(|p: String| p@), sep@),
{
    let ghost views = parts@.map_values(|p: String| p@);
    let mut out = String::new();
    let mut i: usize = 0;
    while i < parts.len()
        invariant
            0 <= i <= parts.len(),
            views == parts@.map_values(|p: String| p@),
            out@ == spec_join(views.take(i as int), sep@),
        decreases parts.len() - i,
    {
        if i > 0 {
            out.append(sep);
        }
        out.append(parts[i].as_str());
        proof {
            lemma_join_push(views.take(i as int), views[i as int], sep@);
            assert(views.take(i + 1) =~= views.take(i as int).push(views[i as int]));
        }
        i = i + 1;
    }
    proof {
        assert(views.take(parts@.len() as int) =~= views);
    }
    out
}

/// Joining one more part appends a separator and the part.
proof fn lemma_join_push(t: Seq<Seq<char>>, x: Seq<char>, sep: Seq<char>)
    ensures
        spec_join(t.push(x), sep) == if t.len() == 0 {
            x
        } else {
            spec_join(t, sep) + sep + x
        },
    decreases t.len(),
{
    if t.len() == 0 {
        assert(t.push(x)[0] == x);
    } else if t.len() == 1 {
        assert(t.push(x).drop_first() =~= seq![x]);
        assert(spec_join(seq![x], sep) == x);
    } else {
        assert(t.push(x).drop_first() =~= t.drop_first().push(x));
        lemma_join_push(t.drop_first(), x, sep);
        assert((t[0] + sep + (spec_join(t.drop_first(), sep) + sep + x)) =~= ((t[0] + sep
            + spec_join(t.drop_first(), sep)) + sep + x));
    }
}

/// Lexicographic order on character sequences, by scalar value: the order
/// in which a sorted map of strings lists its keys.
pub open spec fn spec_lex_le(a: Seq<char>, b: Seq<char>) -> bool
    decreases a.len(),
{
    if a.len() == 0 {
        true
    } else if b.len() == 0 {
        false
    } else if (a[0] as u32) < (b[0] as u32) {
        true
    } else if (a[0] as u32) > (b[0] as u32) {
        false
    } else {
        spec_lex_le(a.drop_first(), b.drop_first())
    }
}

/// The lexicographic order is total.
pub proof fn lemma_lex_le_total(a: Seq<char>, b: Seq<char>)
    ensures
        spec_lex_le(a, b) || spec_lex_le(b, a),
    decreases a.len(),
{
    if a.len() > 0 && b.len() > 0 && (a[0] as u32) == (b[0] as u32) {
        lemma_lex_le_total(a.drop_first(), b.drop_first());
    }
}

/// The lexicographic order is transitive.
pub proof fn lemma_lex_le_trans(a: Seq<char>, b: Seq<char>, c: Seq<char>)
    requires
        spec_lex_le(a, b),
        spec_lex_le(b, c),
    ensures
        spec_lex_le(a, c),
    decreases a.len(),
{
    if a.len() > 0 {
        if (a[0] as u32) == (c[0] as u32) && (a[0] as u32) == (b[0] as u32) {
            lemma_lex_le_trans(a.drop_first(), b.drop_first(), c.drop_first());
        }
    }
}

/// Whether `a` sorts at or before `b`, as [`spec_lex_le`] describes.
pub fn str_le(a: &str, b: &str) -> (r: bool)
    ensures
        r == spec_lex_le(a@, b@),
{
    let alen = a.unicode_len();
    let blen = b.unicode_len();
    proof {
        assert(a@.skip(0) =~= a@);
        assert(b@.skip(0) =~= b@);
    }
    let mut i: usize = 0;
    while i < alen && i < blen
        invariant
            0 <= i <= alen,
            0 <= i <= blen,
            alen == a@.len(),
            blen == b@.len(),
            spec_lex_le(a@, b@) == spec_lex_le(a@.skip(i as int), b@.skip(i as int)),
        decreases alen - i,
    {
        let ca = a.get_char(i);
        let cb = b.get_char(i);
        let ua = ca as u32;
        let ub = cb as u32;
        proof {
            assert(a@.skip(i as int)[0] == a@[i as int]);
            assert(b@.skip(i as int)[0] == b@[i as int]);
            assert(a@.skip(i as int).drop_first() =~= a@.skip(i + 1));
            assert(b@.skip(i as int).drop_first() =~= b@.skip(i + 1));
        }
        if ua < ub {
            return true;
        }
        if ua > ub {
            return false;
        }
        i = i + 1;
    }
    proof {
        if i >= alen {
            assert(a@.skip(i as int).len() == 0);
        } else {
            assert(b@.skip(i as int).len() == 0);
            assert(a@.skip(i as int).len() > 0);
        }
    }
    alen <= blen
}

/// The concatenation of two pieces of text.
pub fn concat2(a: &str, b: &str) -> (r: String)
    ensures
        r@ == a@ + b@,
{
    let mut s = a.to_owned();
    s.append(b);
    s
}

/// The concatenation of three pieces of text.
pub fn concat3(a: &str, b: &str, c: &str) -> (r: String)
    ensures
        r@ == a@ + b@ + c@,
{
    let mut s = a.to_owned();
    s.append(b);
    s.append(c);
    s
}

/// The digit characters of `v` written in lower-case hexadecimal, eight of
/// them, most significant first.
pub open spec fn spec_hex8(v: u32) -> Seq<char> {
    spec_hex_digit(((v / 0x10000000) % 16) as nat) + spec_hex_digit(
        ((v / 0x1000000) % 16) as nat,
    ) + spec_hex_digit(((v / 0x100000) % 16) as nat) + spec_hex_digit(
        ((v / 0x10000) % 16) as nat,
    ) + spec_hex_digit(((v / 0x1000) % 16) as nat) + spec_hex_digit(((v / 0x100) % 16) as nat)
        + spec_hex_digit(((v / 0x10) % 16) as nat) + spec_hex_digit((v % 16) as nat)
}

/// The character of one hexadecimal digit, as a one-character string.
pub open spec fn spec_hex_digit(d: nat) -> Seq<char> {
    if d == 0 {
        "0"@
    } else if d == 1 {
        "1"@
    } else if d == 2 {
        "2"@
    } else if d == 3 {
        "3"@
    } else if d == 4 {
        "4"@
    } else if d == 5 {
        "5"@
    } else if d == 6 {
        "6"@
    } else if d == 7 {
        "7"@
    } else if d == 8 {
        "8"@
    } else if d == 9 {
        "9"@
    } else if d == 10 {
        "a"@
    } else if d == 11 {
        "b"@
    } else if d == 12 {
        "c"@
    } else if d == 13 {
        "d"@
    } else if d == 14 {
        "e"@
    } else {
        "f"@
    }
}

/// One hexadecimal digit.
fn hex_digit(d: u32) -> (r: &'static str)
    requires
        d < 16,
    ensures
        r@ == spec_hex_digit(d as nat),
{
    if d == 0 {
        "0"
    } else if d == 1 {
        "1"
    } else if d == 2 {
        "2"
    } else if d == 3 {
        "3"
    } else if d == 4 {
        "4"
    } else if d == 5 {
        "5"
    } else if d == 6 {
        "6"
    } else if d == 7 {
        "7"
    } else if d == 8 {
        "8"
    } else if d == 9 {
        "9"
    } else if d == 10 {
        "a"
    } else if d == 11 {
        "b"
    } else if d == 12 {
        "c"
    } else if d == 13 {
        "d"
    } else if d == 14 {
        "e"
    } else {
        "f"
    }
}

/// `v` written as eight lower-case hexadecimal digits.
pub fn hex8(v: u32) -> (r: String)
    ensures
        r@ == spec_hex8(v),
        r@.len() == 8,
{
    let mut out = String::new();
    out.append(hex_digit((v / 0x10000000) % 16));
    out.append(hex_digit((v / 0x1000000) % 16));
    out.append(hex_digit((v / 0x100000) % 16));
    out.append(hex_digit((v / 0x10000) % 16));
    out.append(hex_digit((v / 0x1000) % 16));
    out.append(hex_digit((v / 0x100) % 16));
    out.append(hex_digit((v / 0x10) % 16));
    out.append(hex_digit(v % 16));
    assert(out@ =~= spec_hex8(v));
    proof {
        lemma_hex_digit_len(((v / 0x10000000) % 16) as nat);
        lemma_hex_digit_len(((v / 0x1000000) % 16) as nat);
        lemma_hex_digit_len(((v / 0x100000) % 16) as nat);
        lemma_hex_digit_len(((v / 0x10000) % 16) as nat);
        lemma_hex_digit_len(((v / 0x1000) % 16) as nat);
        lemma_hex_digit_len(((v / 0x100) % 16) as nat);
        lemma_hex_digit_len(((v / 0x10) % 16) as nat);
        lemma_hex_digit_len((v % 16) as nat);
    }
    out
}

/// A hexadecimal digit is one character.
proof fn lemma_hex_digit_len(d: nat)
    ensures
        spec_hex_digit(d).len() == 1,
{
    reveal_strlit("0");
    reveal_strlit("1");
    reveal_strlit("2");
    reveal_strlit("3");
    reveal_strlit("4");
    reveal_strlit("5");
    reveal_strlit("6");
    reveal_strlit("7");
    reveal_strlit("8");
    reveal_strlit("9");
    reveal_strlit("a");
    reveal_strlit("b");
    reveal_strlit("c");
    reveal_strlit("d");
    reveal_strlit("e");
    reveal_strlit("f");
}

} // verus!
