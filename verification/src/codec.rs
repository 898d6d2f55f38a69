//! Byte codecs that come from outside crates: MD5 digests (`md5`) and
//! standard base64 (`base64`).

use vstd::prelude::*;

verus! {

/// The MD5 digest of `data`, as `md5::compute` returns it (16 bytes).
pub uninterp spec fn md5_digest(data: Seq<u8>) -> Seq<u8>;

/// `md5::compute`: the MD5 digest of `data`. Its contract names the digest
/// `md5_digest(data)` and says that it is 16 bytes long (the crate's
/// `Digest` wraps a `[u8; 16]`); MD5 itself is not stated.
#[verifier::external_body]
pub(crate) fn md5_compute(data: &[u8]) -> (r: Vec<u8>)
    ensures
        r@ == md5_digest(data@),
        r@.len() == 16,
{
    md5::compute(data).0.to_vec()
}

/// The character of the standard base64 alphabet for the six-bit value `v`.
pub open spec fn base64_char(v: int) -> char {
    if v < 26 {
        (v + 65) as char
    } else if v < 52 {
        (v + 71) as char
    } else if v < 62 {
        (v - 4) as char
    } else if v == 62 {
        '+'
    } else {
        '/'
    }
}

/// Standard base64 (RFC 4648 alphabet, padded with `=`) of `d`: every three
/// bytes become four characters, and a final one or two bytes become four
/// characters ending in `==` or `=`.
pub open spec fn base64_standard(d: Seq<u8>) -> Seq<char>
    decreases d.len(),
{
    let b0: int = d[0] as int;
    let b1: int = d[1] as int;
    let b2: int = d[2] as int;
    if d.len() == 0 {
        seq![]
    } else if d.len() == 1 {
        seq![base64_char(b0 / 4), base64_char((b0 % 4) * 16), '=', '=']
    } else if d.len() == 2 {
        seq![
            base64_char(b0 / 4),
            base64_char((b0 % 4) * 16 + b1 / 16),
            base64_char((b1 % 16) * 4),
            '=',
        ]
    } else {
        seq![
            base64_char(b0 / 4),
            base64_char((b0 % 4) * 16 + b1 / 16),
            base64_char((b1 % 16) * 4 + b2 / 64),
            base64_char(b2 % 64),
        ] + base64_standard(d.skip(3))
    }
}

/// Length of the padded base64 text of `n` bytes.
pub open spec fn base64_len(n: nat) -> nat {
    if n % 3 == 0 {
        n / 3 * 4
    } else {
        n / 3 * 4 + 4
    }
}

/// `base64::encode` (standard alphabet, padded). The crate panics when the
/// encoded length overflows `usize`, which `requires` leaves out; the result
/// is stated in full by `base64_standard`.
#[verifier::external_body]
pub(crate) fn base64_encode(data: &[u8]) -> (r: String)
    requires
        base64_len(data@.len()) <= usize::MAX,
    ensures
        r@ == base64_standard(data@),
{
    base64::encode(data)
}

/// Base64 text has `base64_len` characters, all of them ASCII.
pub proof fn lemma_base64_shape(d: Seq<u8>)
    ensures
        base64_standard(d).len() == base64_len(d.len()),
        vstd::utf8::is_ascii_chars(base64_standard(d)),
    decreases d.len(),
{
    let e = base64_standard(d);
    if d.len() >= 3 {
        lemma_base64_shape(d.skip(3));
        assert(d.skip(3).len() == d.len() - 3);
        assert forall|i: int| 0 <= i < e.len() implies '\0' <= #[trigger] e[i] <= '\u{7f}' by {
            if i >= 4 {
                assert(e[i] == base64_standard(d.skip(3))[i - 4]);
            }
        }
    }
}

/// The six-bit value of a character of the standard base64 alphabet.
pub open spec fn base64_value(c: char) -> int {
    if 'A' <= c <= 'Z' {
        (c as int) - 65
    } else if 'a' <= c <= 'z' {
        (c as int) - 71
    } else if '0' <= c <= '9' {
        (c as int) + 4
    } else if c == '+' {
        62
    } else {
        63
    }
}

/// Decoding of padded standard base64 text: every four characters give three
/// bytes, or one or two bytes when the group ends in `==` or `=`.
pub open spec fn base64_decoded(t: Seq<char>) -> Seq<u8>
    decreases t.len(),
{
    if t.len() < 4 {
        seq![]
    } else {
        let v0: int = base64_value(t[0]);
        let v1: int = base64_value(t[1]);
        let v2: int = base64_value(t[2]);
        let v3: int = base64_value(t[3]);
        let x0: u8 = (v0 * 4 + v1 / 16) as u8;
        let x1: u8 = ((v1 % 16) * 16 + v2 / 4) as u8;
        let x2: u8 = ((v2 % 4) * 64 + v3) as u8;
        if t[2] == '=' {
            seq![x0]
        } else if t[3] == '=' {
            seq![x0, x1]
        } else {
            seq![x0, x1, x2] + base64_decoded(t.skip(4))
        }
    }
}

proof fn lemma_base64_char(v: int)
    requires
        0 <= v < 64,
    ensures
        base64_value(base64_char(v)) == v,
        base64_char(v) != '=',
{
    if v < 26 {
        assert(((v + 65) as char) as int == v + 65);
    } else if v < 52 {
        assert(((v + 71) as char) as int == v + 71);
    } else if v < 62 {
        assert(((v - 4) as char) as int == v - 4);
    }
}

/// Base64 text decodes back to the bytes it was made from: nothing of an
/// uploaded file is lost in its text form.
pub proof fn lemma_base64_roundtrip(d: Seq<u8>)
    ensures
        base64_decoded(base64_standard(d)) == d,
    decreases d.len(),
{
    let e = base64_standard(d);
    if d.len() > 0 {
        let b0: int = d[0] as int;
        let b1: int = if d.len() > 1 { d[1] as int } else { 0 };
        let b2: int = if d.len() > 2 { d[2] as int } else { 0 };
        let v0: int = b0 / 4;
        let v1: int = (b0 % 4) * 16 + b1 / 16;
        let v2: int = (b1 % 16) * 4 + b2 / 64;
        let v3: int = b2 % 64;
        lemma_base64_char(v0);
        lemma_base64_char(v1);
        lemma_base64_char(v2);
        lemma_base64_char(v3);
        assert(v0 * 4 + v1 / 16 == b0);
        assert((v1 % 16) * 16 + v2 / 4 == b1);
        assert((v2 % 4) * 64 + v3 == b2);
        if d.len() == 1 {
            assert(e[2] == '=');
            assert(base64_decoded(e) =~= d);
        } else if d.len() == 2 {
            assert(e[2] != '=' && e[3] == '=');
            assert(base64_decoded(e) =~= d);
        } else {
            lemma_base64_roundtrip(d.skip(3));
            assert(e.skip(4) =~= base64_standard(d.skip(3)));
            assert(e[2] != '=' && e[3] != '=');
            assert(base64_decoded(e) =~= seq![d[0], d[1], d[2]] + d.skip(3));
            assert(seq![d[0], d[1], d[2]] + d.skip(3) =~= d);
        }
    }
}

} // verus!
