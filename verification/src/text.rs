//! Text building blocks: decimal and hexadecimal numerals.

use vstd::prelude::*;

verus! {

/// Appends one character to a string (`String::push` from std).
#[verifier::external_body]
pub(crate) fn push_char(s: &mut String, c: char)
    ensures
        final(s)@ == old(s)@.push(c),
{
    s.push(c);
}

/// The character that stands for the digit `d` (below 16), in lower case.
pub open spec fn digit_char(d: int) -> char {
    if d < 10 {
        (d + 48) as char
    } else {
        (d + 87) as char
    }
}

/// The digit value of a decimal or lower-case hexadecimal digit character.
pub open spec fn digit_value(c: char) -> int {
    if '0' <= c <= '9' {
        (c as int) - 48
    } else {
        (c as int) - 87
    }
}

/// Exec form of `digit_char`.
pub fn digit(d: u8) -> (c: char)
    requires
        d < 16,
    ensures
        c == digit_char(d as int),
{
    if d < 10 {
        (d + 48) as char
    } else {
        (d + 87) as char
    }
}

/// Decimal numeral of `n`, without leading zeros (as `usize::to_string` writes it).
pub open spec fn decimal(n: nat) -> Seq<char>
    decreases n,
{
    if n < 10 {
        seq![digit_char(n as int)]
    } else {
        decimal(n / 10).push(digit_char((n % 10) as int))
    }
}

/// The number that a string of decimal digits denotes.
pub open spec fn decimal_value(s: Seq<char>) -> int
    decreases s.len(),
{
    if s.len() == 0 {
        0
    } else {
        decimal_value(s.drop_last()) * 10 + digit_value(s.last())
    }
}

/// Appends the decimal numeral of `n` to `s`.
pub(crate) fn push_decimal(s: &mut String, n: usize)
    ensures
        final(s)@ == old(s)@ + decimal(n as nat),
    decreases n,
{
    if n >= 10 {
        push_decimal(s, n / 10);
    }
    let d: u8 = (n % 10) as u8;
    push_char(s, digit(d));
    proof {
        assert(old(s)@ + decimal(n as nat) =~= final(s)@) by {
            if n >= 10 {
                assert(decimal(n as nat) == decimal((n / 10) as nat).push(digit_char((n % 10) as int)));
            }
        }
    }
}

/// The decimal numeral of `n`.
pub fn decimal_string(n: usize) -> (r: String)
    ensures
        r@ == decimal(n as nat),
{
    let mut s = String::new();
    push_decimal(&mut s, n);
    s
}

/// A digit character reads back as the digit it was written for.
pub proof fn lemma_digit_roundtrip(d: int)
    requires
        0 <= d < 16,
    ensures
        digit_value(digit_char(d)) == d,
        d < 10 ==> '0' <= digit_char(d) <= '9',
        d >= 10 ==> 'a' <= digit_char(d) <= 'f',
{
    if d < 10 {
        assert(((d + 48) as char) as int == d + 48);
    } else {
        assert(((d + 87) as char) as int == d + 87);
    }
}

/// A decimal numeral denotes the number it was written for.
pub proof fn lemma_decimal_roundtrip(n: nat)
    ensures
        decimal_value(decimal(n)) == n,
        decimal(n).len() >= 1,
        forall|i: int| 0 <= i < decimal(n).len() ==> '0' <= #[trigger] decimal(n)[i] <= '9',
    decreases n,
{
    lemma_digit_roundtrip((n % 10) as int);
    if n < 10 {
        assert(decimal(n).drop_last() =~= Seq::<char>::empty());
        assert(decimal_value(decimal(n)) == decimal_value(Seq::<char>::empty()) * 10 + digit_value(digit_char(n as int)));
    } else {
        lemma_decimal_roundtrip(n / 10);
        let d = decimal(n);
        assert(d.drop_last() =~= decimal(n / 10));
        assert(d.last() == digit_char((n % 10) as int));
        assert(decimal_value(d) == decimal_value(decimal(n / 10)) * 10 + digit_value(d.last()));
        assert((n / 10) * 10 + n % 10 == n);
        assert forall|i: int| 0 <= i < d.len() implies '0' <= #[trigger] d[i] <= '9' by {
            if i < d.len() - 1 {
                assert(d[i] == decimal(n / 10)[i]);
            }
        }
    }
}

/// Lower-case hexadecimal text of a byte string, two digits per byte
/// (the `{:02x}` format applied to each byte in turn).
pub open spec fn hex_lower(bytes: Seq<u8>) -> Seq<char>
    decreases bytes.len(),
{
    if bytes.len() == 0 {
        seq![]
    } else {
        hex_lower(bytes.drop_last()) + seq![
            digit_char((bytes.last() / 16) as int),
            digit_char((bytes.last() % 16) as int),
        ]
    }
}

/// The bytes that a string of hexadecimal digit pairs denotes.
pub open spec fn hex_bytes(s: Seq<char>) -> Seq<u8>
    decreases s.len(),
{
    if s.len() < 2 {
        seq![]
    } else {
        hex_bytes(s.subrange(0, s.len() - 2)).push(
            (digit_value(s[s.len() - 2]) * 16 + digit_value(s[s.len() - 1])) as u8,
        )
    }
}

/// Writes `bytes` as lower-case hexadecimal text.
pub fn hex_lower_string(bytes: &[u8]) -> (r: String)
    ensures
        r@ == hex_lower(bytes@),
{
    let mut s = String::new();
    let mut i: usize = 0;
    while i < bytes.len()
        invariant
            i <= bytes@.len(),
            s@ == hex_lower(bytes@.take(i as int)),
        decreases bytes@.len() - i,
    {
        let b: u8 = bytes[i];
        push_char(&mut s, digit(b / 16));
        push_char(&mut s, digit(b % 16));
        proof {
            let t = bytes@.take(i + 1);
            assert(t.drop_last() =~= bytes@.take(i as int));
            assert(t.last() == b);
            assert(s@ =~= hex_lower(t));
        }
        i = i + 1;
    }
    assert(bytes@.take(bytes@.len() as int) =~= bytes@);
    s
}

/// Hexadecimal text has two lower-case digits per byte and reads back as the
/// bytes it was written for.
pub proof fn lemma_hex_roundtrip(bytes: Seq<u8>)
    ensures
        hex_lower(bytes).len() == 2 * bytes.len(),
        hex_bytes(hex_lower(bytes)) == bytes,
        forall|i: int|
            0 <= i < hex_lower(bytes).len() ==> ('0' <= #[trigger] hex_lower(bytes)[i] <= '9'
                || 'a' <= hex_lower(bytes)[i] <= 'f'),
    decreases bytes.len(),
{
    if bytes.len() > 0 {
        let prev = bytes.drop_last();
        lemma_hex_roundtrip(prev);
        let b: u8 = bytes.last();
        let h = hex_lower(bytes);
        lemma_digit_roundtrip((b / 16) as int);
        lemma_digit_roundtrip((b % 16) as int);
        assert(h.subrange(0, h.len() - 2) =~= hex_lower(prev));
        assert(h[h.len() - 2] == digit_char((b / 16) as int));
        assert(h[h.len() - 1] == digit_char((b % 16) as int));
        assert(((b / 16) * 16 + b % 16) as u8 == b);
        assert(hex_bytes(h) =~= bytes);
        assert forall|i: int| 0 <= i < h.len() implies ('0' <= #[trigger] h[i] <= '9' || 'a' <= h[i]
            <= 'f') by {
            if i < h.len() - 2 {
                assert(h[i] == hex_lower(prev)[i]);
            }
        }
    }
}

/// Whether `c` has the Unicode White_Space property (what `char::is_whitespace` tests).
pub open spec fn is_white_space(c: char) -> bool {
    ||| '\u{9}' <= c <= '\u{d}'
    ||| c == ' '
    ||| c == '\u{85}'
    ||| c == '\u{a0}'
    ||| c == '\u{1680}'
    ||| '\u{2000}' <= c <= '\u{200a}'
    ||| c == '\u{2028}'
    ||| c == '\u{2029}'
    ||| c == '\u{202f}'
    ||| c == '\u{205f}'
    ||| c == '\u{3000}'
}

/// Exec form of `is_white_space`.
pub fn white_space(c: char) -> (b: bool)
    ensures
        b == is_white_space(c),
{
    ('\u{9}' <= c && c <= '\u{d}') || c == ' ' || c == '\u{85}' || c == '\u{a0}' || c == '\u{1680}'
        || ('\u{2000}' <= c && c <= '\u{200a}') || c == '\u{2028}' || c == '\u{2029}' || c
        == '\u{202f}' || c == '\u{205f}' || c == '\u{3000}'
}

/// The words of `s` after a word in progress `cur`: the maximal runs of
/// characters without white space, in order.
pub open spec fn words_after(s: Seq<char>, cur: Seq<char>) -> Seq<Seq<char>>
    decreases s.len(),
{
    if s.len() == 0 {
        if cur.len() > 0 {
            seq![cur]
        } else {
            seq![]
        }
    } else if is_white_space(s[0]) {
        (if cur.len() > 0 {
            seq![cur]
        } else {
            seq![]
        }) + words_after(s.drop_first(), seq![])
    } else {
        words_after(s.drop_first(), cur.push(s[0]))
    }
}

/// The words of `s`, as `str::split_whitespace` yields them.
pub open spec fn words(s: Seq<char>) -> Seq<Seq<char>> {
    words_after(s, seq![])
}

/// Only characters with the Unicode White_Space property count as white
/// space: no printable ASCII character but the space does, nor any character
/// from U+3001 on.
pub proof fn lemma_white_space_chars(c: char)
    ensures
        '!' <= c <= '~' ==> !is_white_space(c),
        c == ' ' ==> is_white_space(c),
        (c as int) > 0x3000 ==> !is_white_space(c),
        is_white_space(c) ==> (c as int) <= 0x20 || (c as int) >= 0x85,
{
}

/// Whether `s` holds no white space.
pub open spec fn no_white_space(s: Seq<char>) -> bool {
    forall|i: int| 0 <= i < s.len() ==> !is_white_space(#[trigger] s[i])
}

/// Whether `s` holds only white space.
pub open spec fn all_white_space(s: Seq<char>) -> bool {
    forall|i: int| 0 <= i < s.len() ==> is_white_space(#[trigger] s[i])
}

proof fn lemma_words_run(w: Seq<char>, rest: Seq<char>, cur: Seq<char>)
    requires
        no_white_space(w),
    ensures
        words_after(w + rest, cur) == words_after(rest, cur + w),
    decreases w.len(),
{
    if w.len() == 0 {
        assert(w + rest =~= rest);
        assert(cur + w =~= cur);
    } else {
        let s = w + rest;
        assert(s[0] == w[0]);
        assert(s.drop_first() =~= w.drop_first() + rest);
        lemma_words_run(w.drop_first(), rest, cur.push(w[0]));
        assert(cur.push(w[0]) + w.drop_first() =~= cur + w);
    }
}

proof fn lemma_words_tail(tail: Seq<char>, cur: Seq<char>)
    requires
        all_white_space(tail),
    ensures
        words_after(tail, cur) == (if cur.len() > 0 {
            seq![cur]
        } else {
            Seq::<Seq<char>>::empty()
        }),
    decreases tail.len(),
{
    if tail.len() > 0 {
        lemma_words_tail(tail.drop_first(), seq![]);
        assert(words_after(tail.drop_first(), seq![]) =~= Seq::<Seq<char>>::empty());
        if cur.len() > 0 {
            assert(seq![cur] + Seq::<Seq<char>>::empty() =~= seq![cur]);
        } else {
            assert(Seq::<Seq<char>>::empty() + Seq::<Seq<char>>::empty() =~= Seq::<
                Seq<char>,
            >::empty());
        }
    }
}

/// The words of a request line `method target version` (single spaces
/// between, white space after) are exactly the method, the whole target and
/// the version: no character of a target without white space cuts it.
pub proof fn lemma_request_line_words(
    method: Seq<char>,
    target: Seq<char>,
    version: Seq<char>,
    tail: Seq<char>,
)
    requires
        method.len() > 0,
        target.len() > 0,
        version.len() > 0,
        no_white_space(method),
        no_white_space(target),
        no_white_space(version),
        all_white_space(tail),
    ensures
        words(method + seq![' '] + target + seq![' '] + version + tail) == seq![
            method,
            target,
            version,
        ],
{
    let e = Seq::<char>::empty();
    let rest2 = version + tail;
    let rest1 = target + (seq![' '] + rest2);
    let line = method + (seq![' '] + rest1);
    assert(line =~= method + seq![' '] + target + seq![' '] + version + tail);
    lemma_words_run(method, seq![' '] + rest1, e);
    assert(e + method =~= method);
    let s1 = seq![' '] + rest1;
    assert(s1[0] == ' ');
    assert(s1.drop_first() =~= rest1);
    lemma_words_run(target, seq![' '] + rest2, e);
    assert(e + target =~= target);
    let s2 = seq![' '] + rest2;
    assert(s2[0] == ' ');
    assert(s2.drop_first() =~= rest2);
    lemma_words_run(version, tail, e);
    assert(e + version =~= version);
    lemma_words_tail(tail, version);
    assert(words(line) =~= seq![method] + (seq![target] + seq![version]));
    assert(seq![method] + (seq![target] + seq![version]) =~= seq![method, target, version]);
}

/// The views of a vector of strings.
pub open spec fn string_views(v: Seq<String>) -> Seq<Seq<char>> {
    v.map_values(|w: String| w@)
}

/// The words of `s` (`str::split_whitespace`).
pub fn split_words(s: &str) -> (r: Vec<String>)
    ensures
        string_views(r@) == words(s@),
{
    let n: usize = s.unicode_len();
    let mut out: Vec<String> = Vec::new();
    let mut cur = String::new();
    let mut i: usize = 0;
    assert(s@.skip(0) =~= s@);
    while i < n
        invariant
            n == s@.len(),
            i <= n,
            words(s@) =~= string_views(out@) + words_after(s@.skip(i as int), cur@),
        decreases n - i,
    {
        let c = s.get_char(i);
        let ghost rest = s@.skip(i as int);
        assert(rest[0] == c);
        assert(rest.drop_first() =~= s@.skip(i + 1));
        if white_space(c) {
            if !cur.as_str().is_empty() {
                let ghost prev = out@;
                out.push(cur);
                assert(string_views(out@) =~= string_views(prev).push(cur@));
            }
            cur = String::new();
        } else {
            push_char(&mut cur, c);
        }
        i = i + 1;
    }
    if !cur.as_str().is_empty() {
        let ghost prev = out@;
        out.push(cur);
        assert(string_views(out@) =~= string_views(prev).push(cur@));
    }
    out
}

} // verus!
