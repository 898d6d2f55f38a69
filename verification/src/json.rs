//! JSON text for the request bodies. String values are quoted and escaped
//! by `serde_json`; the objects around them are written with their keys in
//! the sorted order in which `serde_json` prints a `Value` object.

use vstd::prelude::*;
use crate::text::{digit_char, lemma_digit_roundtrip, string_views};

verus! {

/// `serde_json::Error`, which `serde_json::to_string` may return.
#[verifier::external_type_specification]
#[verifier::external_body]
pub struct ExJsonError(serde_json::Error);

/// How `serde_json` writes one character inside a JSON string: `"` and `\`
/// and the control characters below U+0020 are escaped (`\b \t \n \f \r`
/// by name, the rest as `\u00XX` with lower-case hex digits); every other
/// character stands for itself.
pub open spec fn json_escape(c: char) -> Seq<char> {
    if c == '"' {
        seq!['\\', '"']
    } else if c == '\\' {
        seq!['\\', '\\']
    } else if c == '\u{8}' {
        seq!['\\', 'b']
    } else if c == '\t' {
        seq!['\\', 't']
    } else if c == '\n' {
        seq!['\\', 'n']
    } else if c == '\u{c}' {
        seq!['\\', 'f']
    } else if c == '\r' {
        seq!['\\', 'r']
    } else if (c as int) < 32 {
        seq!['\\', 'u', '0', '0', digit_char((c as int) / 16), digit_char((c as int) % 16)]
    } else {
        seq![c]
    }
}

/// The escaped contents of a JSON string holding `s`.
pub open spec fn json_escaped(s: Seq<char>) -> Seq<char>
    decreases s.len(),
{
    if s.len() == 0 {
        seq![]
    } else {
        json_escape(s[0]) + json_escaped(s.drop_first())
    }
}

/// The JSON string literal for `s`, quotes included.
pub open spec fn json_quoted(s: Seq<char>) -> Seq<char> {
    seq!['"'] + json_escaped(s) + seq!['"']
}

/// `serde_json::to_string` applied to a `&str`: the JSON string literal
/// for `s`. Serialising a string into memory cannot fail (the writer is a
/// `Vec<u8>`), so the contract states `Ok` and the exact text, following
/// `format_escaped_str` and its `ESCAPE` table in serde_json's `ser.rs`.
#[verifier::external_body]
pub(crate) fn json_string(s: &str) -> (r: Result<String, serde_json::Error>)
    ensures
        r.is_ok(),
        r.unwrap()@ == json_quoted(s@),
{
    serde_json::to_string(s)
}

/// Appends the JSON string literal for `s` to `out`.
pub fn push_json_string(out: &mut String, s: &str)
    ensures
        final(out)@ == old(out)@ + json_quoted(s@),
{
    match json_string(s) {
        Ok(t) => out.append(t.as_str()),
        Err(_) => {},
    }
}

/// Returns the JSON string literal for `s`.
pub fn quote(s: &str) -> (r: String)
    ensures
        r@ == json_quoted(s@),
{
    let mut out = String::new();
    push_json_string(&mut out, s);
    assert(out@ =~= json_quoted(s@));
    out
}

/// The views of a vector of string pairs.
pub open spec fn pair_views(v: Seq<(String, String)>) -> Seq<(Seq<char>, Seq<char>)> {
    v.map_values(|p: (String, String)| (p.0@, p.1@))
}

/// One member `"key":value` of a JSON object; the value is JSON text.
pub open spec fn json_member(m: (Seq<char>, Seq<char>)) -> Seq<char> {
    json_quoted(m.0) + ":"@ + m.1
}

/// The members of a JSON object, separated by commas (no white space, as
/// `serde_json` writes them).
pub open spec fn json_members(m: Seq<(Seq<char>, Seq<char>)>) -> Seq<char>
    decreases m.len(),
{
    if m.len() == 0 {
        seq![]
    } else if m.len() == 1 {
        json_member(m[0])
    } else {
        json_members(m.drop_last()) + ","@ + json_member(m.last())
    }
}

/// The JSON object with the members `m`, in this order.
pub open spec fn json_object(m: Seq<(Seq<char>, Seq<char>)>) -> Seq<char> {
    "{"@ + json_members(m) + "}"@
}

/// The items of a JSON array, separated by commas.
pub open spec fn json_items(v: Seq<Seq<char>>) -> Seq<char>
    decreases v.len(),
{
    if v.len() == 0 {
        seq![]
    } else if v.len() == 1 {
        v[0]
    } else {
        json_items(v.drop_last()) + ","@ + v.last()
    }
}

/// The JSON array with the items `v` (JSON texts), in this order.
pub open spec fn json_array(v: Seq<Seq<char>>) -> Seq<char> {
    "["@ + json_items(v) + "]"@
}

/// Lexicographic order of character strings, which is also the byte order
/// of their UTF-8 forms (the order of the keys of a `serde_json` object).
pub open spec fn seq_less(a: Seq<char>, b: Seq<char>) -> bool
    decreases a.len(),
{
    if b.len() == 0 {
        false
    } else if a.len() == 0 {
        true
    } else if a[0] != b[0] {
        a[0] < b[0]
    } else {
        seq_less(a.drop_first(), b.drop_first())
    }
}

/// Whether the keys of `m` strictly increase: each key once, in the order
/// in which `serde_json` prints the members of an object.
pub open spec fn keys_sorted(m: Seq<(Seq<char>, Seq<char>)>) -> bool {
    forall|i: int| 0 <= i < m.len() - 1 ==> seq_less(#[trigger] m[i].0, m[i + 1].0)
}

/// Writes the JSON object whose members are the keys in `members`, quoted
/// by `serde_json`, with the JSON texts beside them as values.
pub fn object_text(members: &Vec<(String, String)>) -> (r: String)
    ensures
        r@ == json_object(pair_views(members@)),
{
    let ghost m = pair_views(members@);
    let mut out = String::from_str("{");
    let mut i: usize = 0;
    while i < members.len()
        invariant
            i <= members@.len(),
            m == pair_views(members@),
            out@ == "{"@ + json_members(m.take(i as int)),
        decreases members@.len() - i,
    {
        let ghost before = out@;
        if i > 0 {
            out.append(",");
        }
        push_json_string(&mut out, members[i].0.as_str());
        out.append(":");
        out.append(members[i].1.as_str());
        proof {
            let t = m.take(i + 1);
            assert(t.drop_last() =~= m.take(i as int));
            assert(t.last() == m[i as int]);
            assert(m[i as int] == (members@[i as int].0@, members@[i as int].1@));
            if i == 0 {
                assert(m.take(0) =~= Seq::<(Seq<char>, Seq<char>)>::empty());
                assert(out@ =~= "{"@ + json_members(t));
            } else {
                assert(out@ =~= "{"@ + json_members(t));
            }
        }
        i = i + 1;
    }
    assert(m.take(members@.len() as int) =~= m);
    out.append("}");
    out
}

/// Writes the JSON array of the JSON texts `items`.
pub fn array_text(items: &Vec<String>) -> (r: String)
    ensures
        r@ == json_array(string_views(items@)),
{
    let ghost v = string_views(items@);
    let mut out = String::from_str("[");
    let mut i: usize = 0;
    while i < items.len()
        invariant
            i <= items@.len(),
            v == string_views(items@),
            out@ == "["@ + json_items(v.take(i as int)),
        decreases items@.len() - i,
    {
        if i > 0 {
            out.append(",");
        }
        out.append(items[i].as_str());
        proof {
            let t = v.take(i + 1);
            assert(t.drop_last() =~= v.take(i as int));
            assert(t.last() == items@[i as int]@);
            if i == 0 {
                assert(out@ =~= "["@ + json_items(t));
            } else {
                assert(out@ =~= "["@ + json_items(t));
            }
        }
        i = i + 1;
    }
    assert(v.take(items@.len() as int) =~= v);
    out.append("]");
    out
}

/// Value of a hexadecimal digit as a JSON reader takes it (either case).
pub open spec fn json_hex_value(c: char) -> int {
    if '0' <= c <= '9' {
        (c as int) - 48
    } else if 'a' <= c <= 'f' {
        (c as int) - 87
    } else {
        (c as int) - 55
    }
}

/// The character that a two-character escape `\e` stands for in JSON.
pub open spec fn json_unescape_char(e: char) -> char {
    if e == 'b' {
        '\u{8}'
    } else if e == 'f' {
        '\u{c}'
    } else if e == 'n' {
        '\n'
    } else if e == 'r' {
        '\r'
    } else if e == 't' {
        '\t'
    } else {
        e
    }
}

/// How a JSON reader decodes the contents of a string literal: `\uXXXX`
/// stands for the character with that code, `\e` for the character that
/// `json_unescape_char` gives, and any other character for itself.
pub open spec fn json_unescaped(t: Seq<char>) -> Seq<char>
    decreases t.len(),
{
    if t.len() == 0 {
        seq![]
    } else if t[0] == '\\' && t.len() >= 6 && t[1] == 'u' {
        seq![
            (json_hex_value(t[2]) * 4096 + json_hex_value(t[3]) * 256 + json_hex_value(t[4]) * 16
                + json_hex_value(t[5])) as char,
        ] + json_unescaped(t.skip(6))
    } else if t[0] == '\\' && t.len() >= 2 {
        seq![json_unescape_char(t[1])] + json_unescaped(t.skip(2))
    } else {
        seq![t[0]] + json_unescaped(t.skip(1))
    }
}

proof fn lemma_unescape_one(c: char, rest: Seq<char>)
    ensures
        json_unescaped(json_escape(c) + rest) == seq![c] + json_unescaped(rest),
{
    let e = json_escape(c);
    let t = e + rest;
    assert(t.skip(e.len() as int) =~= rest);
    if c == '"' || c == '\\' || c == '\u{8}' || c == '\t' || c == '\n' || c == '\u{c}' || c == '\r' {
        assert(t[0] == '\\' && t[1] != 'u');
        assert(json_unescaped(t) == seq![json_unescape_char(t[1])] + json_unescaped(t.skip(2)));
    } else if (c as int) < 32 {
        let v: int = c as int;
        lemma_digit_roundtrip(v / 16);
        lemma_digit_roundtrip(v % 16);
        assert(t[2] == '0' && t[3] == '0');
        assert(json_hex_value(t[4]) == v / 16);
        assert(json_hex_value(t[5]) == v % 16);
        assert((v / 16) * 16 + v % 16 == v);
        assert((v as char) == c);
    } else {
        assert(t[0] == c);
        assert(json_unescaped(t) == seq![c] + json_unescaped(t.skip(1)));
    }
}

/// A JSON reader gets back exactly the string that was escaped: whatever
/// text goes into a request body arrives unchanged.
pub proof fn lemma_json_escape_roundtrip(s: Seq<char>)
    ensures
        json_unescaped(json_escaped(s)) == s,
    decreases s.len(),
{
    if s.len() > 0 {
        lemma_json_escape_roundtrip(s.drop_first());
        lemma_unescape_one(s[0], json_escaped(s.drop_first()));
        assert(seq![s[0]] + s.drop_first() =~= s);
    }
}

/// The string that a JSON reader gets from the string literal `t` (the text
/// between its quotes, unescaped).
pub open spec fn json_string_value(t: Seq<char>) -> Seq<char> {
    json_unescaped(t.subrange(1, t.len() - 1))
}

/// A quoted string reads back as the whole string, whatever its length.
pub proof fn lemma_json_quoted_value(s: Seq<char>)
    ensures
        json_string_value(json_quoted(s)) == s,
        json_quoted(s).len() >= 2,
        json_quoted(s)[0] == '"',
        json_quoted(s).last() == '"',
{
    let q = json_quoted(s);
    assert(q.subrange(1, q.len() - 1) =~= json_escaped(s));
    lemma_json_escape_roundtrip(s);
}

} // verus!
