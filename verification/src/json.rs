//! JSON string literals, as serde_json writes them.

use vstd::prelude::*;

verus! {

/// Declares `serde_json::Error` to the verifier; nothing inside it is read.
#[verifier::external_type_specification]
#[verifier::external_body]
pub struct ExJsonError(serde_json::Error);

/// Lower-case hexadecimal digit for `d < 16`.
pub open spec fn hex_digit(d: nat) -> char {
    if d < 10 {
        (48 + d) as char
    } else {
        (87 + d) as char
    }
}

/// How one character is written inside a JSON string: `"` and `\` and the
/// control characters below U+0020 are escaped, everything else is kept.
pub open spec fn json_escape_char(c: char) -> Seq<char> {
    if c == '"' {
        seq!['\\', '"']
    } else if c == '\\' {
        seq!['\\', '\\']
    } else if c == '\u{8}' {
        seq!['\\', 'b']
    } else if c == '\t' {
        seq!['\\', 't']
    } else if c == '\n' {
        seq!['\\', 'n']
    } else if c == '\u{c}' {
        seq!['\\', 'f']
    } else if c == '\r' {
        seq!['\\', 'r']
    } else if (c as int) < 0x20 {
        seq!['\\', 'u', '0', '0', hex_digit((c as nat) / 16), hex_digit((c as nat) % 16)]
    } else {
        seq![c]
    }
}

/// The escaped body of a JSON string holding `s`.
pub open spec fn json_escaped(s: Seq<char>) -> Seq<char>
    decreases s.len(),
{
    if s.len() == 0 {
        Seq::empty()
    } else {
        json_escaped(s.drop_last()) + json_escape_char(s.last())
    }
}

/// The JSON string literal that denotes `s`.
pub open spec fn json_quoted(s: Seq<char>) -> Seq<char> {
    seq!['"'] + json_escaped(s) + seq!['"']
}

/// `serde_json::to_string` on a string slice. Per serde_json's string
/// serializer (`format_escaped_str` and its `ESCAPE` table), the result is
/// the quoted string with `"`, `\`, `\b`, `\t`, `\n`, `\f`, `\r` escaped by a
/// backslash and other control characters below U+0020 as `\u00xx` in lower
/// case hex; a string slice serialized into memory cannot fail.
#[verifier::external_body]
fn serde_json_quote(s: &str) -> (r: Result<String, serde_json::Error>)
    ensures
        r is Ok,
        r.unwrap()@ == json_quoted(s@),
{
    serde_json::to_string(s)
}

/// The JSON string literal denoting `s` (an empty literal should the
/// serializer fail).
pub fn escape_json(s: &str) -> (r: String)
    ensures
        r@ == json_quoted(s@),
        json_string_value(r@) == Some(s@),
{
    proof {
        lemma_json_quoted_roundtrip(s@);
    }
    match serde_json_quote(s) {
        Ok(v) => v,
        Err(_) => String::from_str("\"\""),
    }
}


/// The value of a hexadecimal digit.
pub open spec fn hex_value(c: char) -> Option<nat> {
    if '0' <= c && c <= '9' {
        Some((c as nat - 48) as nat)
    } else if 'a' <= c && c <= 'f' {
        Some((c as nat - 87) as nat)
    } else if 'A' <= c && c <= 'F' {
        Some((c as nat - 55) as nat)
    } else {
        None
    }
}

/// The character a one-letter escape `\e` stands for.
pub open spec fn short_escape(e: char) -> Option<char> {
    if e == '"' {
        Some('"')
    } else if e == '\\' {
        Some('\\')
    } else if e == '/' {
        Some('/')
    } else if e == 'b' {
        Some('\u{8}')
    } else if e == 'f' {
        Some('\u{c}')
    } else if e == 'n' {
        Some('\n')
    } else if e == 'r' {
        Some('\r')
    } else if e == 't' {
        Some('\t')
    } else {
        None
    }
}

/// The code point written by the four hex digits `t[2..6]` of a `\uXXXX`
/// escape at the start of `t`.
pub open spec fn unicode_escape_value(t: Seq<char>) -> Option<nat> {
    if t.len() >= 6 && hex_value(t[2]) is Some && hex_value(t[3]) is Some && hex_value(t[4]) is Some
        && hex_value(t[5]) is Some {
        Some(
            hex_value(t[2])->0 * 4096 + hex_value(t[3])->0 * 256 + hex_value(t[4])->0 * 16
                + hex_value(t[5])->0,
        )
    } else {
        None
    }
}

/// Prepends `c` to a decoded text, if there is one.
pub open spec fn prepend(c: char, r: Option<Seq<char>>) -> Option<Seq<char>> {
    match r {
        Some(x) => Some(seq![c] + x),
        None => None,
    }
}

/// The text that the body of a JSON string denotes, by the string grammar
/// of RFC 8259: unescaped characters from U+0020 up other than `"` and `\`,
/// the one-letter escapes, and `\uXXXX` for code points outside the
/// surrogate range (a surrogate pair is not read). `None` if `t` is not
/// such a body.
pub open spec fn json_unescaped(t: Seq<char>) -> Option<Seq<char>>
    decreases t.len(),
{
    if t.len() == 0 {
        Some(Seq::empty())
    } else if t[0] == '\\' {
        if t.len() < 2 {
            None
        } else if short_escape(t[1]) is Some {
            prepend(short_escape(t[1])->0, json_unescaped(t.subrange(2, t.len() as int)))
        } else if t[1] == 'u' && unicode_escape_value(t) is Some {
            let v = unicode_escape_value(t)->0;
            if v < 0xD800 || (0xE000 <= v && v <= 0xFFFF) {
                prepend(v as char, json_unescaped(t.subrange(6, t.len() as int)))
            } else {
                None
            }
        } else {
            None
        }
    } else if t[0] == '"' || (t[0] as int) < 0x20 {
        None
    } else {
        prepend(t[0], json_unescaped(t.drop_first()))
    }
}

/// The text a JSON string literal denotes, if `lit` is one.
pub open spec fn json_string_value(lit: Seq<char>) -> Option<Seq<char>> {
    if lit.len() >= 2 && lit[0] == '"' && lit.last() == '"' {
        json_unescaped(lit.subrange(1, lit.len() - 1))
    } else {
        None
    }
}

proof fn lemma_escaped_cons(c: char, s: Seq<char>)
    ensures
        json_escaped(seq![c] + s) == json_escape_char(c) + json_escaped(s),
    decreases s.len(),
{
    if s.len() == 0 {
        let t = seq![c] + s;
        assert(t.drop_last() =~= Seq::<char>::empty());
        assert(t.last() == c);
        assert(json_escaped(t) == json_escaped(t.drop_last()) + json_escape_char(c));
        assert(json_escaped(Seq::<char>::empty()) =~= Seq::<char>::empty());
        assert(json_escaped(t) =~= json_escape_char(c));
    } else {
        assert((seq![c] + s).drop_last() =~= seq![c] + s.drop_last());
        lemma_escaped_cons(c, s.drop_last());
        assert(json_escaped(seq![c] + s) =~= json_escape_char(c) + json_escaped(s));
    }
}

proof fn lemma_hex_digit_value(d: nat)
    requires
        d < 16,
    ensures
        hex_value(hex_digit(d)) == Some(d),
{
    if d < 10 {
        assert(hex_digit(d) as nat == 48 + d);
    } else {
        assert(hex_digit(d) as nat == 87 + d);
    }
}

proof fn lemma_unescape_one(c: char, rest: Seq<char>)
    ensures
        json_unescaped(json_escape_char(c) + rest) == prepend(c, json_unescaped(rest)),
{
    let e = json_escape_char(c);
    let t = e + rest;
    if e.len() == 2 {
        assert(t.subrange(2, t.len() as int) =~= rest);
    } else if e.len() == 6 {
        let hi = (c as nat) / 16;
        let lo = (c as nat) % 16;
        lemma_hex_digit_value(hi);
        lemma_hex_digit_value(lo);
        assert(t[2] == '0' && t[3] == '0' && t[4] == hex_digit(hi) && t[5] == hex_digit(lo));
        assert(hex_value('0') == Some(0nat));
        assert(unicode_escape_value(t) == Some(hi * 16 + lo));
        assert(hi * 16 + lo == c as nat);
        assert((c as nat) as char == c);
        assert(t.subrange(6, t.len() as int) =~= rest);
    } else {
        assert(t.drop_first() =~= rest);
    }
}

proof fn lemma_unescape_escaped(s: Seq<char>)
    ensures
        json_unescaped(json_escaped(s)) == Some(s),
    decreases s.len(),
{
    if s.len() == 0 {
    } else {
        let c = s[0];
        let r = s.drop_first();
        assert(s =~= seq![c] + r);
        lemma_escaped_cons(c, r);
        lemma_unescape_escaped(r);
        lemma_unescape_one(c, json_escaped(r));
        assert(seq![c] + r =~= s);
    }
}

proof fn lemma_escape_char_no_control(c: char)
    ensures
        forall|i: int| 0 <= i < json_escape_char(c).len() ==> (#[trigger] json_escape_char(c)[i] as int) >= 0x20,
{
    let e = json_escape_char(c);
    if (c as int) < 0x20 {
        let n: nat = c as nat;
        assert(n / 16 < 16) by (nonlinear_arith)
            requires
                n < 32,
        ;
        lemma_hex_digit_value(n / 16);
        lemma_hex_digit_value(n % 16);
        assert(hex_digit(n / 16) as int >= 48);
        assert(hex_digit(n % 16) as int >= 48);
    }
    assert forall|i: int| 0 <= i < e.len() implies (#[trigger] e[i] as int) >= 0x20 by {}
}

proof fn lemma_escaped_no_control(s: Seq<char>)
    ensures
        forall|i: int| 0 <= i < json_escaped(s).len() ==> (#[trigger] json_escaped(s)[i] as int) >= 0x20,
    decreases s.len(),
{
    if s.len() > 0 {
        lemma_escaped_no_control(s.drop_last());
        let e = json_escape_char(s.last());
        lemma_escape_char_no_control(s.last());
        let a = json_escaped(s.drop_last());
        assert forall|i: int| 0 <= i < json_escaped(s).len() implies (#[trigger] json_escaped(s)[i] as int) >= 0x20 by {
            if i < a.len() {
                assert(json_escaped(s)[i] == a[i]);
            } else {
                assert(json_escaped(s)[i] == e[i - a.len()]);
            }
        }
    }
}

/// The JSON string literal written for any text is quoted, holds no raw
/// control character, and reads back as that text.
pub proof fn lemma_json_quoted_roundtrip(s: Seq<char>)
    ensures
        json_quoted(s)[0] == '"',
        json_quoted(s).last() == '"',
        forall|i: int| 0 <= i < json_quoted(s).len() ==> (#[trigger] json_quoted(s)[i] as int) >= 0x20,
        json_string_value(json_quoted(s)) == Some(s),
{
    let q = json_quoted(s);
    let b = json_escaped(s);
    lemma_escaped_no_control(s);
    lemma_unescape_escaped(s);
    assert(q.subrange(1, q.len() - 1) =~= b);
    assert forall|i: int| 0 <= i < q.len() implies (#[trigger] q[i] as int) >= 0x20 by {
        if 1 <= i < q.len() - 1 {
            assert(q[i] == b[i - 1]);
        }
    }
}

} // verus!
