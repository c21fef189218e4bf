//! The canonical text of a license payload: the compact JSON object whose
//! UTF-8 bytes are what a license signature signs.

use vstd::prelude::*;
use vstd::utf8::encode_utf8;
use crate::date::date_text;
use crate::license::LicensePayload;
use crate::external::json_string_literal;
use crate::laws::{lemma_canonical_text_reads_back, read_payload_object};
use crate::text::lower_hex_digit;

verus! {

/// The JSON escape of one character: quote, backslash and the control
/// characters below U+0020 are escaped (the short forms where JSON has one,
/// else `\u00xx` with lowercase digits); every other character stands as is.
pub open spec fn json_escaped_char(c: char) -> Seq<char> {
    if c == '"' {
        seq!['\\', '"']
    } else if c == '\\' {
        seq!['\\', '\\']
    } else if c == '\u{8}' {
        seq!['\\', 'b']
    } else if c == '\t' {
        seq!['\\', 't']
    } else if c == '\n' {
        seq!['\\', 'n']
    } else if c == '\u{c}' {
        seq!['\\', 'f']
    } else if c == '\r' {
        seq!['\\', 'r']
    } else if (c as u32) < 0x20 {
        seq![
            '\\',
            'u',
            '0',
            '0',
            lower_hex_digit((c as u32 / 16) as int),
            lower_hex_digit((c as u32 % 16) as int),
        ]
    } else {
        seq![c]
    }
}

pub open spec fn json_escaped(s: Seq<char>) -> Seq<char>
    decreases s.len(),
{
    if s.len() == 0 {
        Seq::empty()
    } else {
        json_escaped(s.drop_last()) + json_escaped_char(s.last())
    }
}

/// `s` as a JSON string literal.
pub open spec fn json_string(s: Seq<char>) -> Seq<char> {
    seq!['"'] + json_escaped(s) + seq!['"']
}

/// The compact JSON object of the payload, fields in their declared order:
/// `{"license_id":..,"licensee":..,"machine_id_hash":..,"issued_at":..,"expires_at":..}`
/// with the dates as `YYYY-MM-DD` strings.
pub open spec fn canonical_payload_text(p: LicensePayload) -> Seq<char> {
    "{\"license_id\":"@ + json_string(p.license_id@) + ",\"licensee\":"@ + json_string(
        p.licensee@,
    ) + ",\"machine_id_hash\":"@ + json_string(p.machine_id_hash@) + ",\"issued_at\":"@
        + json_string(date_text(p.issued_at@)) + ",\"expires_at\":"@ + json_string(
        date_text(p.expires_at@),
    ) + "}"@
}

/// The bytes a license signature signs: the UTF-8 encoding of the payload's
/// canonical JSON text.
pub open spec fn canonical_message(p: LicensePayload) -> Seq<u8> {
    encode_utf8(canonical_payload_text(p))
}

/// Appends `s` as a JSON string literal.
pub fn push_json_string(out: &mut String, s: &str)
    ensures
        final(out)@ == old(out)@ + json_string(s@),
{
    let literal = json_string_literal(s);
    out.append(literal.as_str());
}

/// The canonical JSON text of the payload.
pub fn canonical_payload_json(p: &LicensePayload) -> (text: String)
    ensures
        text@ == canonical_payload_text(*p),
        read_payload_object(text@) == Some(
            (
                p.license_id@,
                p.licensee@,
                p.machine_id_hash@,
                date_text(p.issued_at@),
                date_text(p.expires_at@),
            ),
        ),
{
    let mut text = String::new();
    text.append("{\"license_id\":");
    push_json_string(&mut text, p.license_id.as_str());
    text.append(",\"licensee\":");
    push_json_string(&mut text, p.licensee.as_str());
    text.append(",\"machine_id_hash\":");
    push_json_string(&mut text, p.machine_id_hash.as_str());
    text.append(",\"issued_at\":");
    let issued = p.issued_at.to_text();
    push_json_string(&mut text, issued.as_str());
    text.append(",\"expires_at\":");
    let expires = p.expires_at.to_text();
    push_json_string(&mut text, expires.as_str());
    text.append("}");
    assert(text@ =~= canonical_payload_text(*p));
    proof { lemma_canonical_text_reads_back(*p); }
    text
}

/// The bytes a license signature signs for this payload.
pub fn canonical_payload_message(p: &LicensePayload) -> (message: Vec<u8>)
    ensures
        message@ == canonical_message(*p),
{
    let text = canonical_payload_json(p);
    text.as_str().as_bytes_vec()
}


/// The characters that are written as an escape sequence.
pub open spec fn is_escaped_in_json(c: char) -> bool {
    c == '"' || c == '\\' || (c as u32) < 0x20
}

/// The escape of a character is never empty and never starts with a quote;
/// it starts with a backslash exactly for the escaped characters and is the
/// character itself for the others.
pub proof fn lemma_escaped_char_shape(c: char)
    ensures
        json_escaped_char(c).len() >= 1,
        json_escaped_char(c)[0] != '"',
        is_escaped_in_json(c) ==> json_escaped_char(c)[0] == '\\' && json_escaped_char(c).len()
            >= 2,
        !is_escaped_in_json(c) ==> json_escaped_char(c) == seq![c],
{
}

/// Hexadecimal digits name their value.
pub proof fn lemma_lower_hex_digit_injective(x: int, y: int)
    requires
        0 <= x < 16,
        0 <= y < 16,
        lower_hex_digit(x) == lower_hex_digit(y),
    ensures
        x == y,
{
}

/// Escapes are uniquely readable: an escape followed by anything determines
/// the escaped character and what follows.
pub proof fn lemma_escaped_char_prefix_free(a: char, b: char, u: Seq<char>, v: Seq<char>)
    requires
        json_escaped_char(a) + u == json_escaped_char(b) + v,
    ensures
        a == b,
        u == v,
{
    let ea = json_escaped_char(a);
    let eb = json_escaped_char(b);
    lemma_escaped_char_shape(a);
    lemma_escaped_char_shape(b);
    assert((ea + u)[0] == ea[0]);
    assert((eb + v)[0] == eb[0]);
    if !is_escaped_in_json(a) {
        assert(eb[0] == a);
        assert(!is_escaped_in_json(b));
        assert(a == b);
    } else {
        assert(is_escaped_in_json(b));
        assert((ea + u)[1] == ea[1]);
        assert((eb + v)[1] == eb[1]);
        assert(ea[1] == eb[1]);
        if ea[1] == 'u' {
            assert((ea + u)[4] == ea[4]);
            assert((eb + v)[4] == eb[4]);
            assert((ea + u)[5] == ea[5]);
            assert((eb + v)[5] == eb[5]);
            lemma_lower_hex_digit_injective((a as u32 / 16) as int, (b as u32 / 16) as int);
            lemma_lower_hex_digit_injective((a as u32 % 16) as int, (b as u32 % 16) as int);
            assert(a as u32 == b as u32);
            vstd::utf8::char_u32_cast(a, a as u32);
            vstd::utf8::char_u32_cast(b, b as u32);
        }
        assert(a == b);
    }
    assert(u =~= (ea + u).subrange(ea.len() as int, (ea + u).len() as int));
    assert(v =~= (eb + v).subrange(eb.len() as int, (eb + v).len() as int));
}

/// The escape of a string, read from its front.
pub proof fn lemma_json_escaped_front(s: Seq<char>)
    requires
        s.len() > 0,
    ensures
        json_escaped(s) == json_escaped_char(s[0]) + json_escaped(s.drop_first()),
    decreases s.len(),
{
    if s.len() == 1 {
        assert(s.drop_last() =~= Seq::<char>::empty());
        assert(s.drop_first() =~= Seq::<char>::empty());
        assert(json_escaped(s.drop_last()) == Seq::<char>::empty());
        assert(json_escaped(s.drop_first()) == Seq::<char>::empty());
        assert(s.last() == s[0]);
        assert(json_escaped(s) =~= json_escaped_char(s[0]));
    } else {
        lemma_json_escaped_front(s.drop_last());
        assert(s.drop_last().drop_first() =~= s.drop_first().drop_last());
        assert(s.drop_first().last() == s.last());
        assert(s.drop_last()[0] == s[0]);
        assert(json_escaped(s) =~= json_escaped_char(s[0]) + json_escaped(s.drop_first()));
    }
}

/// An escaped string is uniquely readable up to its closing quote: the
/// string and what follows the quote are determined.
pub proof fn lemma_json_escaped_prefix_free(s: Seq<char>, t: Seq<char>, x: Seq<char>, y: Seq<char>)
    requires
        json_escaped(s) + seq!['"'] + x == json_escaped(t) + seq!['"'] + y,
    ensures
        s == t,
        x == y,
    decreases s.len() + t.len(),
{
    let ls = json_escaped(s) + seq!['"'] + x;
    let lt = json_escaped(t) + seq!['"'] + y;
    if s.len() == 0 && t.len() == 0 {
        assert(json_escaped(s) =~= Seq::<char>::empty());
        assert(json_escaped(t) =~= Seq::<char>::empty());
        assert(x =~= ls.subrange(1, ls.len() as int));
        assert(y =~= lt.subrange(1, lt.len() as int));
    } else if s.len() == 0 {
        lemma_json_escaped_front(t);
        lemma_escaped_char_shape(t[0]);
        assert(json_escaped(s) =~= Seq::<char>::empty());
        assert(ls[0] == '"');
        assert(lt[0] == json_escaped_char(t[0])[0]);
    } else if t.len() == 0 {
        lemma_json_escaped_front(s);
        lemma_escaped_char_shape(s[0]);
        assert(json_escaped(t) =~= Seq::<char>::empty());
        assert(lt[0] == '"');
        assert(ls[0] == json_escaped_char(s[0])[0]);
    } else {
        lemma_json_escaped_front(s);
        lemma_json_escaped_front(t);
        let rs = json_escaped(s.drop_first()) + seq!['"'] + x;
        let rt = json_escaped(t.drop_first()) + seq!['"'] + y;
        assert(ls =~= json_escaped_char(s[0]) + rs);
        assert(lt =~= json_escaped_char(t[0]) + rt);
        lemma_escaped_char_prefix_free(s[0], t[0], rs, rt);
        lemma_json_escaped_prefix_free(s.drop_first(), t.drop_first(), x, y);
        assert(s =~= seq![s[0]] + s.drop_first());
        assert(t =~= seq![t[0]] + t.drop_first());
    }
}

/// A JSON string literal followed by anything determines the string and
/// what follows it.
pub proof fn lemma_json_string_prefix_free(s: Seq<char>, t: Seq<char>, x: Seq<char>, y: Seq<char>)
    requires
        json_string(s) + x == json_string(t) + y,
    ensures
        s == t,
        x == y,
{
    let ls = json_string(s) + x;
    let lt = json_string(t) + y;
    assert(ls.subrange(1, ls.len() as int) =~= json_escaped(s) + seq!['"'] + x);
    assert(lt.subrange(1, lt.len() as int) =~= json_escaped(t) + seq!['"'] + y);
    lemma_json_escaped_prefix_free(s, t, x, y);
}


/// The value of a hexadecimal digit of either case, `-1` for other characters.
pub open spec fn hex_value(c: char) -> int {
    if '0' <= c <= '9' {
        c as int - 48
    } else if 'a' <= c <= 'f' {
        c as int - 87
    } else if 'A' <= c <= 'F' {
        c as int - 55
    } else {
        -1
    }
}

/// The character a two-character JSON escape `\c` stands for.
pub open spec fn short_unescape(c: char) -> Option<char> {
    if c == '"' {
        Some('"')
    } else if c == '\\' {
        Some('\\')
    } else if c == '/' {
        Some('/')
    } else if c == 'b' {
        Some('\u{8}')
    } else if c == 'f' {
        Some('\u{c}')
    } else if c == 'n' {
        Some('\n')
    } else if c == 'r' {
        Some('\r')
    } else if c == 't' {
        Some('\t')
    } else {
        None
    }
}

/// `c` followed by the value read, with what follows unchanged.
pub open spec fn prepend_read(c: char, r: Option<(Seq<char>, Seq<char>)>) -> Option<
    (Seq<char>, Seq<char>),
> {
    match r {
        Some((value, rest)) => Some((seq![c] + value, rest)),
        None => None,
    }
}

/// Reads a JSON string literal whose opening quote has been consumed, as the
/// JSON grammar reads it: up to the closing quote, escapes decoded, raw
/// control characters refused. Gives the value and what follows the quote.
pub open spec fn read_json_string_body(s: Seq<char>) -> Option<(Seq<char>, Seq<char>)>
    decreases s.len(),
{
    if s.len() == 0 {
        None
    } else if s[0] == '"' {
        Some((Seq::empty(), s.drop_first()))
    } else if s[0] == '\\' {
        if s.len() >= 6 && s[1] == 'u' && hex_value(s[2]) >= 0 && hex_value(s[3]) >= 0
            && hex_value(s[4]) >= 0 && hex_value(s[5]) >= 0 {
            let v = hex_value(s[2]) * 4096 + hex_value(s[3]) * 256 + hex_value(s[4]) * 16
                + hex_value(s[5]);
            if v < 0xd800 || v >= 0xe000 {
                prepend_read(v as char, read_json_string_body(s.skip(6)))
            } else {
                None
            }
        } else if s.len() >= 2 && short_unescape(s[1]) is Some {
            prepend_read(short_unescape(s[1])->0, read_json_string_body(s.skip(2)))
        } else {
            None
        }
    } else if (s[0] as u32) < 0x20 {
        None
    } else {
        prepend_read(s[0], read_json_string_body(s.drop_first()))
    }
}

/// Reads a JSON string literal at the front of `s`: its value and what follows.
pub open spec fn read_json_string(s: Seq<char>) -> Option<(Seq<char>, Seq<char>)> {
    if s.len() > 0 && s[0] == '"' {
        read_json_string_body(s.drop_first())
    } else {
        None
    }
}

/// Reading an escaped character gives the character back.
proof fn lemma_read_escaped_char(c: char, rest: Seq<char>)
    ensures
        read_json_string_body(json_escaped_char(c) + rest) == prepend_read(
            c,
            read_json_string_body(rest),
        ),
{
    let t = json_escaped_char(c) + rest;
    let n = json_escaped_char(c).len();
    assert(t.skip(n as int) =~= rest);
    if c == '"' || c == '\\' || c == '\u{8}' || c == '\t' || c == '\n' || c == '\u{c}' || c == '\r' {
        assert(t[0] == '\\');
        assert(t[1] == json_escaped_char(c)[1]);
        assert(n == 2);
    } else if (c as u32) < 0x20 {
        let hi = (c as u32 / 16) as int;
        let lo = (c as u32 % 16) as int;
        assert(t[0] == '\\' && t[1] == 'u' && t[2] == '0' && t[3] == '0');
        assert(t[4] == lower_hex_digit(hi));
        assert(t[5] == lower_hex_digit(lo));
        assert(hex_value(t[4]) == hi);
        assert(hex_value(t[5]) == lo);
        assert(n == 6);
        let v = hex_value(t[2]) * 4096 + hex_value(t[3]) * 256 + hex_value(t[4]) * 16 + hex_value(
            t[5],
        );
        assert(v == c as u32);
        vstd::utf8::char_u32_cast(c, c as u32);
        assert((v as char) == c);
    } else {
        assert(t[0] == c);
        assert(n == 1);
        assert(t.drop_first() =~= rest);
    }
}

/// A JSON string literal reads back as the string it was written from, and
/// the reading stops right after its closing quote.
pub proof fn lemma_json_string_reads_back(s: Seq<char>, rest: Seq<char>)
    ensures
        read_json_string(json_string(s) + rest) == Some((s, rest)),
    decreases s.len(),
{
    lemma_json_escaped_body_reads_back(s, rest);
    let t = json_string(s) + rest;
    assert(t[0] == '"');
    assert(t.drop_first() =~= json_escaped(s) + seq!['"'] + rest);
}

proof fn lemma_json_escaped_body_reads_back(s: Seq<char>, rest: Seq<char>)
    ensures
        read_json_string_body(json_escaped(s) + seq!['"'] + rest) == Some((s, rest)),
    decreases s.len(),
{
    if s.len() == 0 {
        assert(json_escaped(s) == Seq::<char>::empty());
        let t = json_escaped(s) + seq!['"'] + rest;
        assert(t[0] == '"');
        assert(t.drop_first() =~= rest);
    } else {
        lemma_json_escaped_front(s);
        lemma_json_escaped_body_reads_back(s.drop_first(), rest);
        let tail = json_escaped(s.drop_first()) + seq!['"'] + rest;
        assert(json_escaped(s) + seq!['"'] + rest =~= json_escaped_char(s[0]) + tail);
        lemma_read_escaped_char(s[0], tail);
        assert(seq![s[0]] + s.drop_first() =~= s);
    }
}

} // verus!
