//! The serialized form of a habit's external-event identifier list.
//!
//! A sequence of strings is persisted as a JSON array of string literals,
//! written without any whitespace. Decoding accepts the usual JSON liberties
//! — whitespace between tokens, the short escapes `\b \f \n \r \t \/`, and
//! `\uXXXX` escapes, surrogate pairs included — and fails on anything else,
//! a lone surrogate escape among it, never substituting a default. Encoding then decoding any sequence of strings
//! gives the sequence back, which is proved in
//! [`lemma_string_list_round_trip`].

use crate::errors::StorageError;
use crate::text::{char_from_code, chars_vec, push_char, str_views};
use vstd::prelude::*;

verus! {

// ---------------------------------------------------------------------------
// Hexadecimal digits
// ---------------------------------------------------------------------------

/// The sixteen digits used by `\u` escapes, in value order.
pub open spec fn hex_digits() -> Seq<char> {
    seq!['0', '1', '2', '3', '4', '5', '6', '7', '8', '9', 'a', 'b', 'c', 'd', 'e', 'f']
}

/// The digit that stands for value `n`.
pub open spec fn hex_digit(n: int) -> char
    recommends
        0 <= n < 16,
{
    hex_digits()[n]
}

/// The value a digit stands for, accepting both letter cases.
pub open spec fn hex_val(c: char) -> Option<int> {
    let u = c as u32;
    if 48 <= u <= 57 {
        Some((u - 48) as int)
    } else if 97 <= u <= 102 {
        Some((u - 87) as int)
    } else if 65 <= u <= 70 {
        Some((u - 55) as int)
    } else {
        None
    }
}

/// Reading back an emitted digit gives the value it was made from.
proof fn lemma_hex_digit_val(n: int)
    requires
        0 <= n < 16,
    ensures
        hex_val(hex_digit(n)) == Some(n),
{
}

/// The value of a four-digit hexadecimal escape payload.
pub open spec fn hex4_val(a: char, b: char, c: char, d: char) -> Option<int> {
    if hex_val(a) is Some && hex_val(b) is Some && hex_val(c) is Some && hex_val(d) is Some {
        Some(hex_val(a)->0 * 4096 + hex_val(b)->0 * 256 + hex_val(c)->0 * 16 + hex_val(d)->0)
    } else {
        None
    }
}

/// Whether `n` is a Unicode scalar value, hence the code of some `char`.
pub open spec fn is_scalar_code(n: int) -> bool {
    (0 <= n < 0xD800) || (0xDFFF < n < 0x110000)
}

/// Whether `n` is a high (leading) surrogate code.
pub open spec fn is_high_surrogate(n: int) -> bool {
    0xD800 <= n < 0xDC00
}

/// Whether `n` is a low (trailing) surrogate code.
pub open spec fn is_low_surrogate(n: int) -> bool {
    0xDC00 <= n < 0xE000
}

/// The scalar value a surrogate pair stands for.
pub open spec fn surrogate_pair_code(hi: int, lo: int) -> int {
    0x10000 + (hi - 0xD800) * 0x400 + (lo - 0xDC00)
}

// ---------------------------------------------------------------------------
// Encoding
// ---------------------------------------------------------------------------

/// How one character appears inside an encoded string literal: quotes and
/// backslashes are escaped, control characters become `\u00XX`, and every
/// other character stands for itself.
pub open spec fn escape_char(c: char) -> Seq<char> {
    if c == '"' {
        seq!['\\', '"']
    } else if c == '\\' {
        seq!['\\', '\\']
    } else if (c as u32) < 32 {
        seq!['\\', 'u', '0', '0', hex_digit((c as u32) as int / 16), hex_digit((c as u32) as int % 16)]
    } else {
        seq![c]
    }
}

/// The body of an encoded string literal: each character escaped in turn.
pub open spec fn escape_string(s: Seq<char>) -> Seq<char>
    decreases s.len(),
{
    if s.len() == 0 {
        Seq::empty()
    } else {
        escape_char(s[0]) + escape_string(s.drop_first())
    }
}

/// One encoded string literal, quotes included.
pub open spec fn encode_string(s: Seq<char>) -> Seq<char> {
    seq!['"'] + escape_string(s) + seq!['"']
}

/// The comma-separated literals of a non-empty element list, brackets not
/// included.
pub open spec fn encode_elements(els: Seq<Seq<char>>) -> Seq<char>
    decreases els.len(),
{
    if els.len() <= 1 {
        if els.len() == 0 {
            Seq::empty()
        } else {
            encode_string(els[0])
        }
    } else {
        encode_string(els[0]) + seq![','] + encode_elements(els.drop_first())
    }
}

/// The serialized form of a sequence of strings: a JSON array without
/// whitespace.
pub open spec fn encode_string_list(els: Seq<Seq<char>>) -> Seq<char> {
    seq!['['] + encode_elements(els) + seq![']']
}

// ---------------------------------------------------------------------------
// Parsing
// ---------------------------------------------------------------------------

/// The whitespace accepted between tokens.
pub open spec fn is_ws(c: char) -> bool {
    c == ' ' || c == '\t' || c == '\n' || c == '\r'
}

/// `s` without its leading whitespace.
pub open spec fn skip_ws(s: Seq<char>) -> Seq<char>
    decreases s.len(),
{
    if s.len() > 0 && is_ws(s[0]) {
        skip_ws(s.drop_first())
    } else {
        s
    }
}

/// The character a short escape stands for, if the letter is one.
pub open spec fn simple_unescape(c: char) -> Option<char> {
    if c == '"' {
        Some('"')
    } else if c == '\\' {
        Some('\\')
    } else if c == '/' {
        Some('/')
    } else if c == 'b' {
        Some('\u{0008}')
    } else if c == 'f' {
        Some('\u{000C}')
    } else if c == 'n' {
        Some('\n')
    } else if c == 'r' {
        Some('\r')
    } else if c == 't' {
        Some('\t')
    } else {
        None
    }
}

/// Parse a string literal's body, `s` standing just after the opening quote.
/// On success, the decoded content and what follows the closing quote.
pub open spec fn parse_string_body(s: Seq<char>) -> Option<(Seq<char>, Seq<char>)>
    decreases s.len(),
{
    if s.len() == 0 {
        None
    } else if s[0] == '"' {
        Some((Seq::empty(), s.drop_first()))
    } else if s[0] == '\\' {
        if s.len() < 2 {
            None
        } else if simple_unescape(s[1]) is Some {
            match parse_string_body(s.skip(2)) {
                Some((t, r)) => Some((seq![simple_unescape(s[1])->0] + t, r)),
                None => None,
            }
        } else if s[1] == 'u' {
            if s.len() < 6 {
                None
            } else {
                match hex4_val(s[2], s[3], s[4], s[5]) {
                    Some(n) => if is_scalar_code(n) {
                        match parse_string_body(s.skip(6)) {
                            Some((t, r)) => Some((seq![(n as u32) as char] + t, r)),
                            None => None,
                        }
                    } else if is_high_surrogate(n) {
                        // a low-surrogate escape must follow at once
                        if s.len() < 12 || s[6] != '\\' || s[7] != 'u' {
                            None
                        } else {
                            match hex4_val(s[8], s[9], s[10], s[11]) {
                                Some(m) => if is_low_surrogate(m) {
                                    match parse_string_body(s.skip(12)) {
                                        Some((t, r)) => Some(
                                            (seq![(surrogate_pair_code(n, m) as u32) as char] + t, r),
                                        ),
                                        None => None,
                                    }
                                } else {
                                    None
                                },
                                None => None,
                            }
                        }
                    } else {
                        None
                    },
                    None => None,
                }
            }
        } else {
            None
        }
    } else if (s[0] as u32) < 32 {
        None
    } else {
        match parse_string_body(s.drop_first()) {
            Some((t, r)) => Some((seq![s[0]] + t, r)),
            None => None,
        }
    }
}

/// On success the remainder is strictly shorter: at least the closing quote
/// was consumed.
proof fn lemma_parse_string_body_shrinks(s: Seq<char>)
    ensures
        parse_string_body(s) matches Some(p) ==> p.1.len() < s.len(),
    decreases s.len(),
{
    if s.len() == 0 {
    } else if s[0] == '"' {
    } else if s[0] == '\\' {
        if s.len() >= 2 && simple_unescape(s[1]) is Some {
            lemma_parse_string_body_shrinks(s.skip(2));
        } else if s.len() >= 6 && s[1] == 'u' {
            lemma_parse_string_body_shrinks(s.skip(6));
            if s.len() >= 12 {
                lemma_parse_string_body_shrinks(s.skip(12));
            }
        }
    } else {
        lemma_parse_string_body_shrinks(s.drop_first());
    }
}

/// Skipping whitespace never lengthens a sequence.
proof fn lemma_skip_ws_len(s: Seq<char>)
    ensures
        skip_ws(s).len() <= s.len(),
    decreases s.len(),
{
    if s.len() > 0 && is_ws(s[0]) {
        lemma_skip_ws_len(s.drop_first());
    }
}

/// Parse one or more comma-separated string literals followed by the closing
/// bracket; `s` stands just after the opening bracket or after a comma. On
/// success, the elements and what follows the bracket.
pub open spec fn parse_elements(s: Seq<char>) -> Option<(Seq<Seq<char>>, Seq<char>)>
    decreases s.len(),
    via parse_elements_decreases
{
    let t = skip_ws(s);
    if t.len() == 0 || t[0] != '"' {
        None
    } else {
        match parse_string_body(t.drop_first()) {
            Some((e, r)) => {
                let u = skip_ws(r);
                if u.len() == 0 {
                    None
                } else if u[0] == ']' {
                    Some((seq![e], u.drop_first()))
                } else if u[0] == ',' {
                    match parse_elements(u.drop_first()) {
                        Some((es, rr)) => Some((seq![e] + es, rr)),
                        None => None,
                    }
                } else {
                    None
                }
            },
            None => None,
        }
    }
}

#[via_fn]
proof fn parse_elements_decreases(s: Seq<char>) {
    lemma_skip_ws_len(s);
    let t = skip_ws(s);
    if t.len() > 0 && t[0] == '"' {
        lemma_parse_string_body_shrinks(t.drop_first());
        if let Some((e, r)) = parse_string_body(t.drop_first()) {
            lemma_skip_ws_len(r);
        }
    }
}

/// Parse a whole serialized sequence of strings. `None` is a malformed text.
pub open spec fn parse_string_list(s: Seq<char>) -> Option<Seq<Seq<char>>> {
    let t = skip_ws(s);
    if t.len() == 0 || t[0] != '[' {
        None
    } else {
        let u = skip_ws(t.drop_first());
        if u.len() > 0 && u[0] == ']' {
            if skip_ws(u.drop_first()).len() == 0 {
                Some(Seq::empty())
            } else {
                None
            }
        } else {
            match parse_elements(t.drop_first()) {
                Some((els, r)) => if skip_ws(r).len() == 0 {
                    Some(els)
                } else {
                    None
                },
                None => None,
            }
        }
    }
}

// ---------------------------------------------------------------------------
// The round-trip law
// ---------------------------------------------------------------------------

/// Skipping whitespace moves nothing when the text does not start with any.
proof fn lemma_skip_ws_noop(s: Seq<char>)
    requires
        s.len() == 0 || !is_ws(s[0]),
    ensures
        skip_ws(s) == s,
{
}

/// Parsing picks an encoded string literal's body back out of any context:
/// the decoded content is the original string and the remainder is whatever
/// followed the closing quote.
proof fn lemma_parse_encoded_string_body(c: Seq<char>, rest: Seq<char>)
    ensures
        parse_string_body(escape_string(c) + seq!['"'] + rest) == Some((c, rest)),
    decreases c.len(),
{
    let s = escape_string(c) + seq!['"'] + rest;
    if c.len() == 0 {
        assert(s[0] == '"');
        assert(s.drop_first() =~= rest);
    } else {
        let c0 = c[0];
        let tail = escape_string(c.drop_first()) + seq!['"'] + rest;
        assert(s =~= escape_char(c0) + tail);
        lemma_parse_encoded_string_body(c.drop_first(), rest);
        if c0 == '"' {
            assert(s.skip(2) =~= tail);
            assert(seq![c0] + c.drop_first() =~= c);
        } else if c0 == '\\' {
            assert(s.skip(2) =~= tail);
            assert(seq![c0] + c.drop_first() =~= c);
        } else if (c0 as u32) < 32 {
            let u = (c0 as u32) as int;
            lemma_hex_digit_val(u / 16);
            lemma_hex_digit_val(u % 16);
            assert(s[1] == 'u' && s[2] == '0' && s[3] == '0');
            assert(hex4_val(s[2], s[3], s[4], s[5]) == Some((u / 16) * 16 + u % 16));
            vstd::arithmetic::div_mod::lemma_fundamental_div_mod(u, 16);
            assert(hex4_val(s[2], s[3], s[4], s[5]) == Some(u));
            vstd::utf8::char_u32_cast(c0, c0 as u32);
            assert((u as u32) as char == c0);
            assert(s.skip(6) =~= tail);
            assert(seq![c0] + c.drop_first() =~= c);
        } else {
            assert(s[0] == c0);
            assert(s.drop_first() =~= tail);
            assert(seq![c0] + c.drop_first() =~= c);
        }
    }
}

/// Parsing picks an encoded non-empty element list back out of any context
/// that closes it with a bracket.
proof fn lemma_parse_encoded_elements(els: Seq<Seq<char>>, rest: Seq<char>)
    requires
        els.len() >= 1,
    ensures
        parse_elements(encode_elements(els) + seq![']'] + rest) == Some((els, rest)),
    decreases els.len(),
{
    let s = encode_elements(els) + seq![']'] + rest;
    lemma_skip_ws_noop(s);
    assert(s[0] == '"');
    if els.len() == 1 {
        let after = seq![']'] + rest;
        assert(s.drop_first() =~= escape_string(els[0]) + seq!['"'] + after);
        lemma_parse_encoded_string_body(els[0], after);
        lemma_skip_ws_noop(after);
        assert(after[0] == ']');
        assert(after.drop_first() =~= rest);
        assert(seq![els[0]] =~= els);
    } else {
        let els1 = els.drop_first();
        let after = seq![','] + encode_elements(els1) + seq![']'] + rest;
        assert(s.drop_first() =~= escape_string(els[0]) + seq!['"'] + after);
        lemma_parse_encoded_string_body(els[0], after);
        lemma_skip_ws_noop(after);
        assert(after[0] == ',');
        assert(after.drop_first() =~= encode_elements(els1) + seq![']'] + rest);
        lemma_parse_encoded_elements(els1, rest);
        assert(seq![els[0]] + els1 =~= els);
    }
}

/// The round-trip law of the serialized form: decoding what encoding
/// produced gives the original sequence of strings back, the empty sequence
/// included.
pub proof fn lemma_string_list_round_trip(els: Seq<Seq<char>>)
    ensures
        parse_string_list(encode_string_list(els)) == Some(els),
{
    let s = encode_string_list(els);
    lemma_skip_ws_noop(s);
    assert(s[0] == '[');
    if els.len() == 0 {
        assert(s.drop_first() =~= seq![']']);
        lemma_skip_ws_noop(seq![']']);
        assert(seq![']'].drop_first() =~= Seq::<char>::empty());
        lemma_skip_ws_noop(Seq::<char>::empty());
    } else {
        let d = encode_elements(els) + seq![']'];
        assert(s.drop_first() =~= d);
        assert(d[0] == '"');
        lemma_skip_ws_noop(d);
        assert(d =~= encode_elements(els) + seq![']'] + Seq::<char>::empty());
        lemma_parse_encoded_elements(els, Seq::empty());
        lemma_skip_ws_noop(Seq::<char>::empty());
    }
}

// ---------------------------------------------------------------------------
// Executable encoding
// ---------------------------------------------------------------------------

/// Escaping a string one character at a time agrees with escaping it whole.
proof fn lemma_escape_string_push(s: Seq<char>, c: char)
    ensures
        escape_string(s.push(c)) == escape_string(s) + escape_char(c),
    decreases s.len(),
{
    if s.len() == 0 {
        assert(s.push(c)[0] == c);
        assert(s.push(c).drop_first() =~= Seq::<char>::empty());
        assert(escape_string(s.push(c)) == escape_char(c) + escape_string(Seq::<char>::empty()));
        assert(escape_char(c) + Seq::<char>::empty() =~= escape_char(c));
        assert(escape_string(s) + escape_char(c) =~= escape_char(c));
    } else {
        assert(s.push(c).drop_first() =~= s.drop_first().push(c));
        lemma_escape_string_push(s.drop_first(), c);
        assert(escape_char(s[0]) + (escape_string(s.drop_first()) + escape_char(c)) =~= (
        escape_char(s[0]) + escape_string(s.drop_first())) + escape_char(c));
    }
}

/// Encoding an element list one element at a time agrees with encoding it
/// whole.
proof fn lemma_encode_elements_push(els: Seq<Seq<char>>, e: Seq<char>)
    ensures
        encode_elements(els.push(e)) == if els.len() == 0 {
            encode_string(e)
        } else {
            encode_elements(els) + seq![','] + encode_string(e)
        },
    decreases els.len(),
{
    if els.len() == 0 {
    } else if els.len() == 1 {
        assert(els.push(e).drop_first() =~= seq![e]);
        assert(encode_elements(seq![e]) == encode_string(e));
    } else {
        assert(els.push(e).drop_first() =~= els.drop_first().push(e));
        lemma_encode_elements_push(els.drop_first(), e);
        assert(encode_string(els[0]) + seq![','] + (encode_elements(els.drop_first())
            + seq![','] + encode_string(e)) =~= (encode_string(els[0]) + seq![',']
            + encode_elements(els.drop_first())) + seq![','] + encode_string(e));
    }
}

/// The digit character for a value below sixteen.
fn hex_digit_char(n: u8) -> (c: char)
    requires
        n < 16,
    ensures
        c == hex_digit(n as int),
{
    match n {
        0 => '0',
        1 => '1',
        2 => '2',
        3 => '3',
        4 => '4',
        5 => '5',
        6 => '6',
        7 => '7',
        8 => '8',
        9 => '9',
        10 => 'a',
        11 => 'b',
        12 => 'c',
        13 => 'd',
        14 => 'e',
        _ => 'f',
    }
}

/// Append the escaped form of one character.
fn push_escaped(out: &mut String, c: char)
    ensures
        final(out)@ == old(out)@ + escape_char(c),
{
    if c == '"' {
        push_char(out, '\\');
        push_char(out, '"');
        assert(final(out)@ =~= old(out)@ + escape_char(c));
    } else if c == '\\' {
        push_char(out, '\\');
        push_char(out, '\\');
        assert(final(out)@ =~= old(out)@ + escape_char(c));
    } else if (c as u32) < 32 {
        let u = c as u32;
        push_char(out, '\\');
        push_char(out, 'u');
        push_char(out, '0');
        push_char(out, '0');
        push_char(out, hex_digit_char((u / 16) as u8));
        push_char(out, hex_digit_char((u % 16) as u8));
        assert(final(out)@ =~= old(out)@ + escape_char(c));
    } else {
        push_char(out, c);
        assert(final(out)@ =~= old(out)@ + escape_char(c));
    }
}

/// Append one encoded string literal, quotes included.
fn push_encoded_string(out: &mut String, s: &String)
    ensures
        final(out)@ == old(out)@ + encode_string(s@),
{
    let cs = chars_vec(s.as_str());
    push_char(out, '"');
    let ghost start = out@;
    let mut i: usize = 0;
    while i < cs.len()
        invariant
            cs@ == s@,
            i <= cs@.len(),
            out@ == start + escape_string(s@.take(i as int)),
        decreases cs@.len() - i,
    {
        proof {
            assert(s@.take(i + 1) =~= s@.take(i as int).push(s@[i as int]));
            lemma_escape_string_push(s@.take(i as int), s@[i as int]);
        }
        push_escaped(out, cs[i]);
        i = i + 1;
    }
    proof {
        assert(s@.take(s@.len() as int) =~= s@);
    }
    push_char(out, '"');
    proof {
        assert(final(out)@ =~= old(out)@ + encode_string(s@));
    }
}

/// Serialize a sequence of strings as a JSON array written without
/// whitespace.
pub fn encode_event_ids(values: &Vec<String>) -> (r: String)
    ensures
        r@ == encode_string_list(str_views(values@)),
{
    let ghost els = str_views(values@);
    let mut out = String::new();
    push_char(&mut out, '[');
    let mut i: usize = 0;
    while i < values.len()
        invariant
            els == str_views(values@),
            i <= values@.len(),
            out@ == seq!['['] + encode_elements(els.take(i as int)),
        decreases values@.len() - i,
    {
        proof {
            assert(els.take(i + 1) =~= els.take(i as int).push(els[i as int]));
            lemma_encode_elements_push(els.take(i as int), els[i as int]);
        }
        if i > 0 {
            push_char(&mut out, ',');
        }
        push_encoded_string(&mut out, &values[i]);
        proof {
            assert(out@ =~= seq!['['] + encode_elements(els.take(i + 1)));
        }
        i = i + 1;
    }
    proof {
        assert(els.take(els.len() as int) =~= els);
    }
    push_char(&mut out, ']');
    proof {
        assert(out@ =~= encode_string_list(els));
    }
    out
}

// ---------------------------------------------------------------------------
// Executable parsing
// ---------------------------------------------------------------------------

/// Whether `c` is accepted as whitespace between tokens.
fn is_ws_char(c: char) -> (b: bool)
    ensures
        b == is_ws(c),
{
    c == ' ' || c == '\t' || c == '\n' || c == '\r'
}

/// The character a short escape letter stands for, if it is one.
fn simple_unescape_char(c: char) -> (r: Option<char>)
    ensures
        r == simple_unescape(c),
{
    if c == '"' {
        Some('"')
    } else if c == '\\' {
        Some('\\')
    } else if c == '/' {
        Some('/')
    } else if c == 'b' {
        Some('\u{0008}')
    } else if c == 'f' {
        Some('\u{000C}')
    } else if c == 'n' {
        Some('\n')
    } else if c == 'r' {
        Some('\r')
    } else if c == 't' {
        Some('\t')
    } else {
        None
    }
}

/// The value of one hexadecimal digit, either letter case.
fn hex_digit_val(c: char) -> (r: Option<u8>)
    ensures
        r is Some <==> hex_val(c) is Some,
        r matches Some(v) ==> hex_val(c) == Some(v as int) && v < 16,
{
    let u = c as u32;
    if 48 <= u && u <= 57 {
        Some((u - 48) as u8)
    } else if 97 <= u && u <= 102 {
        Some((u - 87) as u8)
    } else if 65 <= u && u <= 70 {
        Some((u - 55) as u8)
    } else {
        None
    }
}

/// The index right after the leading whitespace at `start`.
fn ws_end(cs: &Vec<char>, start: usize) -> (j: usize)
    requires
        start <= cs@.len(),
    ensures
        start <= j <= cs@.len(),
        skip_ws(cs@.skip(start as int)) == cs@.skip(j as int),
{
    let mut j = start;
    while j < cs.len() && is_ws_char(cs[j])
        invariant
            start <= j <= cs@.len(),
            skip_ws(cs@.skip(start as int)) == skip_ws(cs@.skip(j as int)),
        decreases cs@.len() - j,
    {
        proof {
            assert(cs@.skip(j as int).drop_first() =~= cs@.skip(j + 1));
        }
        j = j + 1;
    }
    proof {
        lemma_skip_ws_noop(cs@.skip(j as int));
    }
    j
}

/// Decode a string literal's body, `start` standing just after the opening
/// quote. On success, the content and the index after the closing quote.
#[verifier::rlimit(60)]
fn parse_string_body_at(cs: &Vec<char>, start: usize) -> (r: Option<(String, usize)>)
    requires
        start <= cs@.len(),
    ensures
        match r {
            Some(p) => p.1 <= cs@.len() && parse_string_body(cs@.skip(start as int)) == Some(
                (p.0@, cs@.skip(p.1 as int)),
            ),
            None => parse_string_body(cs@.skip(start as int)) is None,
        },
{
    let mut acc = String::new();
    let mut k = start;
    while k < cs.len()
        invariant
            start <= k <= cs@.len(),
            parse_string_body(cs@.skip(start as int)) == (match parse_string_body(
                cs@.skip(k as int),
            ) {
                Some(p) => Some((acc@ + p.0, p.1)),
                None => None::<(Seq<char>, Seq<char>)>,
            }),
        decreases cs@.len() - k,
    {
        let c = cs[k];
        if c == '"' {
            proof {
                assert(cs@.skip(k as int).drop_first() =~= cs@.skip(k + 1));
                assert(acc@ + Seq::<char>::empty() =~= acc@);
            }
            return Some((acc, k + 1));
        } else if c == '\\' {
            if k + 1 >= cs.len() {
                return None;
            }
            let e = cs[k + 1];
            match simple_unescape_char(e) {
                Some(u) => {
                    proof {
                        assert(cs@.skip(k as int).skip(2) =~= cs@.skip(k + 2));
                        if parse_string_body(cs@.skip(k + 2)) is Some {
                            let p = parse_string_body(cs@.skip(k + 2))->0;
                            assert(acc@ + (seq![u] + p.0) =~= acc@.push(u) + p.0);
                        }
                    }
                    push_char(&mut acc, u);
                    k = k + 2;
                },
                None => {
                    if e != 'u' {
                        return None;
                    }
                    if cs.len() - k < 6 {
                        return None;
                    }
                    let h0 = hex_digit_val(cs[k + 2]);
                    let h1 = hex_digit_val(cs[k + 3]);
                    let h2 = hex_digit_val(cs[k + 4]);
                    let h3 = hex_digit_val(cs[k + 5]);
                    match (h0, h1, h2, h3) {
                        (Some(a), Some(b), Some(c2), Some(d)) => {
                            let n: u32 = (a as u32) * 4096 + (b as u32) * 256 + (c2 as u32) * 16
                                + (d as u32);
                            if n < 0xD800 || 0xDFFF < n {
                                match char_from_code(n) {
                                    Some(ch) => {
                                        proof {
                                            assert(cs@.skip(k as int).skip(6) =~= cs@.skip(k + 6));
                                            if parse_string_body(cs@.skip(k + 6)) is Some {
                                                let p = parse_string_body(cs@.skip(k + 6))->0;
                                                assert(acc@ + (seq![ch] + p.0) =~= acc@.push(ch)
                                                    + p.0);
                                            }
                                        }
                                        push_char(&mut acc, ch);
                                        k = k + 6;
                                    },
                                    None => {
                                        return None;
                                    },
                                }
                            } else if n < 0xDC00 {
                                if cs.len() - k < 12 {
                                    return None;
                                }
                                if cs[k + 6] != '\\' || cs[k + 7] != 'u' {
                                    return None;
                                }
                                let g0 = hex_digit_val(cs[k + 8]);
                                let g1 = hex_digit_val(cs[k + 9]);
                                let g2 = hex_digit_val(cs[k + 10]);
                                let g3 = hex_digit_val(cs[k + 11]);
                                match (g0, g1, g2, g3) {
                                    (Some(e), Some(f), Some(g), Some(h)) => {
                                        let m: u32 = (e as u32) * 4096 + (f as u32) * 256 + (
                                        g as u32) * 16 + (h as u32);
                                        if m < 0xDC00 || 0xDFFF < m {
                                            return None;
                                        }
                                        let code: u32 = 0x10000 + (n - 0xD800) * 1024 + (m
                                            - 0xDC00);
                                        match char_from_code(code) {
                                            Some(ch) => {
                                                proof {
                                                    assert(cs@.skip(k as int).skip(12) =~= cs@.skip(
                                                        k + 12,
                                                    ));
                                                    if parse_string_body(cs@.skip(k + 12)) is Some {
                                                        let p = parse_string_body(
                                                            cs@.skip(k + 12),
                                                        )->0;
                                                        assert(acc@ + (seq![ch] + p.0)
                                                            =~= acc@.push(ch) + p.0);
                                                    }
                                                }
                                                push_char(&mut acc, ch);
                                                k = k + 12;
                                            },
                                            None => {
                                                return None;
                                            },
                                        }
                                    },
                                    _ => {
                                        return None;
                                    },
                                }
                            } else {
                                return None;
                            }
                        },
                        _ => {
                            return None;
                        },
                    }
                },
            }
        } else if (c as u32) < 32 {
            return None;
        } else {
            proof {
                assert(cs@.skip(k as int).drop_first() =~= cs@.skip(k + 1));
                if parse_string_body(cs@.skip(k + 1)) is Some {
                    let p = parse_string_body(cs@.skip(k + 1))->0;
                    assert(acc@ + (seq![c] + p.0) =~= acc@.push(c) + p.0);
                }
            }
            push_char(&mut acc, c);
            k = k + 1;
        }
    }
    proof {
        assert(cs@.skip(k as int).len() == 0);
    }
    None
}

/// Decode one or more comma-separated string literals followed by the
/// closing bracket, `start` standing just after the opening bracket or a
/// comma. On success, the elements and the index after the bracket.
fn parse_elements_at(cs: &Vec<char>, start: usize) -> (r: Option<(Vec<String>, usize)>)
    requires
        start <= cs@.len(),
    ensures
        match r {
            Some(p) => p.1 <= cs@.len() && parse_elements(cs@.skip(start as int)) == Some(
                (str_views(p.0@), cs@.skip(p.1 as int)),
            ),
            None => parse_elements(cs@.skip(start as int)) is None,
        },
{
    let mut acc: Vec<String> = Vec::new();
    let mut k = start;
    loop
        invariant
            k <= cs@.len(),
            parse_elements(cs@.skip(start as int)) == (match parse_elements(cs@.skip(k as int)) {
                Some(p) => Some((str_views(acc@) + p.0, p.1)),
                None => None::<(Seq<Seq<char>>, Seq<char>)>,
            }),
        decreases cs@.len() - k,
    {
        let j = ws_end(cs, k);
        if j >= cs.len() {
            return None;
        }
        if cs[j] != '"' {
            return None;
        }
        proof {
            assert(cs@.skip(j as int).drop_first() =~= cs@.skip(j + 1));
            lemma_parse_string_body_shrinks(cs@.skip(j + 1));
        }
        match parse_string_body_at(cs, j + 1) {
            None => {
                return None;
            },
            Some((e, j2)) => {
                proof {
                    // The literal consumed at least its closing quote.
                    assert(cs@.skip(j2 as int).len() < cs@.skip(j + 1).len());
                }
                let u = ws_end(cs, j2);
                if u >= cs.len() {
                    return None;
                }
                let d = cs[u];
                if d == ']' {
                    proof {
                        assert(cs@.skip(u as int).drop_first() =~= cs@.skip(u + 1));
                        assert(str_views(acc@.push(e)) =~= str_views(acc@) + seq![e@]);
                        assert(str_views(acc@) + (seq![e@]) + Seq::<Seq<char>>::empty() =~= str_views(
                            acc@,
                        ) + seq![e@]);
                    }
                    acc.push(e);
                    return Some((acc, u + 1));
                } else if d == ',' {
                    proof {
                        assert(cs@.skip(u as int).drop_first() =~= cs@.skip(u + 1));
                        assert(str_views(acc@.push(e)) =~= str_views(acc@) + seq![e@]);
                        if parse_elements(cs@.skip(u + 1)) is Some {
                            let p = parse_elements(cs@.skip(u + 1))->0;
                            assert(str_views(acc@) + (seq![e@] + p.0) =~= (str_views(acc@)
                                + seq![e@]) + p.0);
                        }
                    }
                    acc.push(e);
                    k = u + 1;
                } else {
                    return None;
                }
            },
        }
    }
}

/// Decode a serialized sequence of strings; malformed text is rejected,
/// never defaulted.
pub fn decode_event_ids(s: &str) -> (r: Result<Vec<String>, StorageError>)
    ensures
        match parse_string_list(s@) {
            Some(els) => r matches Ok(v) && str_views(v@) == els,
            None => r == Err::<Vec<String>, StorageError>(StorageError::InvalidEncoding),
        },
{
    let cs = chars_vec(s);
    proof {
        assert(cs@.skip(0) =~= s@);
    }
    let i = ws_end(&cs, 0);
    if i >= cs.len() {
        return Err(StorageError::InvalidEncoding);
    }
    if cs[i] != '[' {
        return Err(StorageError::InvalidEncoding);
    }
    proof {
        assert(cs@.skip(i as int).drop_first() =~= cs@.skip(i + 1));
    }
    let j = ws_end(&cs, i + 1);
    if j < cs.len() && cs[j] == ']' {
        proof {
            assert(cs@.skip(j as int).drop_first() =~= cs@.skip(j + 1));
        }
        let j2 = ws_end(&cs, j + 1);
        if j2 >= cs.len() {
            let empty: Vec<String> = Vec::new();
            proof {
                assert(str_views(empty@) =~= Seq::<Seq<char>>::empty());
            }
            return Ok(empty);
        } else {
            return Err(StorageError::InvalidEncoding);
        }
    }
    match parse_elements_at(&cs, i + 1) {
        Some((els, r2)) => {
            let r3 = ws_end(&cs, r2);
            if r3 >= cs.len() {
                Ok(els)
            } else {
                Err(StorageError::InvalidEncoding)
            }
        },
        None => Err(StorageError::InvalidEncoding),
    }
}

} // verus!
