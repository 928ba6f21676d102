//! The executable codec: structured record ⇄ JSON text ⇄ binary contract
//! parameter.
//!
//! The binary form is the JSON text's bytes used verbatim: the ledger
//! contract stores and returns an opaque byte blob containing JSON. That
//! trades ledger storage efficiency for simplicity and schema evolvability,
//! and it is a deliberate choice, not an oversight.

use vstd::prelude::*;
use vstd::slice::slice_to_vec;
use vstd::string::*;
use vstd::utf8::{encode_utf8, valid_utf8};

use crate::accumulator::Accumulator;
use crate::entry::{RevocationRegistryEntry, RevocationRegistryEntryData};
use crate::error::{ErrorSpec, VdrError};
use crate::identifiers::{RevocationRegistryDefinitionId, DID};
use crate::wire::{
    dec_chars, digit_char, digit_val, entry_json, esc_char, escape, hex_char, hex_val,
    json_opt_array, json_opt_string, json_string, json_u32_array, lemma_arr_body_push,
    lemma_escape_push, match_lit, parse_entry, parse_entry_bytes,
};

verus! {

/// A binary payload accepted by the ledger transaction-building
/// collaborator. This crate only produces and consumes the byte content;
/// transaction construction happens elsewhere.
#[derive(Debug, Clone, PartialEq)]
pub enum ContractParam {
    Bytes(Vec<u8>),
}

/// Relies on `String::push`: appends exactly the one character.
#[verifier::external_body]
fn push_char(s: &mut String, c: char)
    ensures
        final(s)@ == old(s)@.push(c),
{
    s.push(c);
}

/// Relies on `String::from_utf8`: succeeds exactly on valid UTF-8 input and
/// returns the string that those bytes encode.
#[verifier::external_body]
fn utf8_to_string(v: Vec<u8>) -> (r: Option<String>)
    ensures
        r is Some <==> valid_utf8(v@),
        r matches Some(s) ==> encode_utf8(s@) == v@,
{
    match String::from_utf8(v) {
        Ok(s) => Some(s),
        Err(_) => None,
    }
}

/// The characters of a string, as an indexable vector.
fn string_to_chars(s: &str) -> (r: Vec<char>)
    ensures
        r@ == s@,
{
    let n = s.unicode_len();
    let mut out: Vec<char> = Vec::new();
    let mut i: usize = 0;
    while i < n
        invariant
            n == s@.len(),
            i <= n,
            out@ == s@.take(i as int),
        decreases n - i,
    {
        out.push(s.get_char(i));
        proof {
            assert(s@.take(i + 1 as int) =~= s@.take(i as int).push(s@[i as int]));
        }
        i += 1;
    }
    proof {
        assert(s@.take(n as int) =~= s@);
    }
    out
}

/// The decimal digit character for `d`.
fn digit_char_exec(d: u32) -> (r: char)
    requires
        d < 10,
    ensures
        r == digit_char(d as int),
{
    match d {
        0 => '0',
        1 => '1',
        2 => '2',
        3 => '3',
        4 => '4',
        5 => '5',
        6 => '6',
        7 => '7',
        8 => '8',
        _ => '9',
    }
}

/// The numeric value of a decimal digit character.
fn digit_val_exec(c: char) -> (r: Option<u32>)
    ensures
        r == digit_val(c),
{
    match c {
        '0' => Some(0),
        '1' => Some(1),
        '2' => Some(2),
        '3' => Some(3),
        '4' => Some(4),
        '5' => Some(5),
        '6' => Some(6),
        '7' => Some(7),
        '8' => Some(8),
        '9' => Some(9),
        _ => None,
    }
}

/// The lower-case hexadecimal digit character for `d`.
fn hex_char_exec(d: u32) -> (r: char)
    requires
        d < 16,
    ensures
        r == hex_char(d as int),
{
    if d < 10 {
        digit_char_exec(d)
    } else {
        match d {
            10 => 'a',
            11 => 'b',
            12 => 'c',
            13 => 'd',
            14 => 'e',
            _ => 'f',
        }
    }
}

/// The numeric value of a hexadecimal digit character.
fn hex_val_exec(c: char) -> (r: Option<u8>)
    ensures
        r == hex_val(c),
{
    match c {
        'a' | 'A' => Some(10),
        'b' | 'B' => Some(11),
        'c' | 'C' => Some(12),
        'd' | 'D' => Some(13),
        'e' | 'E' => Some(14),
        'f' | 'F' => Some(15),
        _ => match digit_val_exec(c) {
            Some(d) => Some(d as u8),
            None => None,
        },
    }
}

/// Writes the decimal digits of `n`, most significant first.
pub(crate) fn append_dec_u64(out: &mut String, n: u64)
    ensures
        final(out)@ == old(out)@ + dec_chars(n as int),
    decreases n,
{
    if n < 10 {
        push_char(out, digit_char_exec(n as u32));
        proof {
            assert(old(out)@.push(digit_char(n as int)) =~= old(out)@ + dec_chars(n as int));
        }
    } else {
        append_dec_u64(out, n / 10);
        push_char(out, digit_char_exec((n % 10) as u32));
        proof {
            assert((old(out)@ + dec_chars(n as int / 10)).push(digit_char(n as int % 10)) =~= old(
                out,
            )@ + dec_chars(n as int));
        }
    }
}

/// Writes the escaped body of a string value.
fn append_escaped(out: &mut String, t: &str)
    ensures
        final(out)@ == old(out)@ + escape(t@),
{
    let cs = string_to_chars(t);
    let mut i: usize = 0;
    while i < cs.len()
        invariant
            cs@ == t@,
            i <= cs.len(),
            out@ == old(out)@ + escape(t@.take(i as int)),
        decreases cs.len() - i,
    {
        let c = cs[i];
        proof {
            assert(t@.take(i + 1 as int) =~= t@.take(i as int).push(c));
            lemma_escape_push(t@.take(i as int), c);
        }
        if c == '"' {
            out.append("\\\"");
            proof {
                reveal_strlit("\\\"");
                assert("\\\""@ =~= esc_char(c));
            }
        } else if c == '\\' {
            out.append("\\\\");
            proof {
                reveal_strlit("\\\\");
                assert("\\\\"@ =~= esc_char(c));
            }
        } else if c == '\u{08}' {
            out.append("\\b");
            proof {
                reveal_strlit("\\b");
                assert("\\b"@ =~= esc_char(c));
            }
        } else if c == '\u{09}' {
            out.append("\\t");
            proof {
                reveal_strlit("\\t");
                assert("\\t"@ =~= esc_char(c));
            }
        } else if c == '\u{0a}' {
            out.append("\\n");
            proof {
                reveal_strlit("\\n");
                assert("\\n"@ =~= esc_char(c));
            }
        } else if c == '\u{0c}' {
            out.append("\\f");
            proof {
                reveal_strlit("\\f");
                assert("\\f"@ =~= esc_char(c));
            }
        } else if c == '\u{0d}' {
            out.append("\\r");
            proof {
                reveal_strlit("\\r");
                assert("\\r"@ =~= esc_char(c));
            }
        } else if (c as u32) < 0x20 {
            let u = c as u32;
            out.append("\\u00");
            push_char(out, hex_char_exec(u / 16));
            push_char(out, hex_char_exec(u % 16));
            proof {
                reveal_strlit("\\u00");
                assert(("\\u00"@.push(hex_char(u as int / 16))).push(hex_char(u as int % 16))
                    =~= esc_char(c));
            }
        } else {
            push_char(out, c);
            proof {
                assert(seq![c] =~= esc_char(c));
            }
        }
        proof {
            assert(out@ =~= old(out)@ + escape(t@.take(i + 1 as int)));
        }
        i += 1;
    }
    proof {
        assert(t@.take(cs@.len() as int) =~= t@);
    }
}

/// Writes a string value, quotes included.
fn append_json_string(out: &mut String, t: &str)
    ensures
        final(out)@ == old(out)@ + json_string(t@),
{
    out.append("\"");
    append_escaped(out, t);
    out.append("\"");
    proof {
        reveal_strlit("\"");
        assert(old(out)@ + "\""@ + escape(t@) + "\""@ =~= old(out)@ + json_string(t@));
    }
}

/// Writes an optional string value: `null` when absent.
fn append_opt_json_string(out: &mut String, o: &Option<Accumulator>)
    ensures
        final(out)@ == old(out)@ + json_opt_string(crate::accumulator::opt_accumulator_view(*o)),
{
    match o {
        Some(a) => append_json_string(out, a.0.as_str()),
        None => out.append("null"),
    }
}

/// Writes an index array, brackets included.
fn append_u32_array(out: &mut String, xs: &Vec<u32>)
    ensures
        final(out)@ == old(out)@ + json_u32_array(xs@),
{
    out.append("[");
    let ghost open_done = out@;
    let mut i: usize = 0;
    while i < xs.len()
        invariant
            i <= xs.len(),
            out@ == open_done + crate::wire::arr_body(xs@.take(i as int)),
            open_done == old(out)@ + "["@,
        decreases xs.len() - i,
    {
        proof {
            assert(xs@.take(i + 1 as int) =~= xs@.take(i as int).push(xs@[i as int]));
            lemma_arr_body_push(xs@.take(i as int), xs@[i as int]);
        }
        if i > 0 {
            out.append(",");
            proof {
                reveal_strlit(",");
                assert(","@ =~= seq![',']);
            }
        }
        append_dec_u64(out, xs[i] as u64);
        proof {
            assert(out@ =~= open_done + crate::wire::arr_body(xs@.take(i + 1 as int)));
        }
        i += 1;
    }
    out.append("]");
    proof {
        reveal_strlit("[");
        reveal_strlit("]");
        assert(xs@.take(xs@.len() as int) =~= xs@);
        assert(open_done + crate::wire::arr_body(xs@) + "]"@ =~= old(out)@ + json_u32_array(xs@));
    }
}

/// Writes an optional index array: `null` when absent.
fn append_opt_u32_array(out: &mut String, o: &Option<Vec<u32>>)
    ensures
        final(out)@ == old(out)@ + json_opt_array(crate::entry::opt_indices_view(*o)),
{
    match o {
        Some(xs) => append_u32_array(out, xs),
        None => out.append("null"),
    }
}

/// Whether `lit` stands at position `at` of `v`.
fn match_lit_exec(v: &Vec<char>, at: usize, lit: &str) -> (r: bool)
    ensures
        r == match_lit(v@, at as int, lit@),
{
    let n = lit.unicode_len();
    if at > v.len() || v.len() - at < n {
        return false;
    }
    let mut j: usize = 0;
    while j < n
        invariant
            j <= n,
            at + n <= v.len(),
            n == lit@.len(),
            forall|k: int| 0 <= k < j ==> v@[at + k] == lit@[k],
        decreases n - j,
    {
        if v[at + j] != lit.get_char(j) {
            proof {
                assert(v@.subrange(at as int, at + lit@.len() as int)[j as int] == v@[at + j]);
            }
            return false;
        }
        j += 1;
    }
    proof {
        assert(v@.subrange(at as int, at + lit@.len() as int) =~= lit@);
    }
    true
}

/// Whether two strings hold the same characters.
fn str_eq(a: &str, b: &str) -> (r: bool)
    ensures
        r == (a@ == b@),
{
    let na = a.unicode_len();
    let nb = b.unicode_len();
    if na != nb {
        return false;
    }
    let mut j: usize = 0;
    while j < na
        invariant
            j <= na,
            na == a@.len(),
            na == b@.len(),
            forall|k: int| 0 <= k < j ==> a@[k] == b@[k],
        decreases na - j,
    {
        if a.get_char(j) != b.get_char(j) {
            return false;
        }
        j += 1;
    }
    proof {
        assert(a@ =~= b@);
    }
    true
}

/// Whether a character is insignificant JSON whitespace.
fn is_ws_exec(c: char) -> (r: bool)
    ensures
        r == crate::wire::is_ws(c),
{
    c == ' ' || c == '\t' || c == '\n' || c == '\r'
}

/// The first position at or after `i` that holds no whitespace.
fn skip_ws_exec(v: &Vec<char>, i: usize) -> (r: usize)
    requires
        i <= v.len(),
    ensures
        r as int == crate::wire::skip_ws(v@, i as int),
        i <= r <= v.len(),
{
    let mut cur = i;
    while cur < v.len() && is_ws_exec(v[cur])
        invariant
            i <= cur <= v.len(),
            crate::wire::skip_ws(v@, i as int) == crate::wire::skip_ws(v@, cur as int),
        decreases v.len() - cur,
    {
        cur += 1;
    }
    cur
}

/// Relies on `char::from_u32`: yields the character for a Unicode scalar
/// value, and nothing for a surrogate or out-of-range value.
#[verifier::external_body]
fn char_from_u32(value: u32) -> (r: Option<char>)
    ensures
        r is Some <==> (value < 0xD800 || (0xE000 <= value && value < 0x110000)),
        r matches Some(c) ==> (c as u32) == value,
{
    char::from_u32(value)
}

/// The character a named two-character escape stands for.
fn simple_unescape_exec(c: char) -> (r: Option<char>)
    ensures
        r == crate::wire::simple_unescape(c),
{
    match c {
        '"' => Some('"'),
        '\\' => Some('\\'),
        '/' => Some('/'),
        'b' => Some('\u{08}'),
        'f' => Some('\u{0c}'),
        'n' => Some('\u{0a}'),
        'r' => Some('\u{0d}'),
        't' => Some('\u{09}'),
        _ => None,
    }
}

/// The value of the four hexadecimal digits at `i`, when all four are
/// hexadecimal digits.
fn hex4_exec(v: &Vec<char>, i: usize) -> (r: Option<u32>)
    requires
        i + 4 <= v.len(),
    ensures
        match r {
            Some(code) => hex_val(v@[i as int]) is Some && hex_val(v@[i as int + 1]) is Some
                && hex_val(v@[i as int + 2]) is Some && hex_val(v@[i as int + 3]) is Some && code
                as int == crate::wire::hex4(v@, i as int) && code < 0x10000,
            None => !(hex_val(v@[i as int]) is Some && hex_val(v@[i as int + 1]) is Some && hex_val(
                v@[i as int + 2],
            ) is Some && hex_val(v@[i as int + 3]) is Some),
        },
{
    match (hex_val_exec(v[i]), hex_val_exec(v[i + 1]), hex_val_exec(v[i + 2]), hex_val_exec(
        v[i + 3],
    )) {
        (Some(h0), Some(h1), Some(h2), Some(h3)) => Some(
            (h0 as u32) * 4096 + (h1 as u32) * 256 + (h2 as u32) * 16 + (h3 as u32),
        ),
        _ => None,
    }
}

/// Reads the rest of a string value, after its opening quote.
fn parse_string_rest_exec(v: &Vec<char>, i: usize) -> (r: Option<(String, usize)>)
    ensures
        match r {
            Some(p) => crate::wire::parse_string_rest(v@, i as int) == Some((p.0@, p.1 as int))
                && i < p.1 <= v.len(),
            None => crate::wire::parse_string_rest(v@, i as int) is None,
        },
    decreases v.len() - i,
{
    if i >= v.len() {
        return None;
    }
    let c = v[i];
    if c == '"' {
        Some((String::new(), i + 1))
    } else if c == '\\' {
        if v.len() - i < 2 {
            return None;
        }
        let c2 = v[i + 1];
        if c2 == 'u' {
            if v.len() - i < 6 {
                return None;
            }
            match hex4_exec(v, i + 2) {
                Some(code) => {
                    if 0xD800 <= code && code < 0xDC00 {
                        if v.len() - i < 12 {
                            return None;
                        }
                        if v[i + 6] != '\\' || v[i + 7] != 'u' {
                            return None;
                        }
                        match hex4_exec(v, i + 8) {
                            Some(low) => {
                                if 0xDC00 <= low && low < 0xE000 {
                                    let cp: u32 = 0x10000 + (code - 0xD800) * 0x400 + (low
                                        - 0xDC00);
                                    let ch = match char_from_u32(cp) {
                                        Some(ch) => ch,
                                        None => return None,
                                    };
                                    proof {
                                        vstd::utf8::char_u32_cast(ch, cp);
                                    }
                                    match parse_string_rest_exec(v, i + 12) {
                                        Some((t, j)) => {
                                            let mut s2 = String::new();
                                            push_char(&mut s2, ch);
                                            s2.append(t.as_str());
                                            proof {
                                                assert(s2@ =~= seq![ch] + t@);
                                            }
                                            Some((s2, j))
                                        },
                                        None => None,
                                    }
                                } else {
                                    None
                                }
                            },
                            None => None,
                        }
                    } else if 0xDC00 <= code && code < 0xE000 {
                        None
                    } else {
                        let ch = match char_from_u32(code) {
                            Some(ch) => ch,
                            None => return None,
                        };
                        proof {
                            vstd::utf8::char_u32_cast(ch, code);
                        }
                        match parse_string_rest_exec(v, i + 6) {
                            Some((t, j)) => {
                                let mut s2 = String::new();
                                push_char(&mut s2, ch);
                                s2.append(t.as_str());
                                proof {
                                    assert(s2@ =~= seq![ch] + t@);
                                }
                                Some((s2, j))
                            },
                            None => None,
                        }
                    }
                },
                None => None,
            }
        } else {
            match simple_unescape_exec(c2) {
                Some(ch) => match parse_string_rest_exec(v, i + 2) {
                    Some((t, j)) => {
                        let mut s2 = String::new();
                        push_char(&mut s2, ch);
                        s2.append(t.as_str());
                        proof {
                            assert(s2@ =~= seq![ch] + t@);
                        }
                        Some((s2, j))
                    },
                    None => None,
                },
                None => None,
            }
        }
    } else if (c as u32) >= 0x20 {
        match parse_string_rest_exec(v, i + 1) {
            Some((t, j)) => {
                let mut s2 = String::new();
                push_char(&mut s2, c);
                s2.append(t.as_str());
                proof {
                    assert(s2@ =~= seq![c] + t@);
                }
                Some((s2, j))
            },
            None => None,
        }
    } else {
        None
    }
}

/// Reads a string value, quotes included.
fn parse_string_exec(v: &Vec<char>, i: usize) -> (r: Option<(String, usize)>)
    ensures
        match r {
            Some(p) => crate::wire::parse_string(v@, i as int) == Some((p.0@, p.1 as int)) && i
                < p.1 <= v.len(),
            None => crate::wire::parse_string(v@, i as int) is None,
        },
{
    if i < v.len() && v[i] == '"' {
        parse_string_rest_exec(v, i + 1)
    } else {
        None
    }
}

/// Reads digits into an accumulated value.
fn parse_u32_rest_exec(v: &Vec<char>, i: usize, acc: u32) -> (r: Option<(u32, usize)>)
    requires
        i <= v.len(),
    ensures
        match r {
            Some(p) => crate::wire::parse_u32_rest(v@, i as int, acc) == Some((p.0, p.1 as int))
                && i <= p.1 <= v.len(),
            None => crate::wire::parse_u32_rest(v@, i as int, acc) is None,
        },
    decreases v.len() - i,
{
    if i < v.len() {
        match digit_val_exec(v[i]) {
            Some(d) => {
                let wide: u64 = (acc as u64) * 10 + (d as u64);
                if wide <= u32::MAX as u64 {
                    parse_u32_rest_exec(v, i + 1, wide as u32)
                } else {
                    None
                }
            },
            None => Some((acc, i)),
        }
    } else {
        Some((acc, i))
    }
}

/// Reads an index: one or more decimal digits, a leading zero standing
/// alone.
fn parse_u32_exec(v: &Vec<char>, i: usize) -> (r: Option<(u32, usize)>)
    ensures
        match r {
            Some(p) => crate::wire::parse_u32(v@, i as int) == Some((p.0, p.1 as int)) && i < p.1
                <= v.len(),
            None => crate::wire::parse_u32(v@, i as int) is None,
        },
{
    if i < v.len() && digit_val_exec(v[i]).is_some() {
        if v[i] == '0' {
            if i + 1 < v.len() && digit_val_exec(v[i + 1]).is_some() {
                None
            } else {
                Some((0, i + 1))
            }
        } else {
            match parse_u32_rest_exec(v, i, 0) {
                Some((x, j)) => {
                    proof {
                        let d = digit_val(v@[i as int]).unwrap();
                        assert(((0u32 as int) * 10 + (d as int)) as u32 == d);
                        crate::wire::lemma_parse_u32_rest_bounds(v@, i as int + 1, d);
                    }
                    Some((x, j))
                },
                None => None,
            }
        }
    } else {
        None
    }
}

/// Reads the elements of a non-empty index array, after the opening bracket
/// and any whitespace.
fn parse_u32_array_rest_exec(v: &Vec<char>, i: usize) -> (r: Option<(Vec<u32>, usize)>)
    ensures
        match r {
            Some(p) => crate::wire::parse_u32_array_rest(v@, i as int) == Some((p.0@, p.1 as int))
                && i < p.1 <= v.len(),
            None => crate::wire::parse_u32_array_rest(v@, i as int) is None,
        },
    decreases v.len() - i,
{
    match parse_u32_exec(v, i) {
        Some((x, j0)) => {
            let j = skip_ws_exec(v, j0);
            if j < v.len() {
                if v[j] == ']' {
                    let mut out: Vec<u32> = Vec::new();
                    out.push(x);
                    proof {
                        assert(out@ =~= seq![x]);
                    }
                    Some((out, j + 1))
                } else if v[j] == ',' {
                    let k = skip_ws_exec(v, j + 1);
                    match parse_u32_array_rest_exec(v, k) {
                        Some((rest, m)) => {
                            let ghost rest_elems = rest@;
                            let mut out = rest;
                            out.insert(0, x);
                            proof {
                                assert(out@ =~= seq![x] + rest_elems);
                            }
                            Some((out, m))
                        },
                        None => None,
                    }
                } else {
                    None
                }
            } else {
                None
            }
        },
        None => None,
    }
}

/// Reads an index array, brackets included.
fn parse_u32_array_exec(v: &Vec<char>, i: usize) -> (r: Option<(Vec<u32>, usize)>)
    ensures
        match r {
            Some(p) => crate::wire::parse_u32_array(v@, i as int) == Some((p.0@, p.1 as int)) && i
                < p.1 <= v.len(),
            None => crate::wire::parse_u32_array(v@, i as int) is None,
        },
{
    if i < v.len() && v[i] == '[' {
        let j = skip_ws_exec(v, i + 1);
        if j < v.len() {
            if v[j] == ']' {
                Some((Vec::new(), j + 1))
            } else {
                parse_u32_array_rest_exec(v, j)
            }
        } else {
            None
        }
    } else {
        None
    }
}

/// Reads an optional string value: `null` or a string.
fn parse_opt_string_exec(v: &Vec<char>, i: usize) -> (r: Option<(Option<String>, usize)>)
    ensures
        match r {
            Some(p) => crate::wire::parse_opt_string(v@, i as int) == Some(
                (
                    match p.0 {
                        Some(t) => Some(t@),
                        None => None,
                    },
                    p.1 as int,
                ),
            ) && i < p.1 <= v.len(),
            None => crate::wire::parse_opt_string(v@, i as int) is None,
        },
{
    if i >= v.len() {
        return None;
    }
    if v[i] == '"' {
        match parse_string_exec(v, i) {
            Some((t, j)) => Some((Some(t), j)),
            None => None,
        }
    } else if match_lit_exec(v, i, "null") {
        proof {
            reveal_strlit("null");
        }
        Some((None, i + 4))
    } else {
        None
    }
}

/// Reads an optional index array: `null` or an array.
fn parse_opt_array_exec(v: &Vec<char>, i: usize) -> (r: Option<(Option<Vec<u32>>, usize)>)
    ensures
        match r {
            Some(p) => crate::wire::parse_opt_array(v@, i as int) == Some(
                (
                    match p.0 {
                        Some(xs) => Some(xs@),
                        None => None,
                    },
                    p.1 as int,
                ),
            ) && i < p.1 <= v.len(),
            None => crate::wire::parse_opt_array(v@, i as int) is None,
        },
{
    if i >= v.len() {
        return None;
    }
    if v[i] == '[' {
        match parse_u32_array_exec(v, i) {
            Some((xs, j)) => Some((Some(xs), j)),
            None => None,
        }
    } else if match_lit_exec(v, i, "null") {
        proof {
            reveal_strlit("null");
        }
        Some((None, i + 4))
    } else {
        None
    }
}

/// The members of the entry data object read so far.
struct PartialDataAcc {
    current_accumulator: Option<String>,
    prev_accumulator: Option<Option<String>>,
    issued: Option<Option<Vec<u32>>>,
    revoked: Option<Option<Vec<u32>>>,
}

impl View for PartialDataAcc {
    type V = crate::wire::PartialData;

    closed spec fn view(&self) -> crate::wire::PartialData {
        crate::wire::PartialData {
            current_accumulator: match self.current_accumulator {
                Some(s) => Some(s@),
                None => None,
            },
            prev_accumulator: match self.prev_accumulator {
                Some(Some(s)) => Some(Some(s@)),
                Some(None) => Some(None),
                None => None,
            },
            issued: match self.issued {
                Some(Some(xs)) => Some(Some(xs@)),
                Some(None) => Some(None),
                None => None,
            },
            revoked: match self.revoked {
                Some(Some(xs)) => Some(Some(xs@)),
                Some(None) => Some(None),
                None => None,
            },
        }
    }
}

/// Reads one member of the entry data object.
fn data_member_exec(v: &Vec<char>, i: usize, acc: PartialDataAcc) -> (r: Option<
    (PartialDataAcc, usize),
>)
    ensures
        match r {
            Some(p) => crate::wire::data_member(v@, i as int, acc@) == Some((p.0@, p.1 as int))
                && i < p.1 <= v.len(),
            None => crate::wire::data_member(v@, i as int, acc@) is None,
        },
{
    let (name, j0) = match parse_string_exec(v, i) {
        Some(p) => p,
        None => return None,
    };
    let j1 = skip_ws_exec(v, j0);
    if j1 >= v.len() || v[j1] != ':' {
        return None;
    }
    let j2 = skip_ws_exec(v, j1 + 1);
    if str_eq(name.as_str(), "currentAccumulator") {
        if acc.current_accumulator.is_some() {
            return None;
        }
        match parse_string_exec(v, j2) {
            Some((val, j3)) => Some(
                (PartialDataAcc { current_accumulator: Some(val), ..acc }, j3),
            ),
            None => None,
        }
    } else if str_eq(name.as_str(), "prevAccumulator") {
        if acc.prev_accumulator.is_some() {
            return None;
        }
        match parse_opt_string_exec(v, j2) {
            Some((val, j3)) => Some((PartialDataAcc { prev_accumulator: Some(val), ..acc }, j3)),
            None => None,
        }
    } else if str_eq(name.as_str(), "issued") {
        if acc.issued.is_some() {
            return None;
        }
        match parse_opt_array_exec(v, j2) {
            Some((val, j3)) => Some((PartialDataAcc { issued: Some(val), ..acc }, j3)),
            None => None,
        }
    } else if str_eq(name.as_str(), "revoked") {
        if acc.revoked.is_some() {
            return None;
        }
        match parse_opt_array_exec(v, j2) {
            Some((val, j3)) => Some((PartialDataAcc { revoked: Some(val), ..acc }, j3)),
            None => None,
        }
    } else {
        None
    }
}

/// Reads the member list of the entry data object up to its closing brace.
fn data_members_exec(v: &Vec<char>, i: usize, acc: PartialDataAcc) -> (r: Option<
    (PartialDataAcc, usize),
>)
    ensures
        match r {
            Some(p) => crate::wire::data_members(v@, i as int, acc@) == Some((p.0@, p.1 as int))
                && i < p.1 <= v.len(),
            None => crate::wire::data_members(v@, i as int, acc@) is None,
        },
    decreases v.len() - i,
{
    let (acc2, j0) = match data_member_exec(v, i, acc) {
        Some(p) => p,
        None => return None,
    };
    let j = skip_ws_exec(v, j0);
    if j >= v.len() {
        return None;
    }
    if v[j] == '}' {
        Some((acc2, j + 1))
    } else if v[j] == ',' {
        let k = skip_ws_exec(v, j + 1);
        data_members_exec(v, k, acc2)
    } else {
        None
    }
}

/// Reads the entry data object.
fn parse_entry_data_exec(v: &Vec<char>, i: usize) -> (r: Option<
    (RevocationRegistryEntryData, usize),
>)
    ensures
        match r {
            Some(p) => crate::wire::parse_entry_data(v@, i as int) == Some((p.0@, p.1 as int)) && i
                < p.1 <= v.len(),
            None => crate::wire::parse_entry_data(v@, i as int) is None,
        },
{
    if i >= v.len() || v[i] != '{' {
        return None;
    }
    let j = skip_ws_exec(v, i + 1);
    if j >= v.len() || v[j] == '}' {
        return None;
    }
    match data_members_exec(
        v,
        j,
        PartialDataAcc {
            current_accumulator: None,
            prev_accumulator: None,
            issued: None,
            revoked: None,
        },
    ) {
        Some((acc, k)) => match acc.current_accumulator {
            Some(current) => {
                let prev = match acc.prev_accumulator {
                    Some(p) => p,
                    None => None,
                };
                let issued = match acc.issued {
                    Some(p) => p,
                    None => None,
                };
                let revoked = match acc.revoked {
                    Some(p) => p,
                    None => None,
                };
                Some(
                    (
                        RevocationRegistryEntryData {
                            current_accumulator: Accumulator(current),
                            prev_accumulator: match prev {
                                Some(p) => Some(Accumulator(p)),
                                None => None,
                            },
                            issued,
                            revoked,
                        },
                        k,
                    ),
                )
            },
            None => None,
        },
        None => None,
    }
}

/// The members of the entry object read so far.
struct PartialEntryAcc {
    rev_reg_def_id: Option<String>,
    issuer_id: Option<String>,
    data: Option<RevocationRegistryEntryData>,
}

impl View for PartialEntryAcc {
    type V = crate::wire::PartialEntry;

    closed spec fn view(&self) -> crate::wire::PartialEntry {
        crate::wire::PartialEntry {
            rev_reg_def_id: match self.rev_reg_def_id {
                Some(s) => Some(s@),
                None => None,
            },
            issuer_id: match self.issuer_id {
                Some(s) => Some(s@),
                None => None,
            },
            data: match self.data {
                Some(d) => Some(d@),
                None => None,
            },
        }
    }
}

/// Reads one member of the entry object.
fn entry_member_exec(v: &Vec<char>, i: usize, acc: PartialEntryAcc) -> (r: Option<
    (PartialEntryAcc, usize),
>)
    ensures
        match r {
            Some(p) => crate::wire::entry_member(v@, i as int, acc@) == Some((p.0@, p.1 as int))
                && i < p.1 <= v.len(),
            None => crate::wire::entry_member(v@, i as int, acc@) is None,
        },
{
    let (name, j0) = match parse_string_exec(v, i) {
        Some(p) => p,
        None => return None,
    };
    let j1 = skip_ws_exec(v, j0);
    if j1 >= v.len() || v[j1] != ':' {
        return None;
    }
    let j2 = skip_ws_exec(v, j1 + 1);
    if str_eq(name.as_str(), "revRegDefId") {
        if acc.rev_reg_def_id.is_some() {
            return None;
        }
        match parse_string_exec(v, j2) {
            Some((val, j3)) => Some((PartialEntryAcc { rev_reg_def_id: Some(val), ..acc }, j3)),
            None => None,
        }
    } else if str_eq(name.as_str(), "issuerId") {
        if acc.issuer_id.is_some() {
            return None;
        }
        match parse_string_exec(v, j2) {
            Some((val, j3)) => Some((PartialEntryAcc { issuer_id: Some(val), ..acc }, j3)),
            None => None,
        }
    } else if str_eq(name.as_str(), "rev_reg_entry_data") {
        if acc.data.is_some() {
            return None;
        }
        match parse_entry_data_exec(v, j2) {
            Some((val, j3)) => Some((PartialEntryAcc { data: Some(val), ..acc }, j3)),
            None => None,
        }
    } else {
        None
    }
}

/// Reads the member list of the entry object up to its closing brace.
fn entry_members_exec(v: &Vec<char>, i: usize, acc: PartialEntryAcc) -> (r: Option<
    (PartialEntryAcc, usize),
>)
    ensures
        match r {
            Some(p) => crate::wire::entry_members(v@, i as int, acc@) == Some((p.0@, p.1 as int))
                && i < p.1 <= v.len(),
            None => crate::wire::entry_members(v@, i as int, acc@) is None,
        },
    decreases v.len() - i,
{
    let (acc2, j0) = match entry_member_exec(v, i, acc) {
        Some(p) => p,
        None => return None,
    };
    let j = skip_ws_exec(v, j0);
    if j >= v.len() {
        return None;
    }
    if v[j] == '}' {
        Some((acc2, j + 1))
    } else if v[j] == ',' {
        let k = skip_ws_exec(v, j + 1);
        entry_members_exec(v, k, acc2)
    } else {
        None
    }
}

/// Reads a whole entry object beginning at position `i`.
fn parse_entry_at_exec(v: &Vec<char>, i: usize) -> (r: Option<(RevocationRegistryEntry, usize)>)
    ensures
        match r {
            Some(p) => crate::wire::parse_entry_at(v@, i as int) == Some((p.0@, p.1 as int)) && p.1
                <= v.len(),
            None => crate::wire::parse_entry_at(v@, i as int) is None,
        },
{
    if i >= v.len() || v[i] != '{' {
        return None;
    }
    let j = skip_ws_exec(v, i + 1);
    if j >= v.len() || v[j] == '}' {
        return None;
    }
    match entry_members_exec(
        v,
        j,
        PartialEntryAcc { rev_reg_def_id: None, issuer_id: None, data: None },
    ) {
        Some((acc, k)) => match (acc.rev_reg_def_id, acc.issuer_id, acc.data) {
            (Some(rev_reg_def_id), Some(issuer_id), Some(rev_reg_entry_data)) => Some(
                (
                    RevocationRegistryEntry {
                        rev_reg_def_id: RevocationRegistryDefinitionId(rev_reg_def_id),
                        issuer_id: DID(issuer_id),
                        rev_reg_entry_data,
                    },
                    k,
                ),
            ),
            _ => None,
        },
        None => None,
    }
}

/// The error raised when wire text or bytes cannot be understood.
fn serialization_error(diagnostic: &str) -> (r: VdrError)
    ensures
        r@ == ErrorSpec::SerializationError,
{
    VdrError::SerializationError { message: String::from_str(diagnostic) }
}

/// Writes one member whose value is a string.
fn append_string_member(out: &mut String, name: &str, value: &str)
    ensures
        final(out)@ == old(out)@ + crate::wire::member_text(name@, json_string(value@)),
{
    append_json_string(out, name);
    out.append(":");
    append_json_string(out, value);
    proof {
        assert(out@ =~= old(out)@ + crate::wire::member_text(name@, json_string(value@)));
    }
}

/// Writes one member whose value is an optional string.
fn append_opt_string_member(out: &mut String, name: &str, value: &Option<Accumulator>)
    ensures
        final(out)@ == old(out)@ + crate::wire::member_text(
            name@,
            json_opt_string(crate::accumulator::opt_accumulator_view(*value)),
        ),
{
    append_json_string(out, name);
    out.append(":");
    append_opt_json_string(out, value);
    proof {
        assert(out@ =~= old(out)@ + crate::wire::member_text(
            name@,
            json_opt_string(crate::accumulator::opt_accumulator_view(*value)),
        ));
    }
}

/// Writes one member whose value is an optional index array.
fn append_opt_array_member(out: &mut String, name: &str, value: &Option<Vec<u32>>)
    ensures
        final(out)@ == old(out)@ + crate::wire::member_text(
            name@,
            json_opt_array(crate::entry::opt_indices_view(*value)),
        ),
{
    append_json_string(out, name);
    out.append(":");
    append_opt_u32_array(out, value);
    proof {
        assert(out@ =~= old(out)@ + crate::wire::member_text(
            name@,
            json_opt_array(crate::entry::opt_indices_view(*value)),
        ));
    }
}

/// Writes the entry data as its nested wire object.
fn append_entry_data(out: &mut String, d: &RevocationRegistryEntryData)
    ensures
        final(out)@ == old(out)@ + crate::wire::data_json(d@),
{
    out.append("{");
    append_string_member(out, "currentAccumulator", d.current_accumulator.0.as_str());
    out.append(",");
    append_opt_string_member(out, "prevAccumulator", &d.prev_accumulator);
    out.append(",");
    append_opt_array_member(out, "issued", &d.issued);
    out.append(",");
    append_opt_array_member(out, "revoked", &d.revoked);
    out.append("}");
    proof {
        assert(out@ =~= old(out)@ + crate::wire::data_json(d@));
    }
}

impl RevocationRegistryEntry {
    /// Writes the entry as its JSON wire text.
    pub fn to_string(&self) -> (r: Result<String, VdrError>)
        ensures
            r matches Ok(s) && s@ == entry_json(self@),
    {
        let mut out = String::new();
        out.append("{");
        append_string_member(&mut out, "revRegDefId", self.rev_reg_def_id.0.as_str());
        out.append(",");
        append_string_member(&mut out, "issuerId", self.issuer_id.0.as_str());
        out.append(",");
        append_json_string(&mut out, "rev_reg_entry_data");
        out.append(":");
        append_entry_data(&mut out, &self.rev_reg_entry_data);
        out.append("}");
        proof {
            assert(out@ =~= entry_json(self@));
        }
        Ok(out)
    }

    /// Reads an entry back out of its JSON wire text. Succeeds exactly on
    /// texts the wire grammar accepts, and fails with a serialization error
    /// on every other text.
    pub fn from_string(value: &str) -> (r: Result<RevocationRegistryEntry, VdrError>)
        ensures
            match r {
                Ok(e) => parse_entry(value@) == Some(e@),
                Err(err) => parse_entry(value@) is None && err@ == ErrorSpec::SerializationError,
            },
    {
        let chars = string_to_chars(value);
        let start = skip_ws_exec(&chars, 0);
        match parse_entry_at_exec(&chars, start) {
            Some((e, j)) => {
                let end = skip_ws_exec(&chars, j);
                if end == chars.len() {
                    Ok(e)
                } else {
                    Err(
                        serialization_error(
                            "unable to parse a revocation registry entry: text continues after the record",
                        ),
                    )
                }
            },
            None => Err(
                serialization_error(
                    "unable to parse a revocation registry entry: the text does not match the record's wire form",
                ),
            ),
        }
    }

    /// Writes the entry as a binary contract parameter: the bytes of its
    /// JSON wire text, verbatim.
    pub fn to_contract_param(&self) -> (r: Result<ContractParam, VdrError>)
        ensures
            r matches Ok(ContractParam::Bytes(b)) && b@ == encode_utf8(entry_json(self@)),
    {
        let text = match self.to_string() {
            Ok(s) => s,
            Err(e) => return Err(e),
        };
        Ok(ContractParam::Bytes(text.as_str().as_bytes_vec()))
    }

    /// Reads an entry back out of a ledger response byte blob: bytes, then
    /// JSON text, then the structured record, failing with a serialization
    /// error when any step fails.
    pub fn from_contract_bytes(value: &[u8]) -> (r: Result<RevocationRegistryEntry, VdrError>)
        ensures
            match r {
                Ok(e) => parse_entry_bytes(value@) == Some(e@),
                Err(err) => parse_entry_bytes(value@) is None && err@
                    == ErrorSpec::SerializationError,
            },
    {
        let owned = slice_to_vec(value);
        match utf8_to_string(owned) {
            Some(text) => {
                proof {
                    vstd::utf8::encode_utf8_decode_utf8(text@);
                }
                Self::from_string(text.as_str())
            },
            None => Err(
                serialization_error(
                    "unable to parse a revocation registry entry: the bytes are not valid UTF-8",
                ),
            ),
        }
    }
}

impl Accumulator {
    /// Writes the accumulator as a standalone binary contract parameter:
    /// the raw token bytes, with no JSON wrapping.
    pub fn to_contract_param(&self) -> (r: ContractParam)
        ensures
            r matches ContractParam::Bytes(b) && b@ == encode_utf8(self@),
    {
        ContractParam::Bytes(self.0.as_str().as_bytes_vec())
    }
}

} // verus!
