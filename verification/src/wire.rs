//! The JSON wire grammar of a revocation registry entry.
//!
//! The written text is the compact JSON object
//! `{"revRegDefId":…,"issuerId":…,"rev_reg_entry_data":{"currentAccumulator":…,"prevAccumulator":…,"issued":…,"revoked":…}}`
//! with the field names fixed by the ecosystem's compatibility contract.
//! The reader accepts every JSON text denoting the record, not only the
//! written form: whitespace, member order and the escape repertoire are
//! free, and an absent optional member means absence.
//! This module gives the grammar mathematically: [`entry_json`] is the text
//! of an entry, [`parse_entry`] reads an entry back out of a text, and the
//! lemmas at the end prove that the two compose to the identity, so the wire
//! form is value-preserving.

use vstd::prelude::*;

use crate::entry::{EntryDataView, EntryView};

verus! {

// ---------------------------------------------------------------------------
// Characters: digits, hexadecimal digits and string escapes.
// ---------------------------------------------------------------------------

/// The decimal digit character for `d` (meaningful for `0 <= d < 10`).
pub open spec fn digit_char(d: int) -> char {
    if d == 0 {
        '0'
    } else if d == 1 {
        '1'
    } else if d == 2 {
        '2'
    } else if d == 3 {
        '3'
    } else if d == 4 {
        '4'
    } else if d == 5 {
        '5'
    } else if d == 6 {
        '6'
    } else if d == 7 {
        '7'
    } else if d == 8 {
        '8'
    } else {
        '9'
    }
}

/// The numeric value of a decimal digit character.
pub open spec fn digit_val(c: char) -> Option<u32> {
    if c == '0' {
        Some(0u32)
    } else if c == '1' {
        Some(1u32)
    } else if c == '2' {
        Some(2u32)
    } else if c == '3' {
        Some(3u32)
    } else if c == '4' {
        Some(4u32)
    } else if c == '5' {
        Some(5u32)
    } else if c == '6' {
        Some(6u32)
    } else if c == '7' {
        Some(7u32)
    } else if c == '8' {
        Some(8u32)
    } else if c == '9' {
        Some(9u32)
    } else {
        None
    }
}

/// The lower-case hexadecimal digit character for `d` (meaningful for
/// `0 <= d < 16`).
pub open spec fn hex_char(d: int) -> char {
    if d < 10 {
        digit_char(d)
    } else if d == 10 {
        'a'
    } else if d == 11 {
        'b'
    } else if d == 12 {
        'c'
    } else if d == 13 {
        'd'
    } else if d == 14 {
        'e'
    } else {
        'f'
    }
}

/// The numeric value of a hexadecimal digit character, either case.
pub open spec fn hex_val(c: char) -> Option<u8> {
    if c == 'a' || c == 'A' {
        Some(10u8)
    } else if c == 'b' || c == 'B' {
        Some(11u8)
    } else if c == 'c' || c == 'C' {
        Some(12u8)
    } else if c == 'd' || c == 'D' {
        Some(13u8)
    } else if c == 'e' || c == 'E' {
        Some(14u8)
    } else if c == 'f' || c == 'F' {
        Some(15u8)
    } else {
        match digit_val(c) {
            Some(d) => Some(d as u8),
            None => None,
        }
    }
}

/// How one character of a string value is written on the wire: quote and
/// backslash get a two-character escape, the control characters with a short
/// JSON escape get that, the remaining control characters get a `\u00xx`
/// escape, and every other character stands for itself.
pub open spec fn esc_char(c: char) -> Seq<char> {
    if c == '"' {
        seq!['\\', '"']
    } else if c == '\\' {
        seq!['\\', '\\']
    } else if c == '\u{08}' {
        seq!['\\', 'b']
    } else if c == '\u{09}' {
        seq!['\\', 't']
    } else if c == '\u{0a}' {
        seq!['\\', 'n']
    } else if c == '\u{0c}' {
        seq!['\\', 'f']
    } else if c == '\u{0d}' {
        seq!['\\', 'r']
    } else if (c as u32) < 0x20 {
        seq!['\\', 'u', '0', '0', hex_char((c as u32) as int / 16), hex_char((c as u32) as int % 16)]
    } else {
        seq![c]
    }
}

/// The character a two-character escape `\c` stands for, when `\c` is one of
/// the named JSON escapes.
pub open spec fn simple_unescape(c: char) -> Option<char> {
    if c == '"' {
        Some('"')
    } else if c == '\\' {
        Some('\\')
    } else if c == '/' {
        Some('/')
    } else if c == 'b' {
        Some('\u{08}')
    } else if c == 'f' {
        Some('\u{0c}')
    } else if c == 'n' {
        Some('\u{0a}')
    } else if c == 'r' {
        Some('\u{0d}')
    } else if c == 't' {
        Some('\u{09}')
    } else {
        None
    }
}

// ---------------------------------------------------------------------------
// Writing: the text of values and of the whole entry.
// ---------------------------------------------------------------------------

/// The escaped body of a JSON string value.
pub open spec fn escape(t: Seq<char>) -> Seq<char>
    decreases t.len(),
{
    if t.len() == 0 {
        Seq::empty()
    } else {
        esc_char(t[0]) + escape(t.drop_first())
    }
}

/// A JSON string value: the escaped body between quotes.
pub open spec fn json_string(t: Seq<char>) -> Seq<char> {
    seq!['"'] + escape(t) + seq!['"']
}

/// The decimal digits of `n`, most significant first (meaningful for
/// `n >= 0`).
pub open spec fn dec_chars(n: int) -> Seq<char>
    decreases n,
{
    if n < 10 {
        seq![digit_char(n)]
    } else {
        dec_chars(n / 10).push(digit_char(n % 10))
    }
}

/// The comma-separated elements of an index array.
pub open spec fn arr_body(xs: Seq<u32>) -> Seq<char>
    decreases xs.len(),
{
    if xs.len() == 0 {
        Seq::empty()
    } else if xs.len() == 1 {
        dec_chars(xs[0] as int)
    } else {
        dec_chars(xs[0] as int) + seq![','] + arr_body(xs.drop_first())
    }
}

/// A JSON array of indices.
pub open spec fn json_u32_array(xs: Seq<u32>) -> Seq<char> {
    seq!['['] + arr_body(xs) + seq![']']
}

/// The literal `null`.
pub open spec fn lit_null() -> Seq<char> {
    "null"@
}

/// An optional string value: `null` when absent.
pub open spec fn json_opt_string(o: Option<Seq<char>>) -> Seq<char> {
    match o {
        Some(t) => json_string(t),
        None => lit_null(),
    }
}

/// An optional index array: `null` when absent.
pub open spec fn json_opt_array(o: Option<Seq<u32>>) -> Seq<char> {
    match o {
        Some(xs) => json_u32_array(xs),
        None => lit_null(),
    }
}

/// The member name of the registry definition id.
pub open spec fn key_rev_reg_def_id() -> Seq<char> {
    "revRegDefId"@
}

/// The member name of the issuer.
pub open spec fn key_issuer_id() -> Seq<char> {
    "issuerId"@
}

/// The member name of the nested entry data.
pub open spec fn key_rev_reg_entry_data() -> Seq<char> {
    "rev_reg_entry_data"@
}

/// The member name of the current accumulator.
pub open spec fn key_current_accumulator() -> Seq<char> {
    "currentAccumulator"@
}

/// The member name of the previous accumulator.
pub open spec fn key_prev_accumulator() -> Seq<char> {
    "prevAccumulator"@
}

/// The member name of the issued index list.
pub open spec fn key_issued() -> Seq<char> {
    "issued"@
}

/// The member name of the revoked index list.
pub open spec fn key_revoked() -> Seq<char> {
    "revoked"@
}

/// The text of one object member: the name as a JSON string, a colon, and
/// the value's text.
pub open spec fn member_text(k: Seq<char>, vtxt: Seq<char>) -> Seq<char> {
    json_string(k) + ":"@ + vtxt
}

/// The wire text of the entry data: the nested object, compact, members in
/// declaration order.
pub open spec fn data_json(d: EntryDataView) -> Seq<char> {
    "{"@ + member_text(key_current_accumulator(), json_string(d.current_accumulator)) + ","@
        + member_text(key_prev_accumulator(), json_opt_string(d.prev_accumulator)) + ","@
        + member_text(key_issued(), json_opt_array(d.issued)) + ","@ + member_text(
        key_revoked(),
        json_opt_array(d.revoked),
    ) + "}"@
}

/// The wire text of an entry, as the writer produces it: compact, members
/// in declaration order.
pub open spec fn entry_json(e: EntryView) -> Seq<char> {
    "{"@ + member_text(key_rev_reg_def_id(), json_string(e.rev_reg_def_id)) + ","@ + member_text(
        key_issuer_id(),
        json_string(e.issuer_id),
    ) + ","@ + member_text(key_rev_reg_entry_data(), data_json(e.data)) + "}"@
}

// ---------------------------------------------------------------------------
// Reading: a recursive-descent parser over the text.
//
// Each function takes the whole text and a position, and returns the value
// it read together with the position after it, or nothing when the text at
// the position does not belong to the grammar. The reader accepts any JSON
// text denoting the record: insignificant whitespace anywhere the JSON
// grammar allows it, the members of each object in any order, each at most
// once, an absent optional member meaning absence, and the full string
// escape repertoire, surrogate pairs included. A member outside the
// record's schema, a duplicated member, or a missing mandatory member is
// schema-incompatible and rejected, as is a number form outside the JSON
// grammar (a leading zero, a sign, a fraction or an exponent) or beyond
// the index range.
// ---------------------------------------------------------------------------

/// Whether `lit` stands at position `i` of `s`.
pub open spec fn match_lit(s: Seq<char>, i: int, lit: Seq<char>) -> bool {
    0 <= i && i + lit.len() <= s.len() && s.subrange(i, i + lit.len()) == lit
}

/// Whether a character is insignificant JSON whitespace.
pub open spec fn is_ws(c: char) -> bool {
    c == ' ' || c == '\t' || c == '\n' || c == '\r'
}

/// The first position at or after `i` that holds no whitespace.
pub open spec fn skip_ws(s: Seq<char>, i: int) -> int
    decreases s.len() - i,
{
    if 0 <= i && i < s.len() && is_ws(s[i]) {
        skip_ws(s, i + 1)
    } else {
        i
    }
}

/// The value of the four hexadecimal digits at positions `i` to `i + 3`
/// (meaningful when all four are hexadecimal digits).
pub open spec fn hex4(s: Seq<char>, i: int) -> int {
    (hex_val(s[i]).unwrap() as int) * 4096 + (hex_val(s[i + 1]).unwrap() as int) * 256 + (hex_val(
        s[i + 2],
    ).unwrap() as int) * 16 + (hex_val(s[i + 3]).unwrap() as int)
}

/// Reads the rest of a string value, after its opening quote: characters and
/// escapes up to the closing quote.
pub open spec fn parse_string_rest(s: Seq<char>, i: int) -> Option<(Seq<char>, int)>
    decreases s.len() - i,
{
    if i < 0 || i >= s.len() {
        None
    } else if s[i] == '"' {
        Some((Seq::empty(), i + 1))
    } else if s[i] == '\\' {
        if i + 1 < s.len() {
            if s[i + 1] == 'u' {
                if i + 6 <= s.len() && hex_val(s[i + 2]) is Some && hex_val(s[i + 3]) is Some
                    && hex_val(s[i + 4]) is Some && hex_val(s[i + 5]) is Some {
                    let code = hex4(s, i + 2);
                    if 0xD800 <= code && code < 0xDC00 {
                        // a high surrogate: a `\u`-escaped low surrogate must
                        // follow, and the pair names one supplementary character
                        if i + 12 <= s.len() && s[i + 6] == '\\' && s[i + 7] == 'u' && hex_val(
                            s[i + 8],
                        ) is Some && hex_val(s[i + 9]) is Some && hex_val(s[i + 10]) is Some
                            && hex_val(s[i + 11]) is Some {
                            let low = hex4(s, i + 8);
                            if 0xDC00 <= low && low < 0xE000 {
                                let cp = 0x10000 + (code - 0xD800) * 0x400 + (low - 0xDC00);
                                match parse_string_rest(s, i + 12) {
                                    Some((t, j)) => Some((seq![(cp as u32) as char] + t, j)),
                                    None => None,
                                }
                            } else {
                                None
                            }
                        } else {
                            None
                        }
                    } else if 0xDC00 <= code && code < 0xE000 {
                        // a lone low surrogate names no character
                        None
                    } else {
                        match parse_string_rest(s, i + 6) {
                            Some((t, j)) => Some((seq![(code as u32) as char] + t, j)),
                            None => None,
                        }
                    }
                } else {
                    None
                }
            } else {
                match simple_unescape(s[i + 1]) {
                    Some(c) => match parse_string_rest(s, i + 2) {
                        Some((t, j)) => Some((seq![c] + t, j)),
                        None => None,
                    },
                    None => None,
                }
            }
        } else {
            None
        }
    } else if (s[i] as u32) >= 0x20 {
        match parse_string_rest(s, i + 1) {
            Some((t, j)) => Some((seq![s[i]] + t, j)),
            None => None,
        }
    } else {
        None
    }
}

/// Reads a string value, quotes included.
pub open spec fn parse_string(s: Seq<char>, i: int) -> Option<(Seq<char>, int)> {
    if 0 <= i && i < s.len() && s[i] == '"' {
        parse_string_rest(s, i + 1)
    } else {
        None
    }
}

/// Reads digits into an accumulated value, stopping at the first non-digit
/// and rejecting values beyond the index range.
pub open spec fn parse_u32_rest(s: Seq<char>, i: int, acc: u32) -> Option<(u32, int)>
    decreases s.len() - i,
{
    if 0 <= i && i < s.len() && digit_val(s[i]) is Some {
        let d = digit_val(s[i]).unwrap();
        if (acc as int) * 10 + (d as int) <= u32::MAX {
            parse_u32_rest(s, i + 1, ((acc as int) * 10 + (d as int)) as u32)
        } else {
            None
        }
    } else {
        Some((acc, i))
    }
}

/// Reads an index: one or more decimal digits in the JSON number grammar,
/// where a leading zero stands alone.
pub open spec fn parse_u32(s: Seq<char>, i: int) -> Option<(u32, int)> {
    if 0 <= i && i < s.len() && digit_val(s[i]) is Some {
        if s[i] == '0' {
            if i + 1 < s.len() && digit_val(s[i + 1]) is Some {
                None
            } else {
                Some((0u32, i + 1))
            }
        } else {
            parse_u32_rest(s, i, 0u32)
        }
    } else {
        None
    }
}

/// Reads the elements of a non-empty index array, after the opening bracket
/// and any whitespace.
pub open spec fn parse_u32_array_rest(s: Seq<char>, i: int) -> Option<(Seq<u32>, int)>
    decreases s.len() - i,
{
    match parse_u32(s, i) {
        Some((v, j0)) => {
            let j = skip_ws(s, j0);
            if i < j0 && j0 <= j && j < s.len() {
                if s[j] == ']' {
                    Some((seq![v], j + 1))
                } else if s[j] == ',' {
                    let k = skip_ws(s, j + 1);
                    if j + 1 <= k && k <= s.len() {
                        match parse_u32_array_rest(s, k) {
                            Some((rest, m)) => Some((seq![v] + rest, m)),
                            None => None,
                        }
                    } else {
                        None
                    }
                } else {
                    None
                }
            } else {
                None
            }
        },
        None => None,
    }
}

/// Reads an index array, brackets included.
pub open spec fn parse_u32_array(s: Seq<char>, i: int) -> Option<(Seq<u32>, int)> {
    if 0 <= i && i < s.len() && s[i] == '[' {
        let j = skip_ws(s, i + 1);
        if i + 1 <= j && j < s.len() {
            if s[j] == ']' {
                Some((Seq::empty(), j + 1))
            } else {
                parse_u32_array_rest(s, j)
            }
        } else {
            None
        }
    } else {
        None
    }
}

/// Reads an optional string value: `null` or a string.
pub open spec fn parse_opt_string(s: Seq<char>, i: int) -> Option<(Option<Seq<char>>, int)> {
    if 0 <= i && i < s.len() {
        if s[i] == '"' {
            match parse_string(s, i) {
                Some((t, j)) => Some((Some(t), j)),
                None => None,
            }
        } else if match_lit(s, i, lit_null()) {
            Some((None, i + lit_null().len()))
        } else {
            None
        }
    } else {
        None
    }
}

/// Reads an optional index array: `null` or an array.
pub open spec fn parse_opt_array(s: Seq<char>, i: int) -> Option<(Option<Seq<u32>>, int)> {
    if 0 <= i && i < s.len() {
        if s[i] == '[' {
            match parse_u32_array(s, i) {
                Some((xs, j)) => Some((Some(xs), j)),
                None => None,
            }
        } else if match_lit(s, i, lit_null()) {
            Some((None, i + lit_null().len()))
        } else {
            None
        }
    } else {
        None
    }
}

/// The members of the entry object seen so far, each at most once.
#[verifier::ext_equal]
pub struct PartialEntry {
    pub rev_reg_def_id: Option<Seq<char>>,
    pub issuer_id: Option<Seq<char>>,
    pub data: Option<EntryDataView>,
}

/// The members of the entry data object seen so far, each at most once.
/// For an optional member, the outer option says whether the member was
/// written, the inner one whether it held a value or `null`.
#[verifier::ext_equal]
pub struct PartialData {
    pub current_accumulator: Option<Seq<char>>,
    pub prev_accumulator: Option<Option<Seq<char>>>,
    pub issued: Option<Option<Seq<u32>>>,
    pub revoked: Option<Option<Seq<u32>>>,
}

/// Reads one member of the entry data object: its name, the separating
/// colon, and the value belonging to that name. A name outside the schema
/// or a name seen before is rejected.
pub open spec fn data_member(s: Seq<char>, i: int, acc: PartialData) -> Option<(PartialData, int)> {
    match parse_string(s, i) {
        Some((name, j0)) => {
            let j1 = skip_ws(s, j0);
            if j0 <= j1 && j1 < s.len() && s[j1] == ':' {
                let j2 = skip_ws(s, j1 + 1);
                if name == key_current_accumulator() {
                    if acc.current_accumulator is Some {
                        None
                    } else {
                        match parse_string(s, j2) {
                            Some((v, j3)) => Some(
                                (PartialData { current_accumulator: Some(v), ..acc }, j3),
                            ),
                            None => None,
                        }
                    }
                } else if name == key_prev_accumulator() {
                    if acc.prev_accumulator is Some {
                        None
                    } else {
                        match parse_opt_string(s, j2) {
                            Some((v, j3)) => Some(
                                (PartialData { prev_accumulator: Some(v), ..acc }, j3),
                            ),
                            None => None,
                        }
                    }
                } else if name == key_issued() {
                    if acc.issued is Some {
                        None
                    } else {
                        match parse_opt_array(s, j2) {
                            Some((v, j3)) => Some((PartialData { issued: Some(v), ..acc }, j3)),
                            None => None,
                        }
                    }
                } else if name == key_revoked() {
                    if acc.revoked is Some {
                        None
                    } else {
                        match parse_opt_array(s, j2) {
                            Some((v, j3)) => Some((PartialData { revoked: Some(v), ..acc }, j3)),
                            None => None,
                        }
                    }
                } else {
                    None
                }
            } else {
                None
            }
        },
        None => None,
    }
}

/// Reads the member list of the entry data object, one or more members
/// separated by commas, up to the closing brace.
pub open spec fn data_members(s: Seq<char>, i: int, acc: PartialData) -> Option<(PartialData, int)>
    decreases s.len() - i,
{
    match data_member(s, i, acc) {
        Some((acc2, j0)) => {
            let j = skip_ws(s, j0);
            if i < j0 && j0 <= j && j < s.len() {
                if s[j] == '}' {
                    Some((acc2, j + 1))
                } else if s[j] == ',' {
                    let k = skip_ws(s, j + 1);
                    if j + 1 <= k && k <= s.len() {
                        data_members(s, k, acc2)
                    } else {
                        None
                    }
                } else {
                    None
                }
            } else {
                None
            }
        },
        None => None,
    }
}

/// Reads the entry data object. The current accumulator is mandatory; the
/// other members may be absent, meaning absence.
pub open spec fn parse_entry_data(s: Seq<char>, i: int) -> Option<(EntryDataView, int)> {
    if 0 <= i && i < s.len() && s[i] == '{' {
        let j = skip_ws(s, i + 1);
        if i + 1 <= j && j < s.len() && s[j] != '}' {
            match data_members(
                s,
                j,
                PartialData {
                    current_accumulator: None,
                    prev_accumulator: None,
                    issued: None,
                    revoked: None,
                },
            ) {
                Some((acc, k)) => match acc.current_accumulator {
                    Some(current_accumulator) => Some(
                        (
                            EntryDataView {
                                current_accumulator,
                                prev_accumulator: match acc.prev_accumulator {
                                    Some(p) => p,
                                    None => None,
                                },
                                issued: match acc.issued {
                                    Some(v) => v,
                                    None => None,
                                },
                                revoked: match acc.revoked {
                                    Some(v) => v,
                                    None => None,
                                },
                            },
                            k,
                        ),
                    ),
                    None => None,
                },
                None => None,
            }
        } else {
            None
        }
    } else {
        None
    }
}

/// Reads one member of the entry object: its name, the separating colon,
/// and the value belonging to that name.
pub open spec fn entry_member(s: Seq<char>, i: int, acc: PartialEntry) -> Option<
    (PartialEntry, int),
> {
    match parse_string(s, i) {
        Some((name, j0)) => {
            let j1 = skip_ws(s, j0);
            if j0 <= j1 && j1 < s.len() && s[j1] == ':' {
                let j2 = skip_ws(s, j1 + 1);
                if name == key_rev_reg_def_id() {
                    if acc.rev_reg_def_id is Some {
                        None
                    } else {
                        match parse_string(s, j2) {
                            Some((v, j3)) => Some(
                                (PartialEntry { rev_reg_def_id: Some(v), ..acc }, j3),
                            ),
                            None => None,
                        }
                    }
                } else if name == key_issuer_id() {
                    if acc.issuer_id is Some {
                        None
                    } else {
                        match parse_string(s, j2) {
                            Some((v, j3)) => Some((PartialEntry { issuer_id: Some(v), ..acc }, j3)),
                            None => None,
                        }
                    }
                } else if name == key_rev_reg_entry_data() {
                    if acc.data is Some {
                        None
                    } else {
                        match parse_entry_data(s, j2) {
                            Some((v, j3)) => Some((PartialEntry { data: Some(v), ..acc }, j3)),
                            None => None,
                        }
                    }
                } else {
                    None
                }
            } else {
                None
            }
        },
        None => None,
    }
}

/// Reads the member list of the entry object, one or more members
/// separated by commas, up to the closing brace.
pub open spec fn entry_members(s: Seq<char>, i: int, acc: PartialEntry) -> Option<
    (PartialEntry, int),
>
    decreases s.len() - i,
{
    match entry_member(s, i, acc) {
        Some((acc2, j0)) => {
            let j = skip_ws(s, j0);
            if i < j0 && j0 <= j && j < s.len() {
                if s[j] == '}' {
                    Some((acc2, j + 1))
                } else if s[j] == ',' {
                    let k = skip_ws(s, j + 1);
                    if j + 1 <= k && k <= s.len() {
                        entry_members(s, k, acc2)
                    } else {
                        None
                    }
                } else {
                    None
                }
            } else {
                None
            }
        },
        None => None,
    }
}

/// Reads a whole entry object beginning at position `i`. All three members
/// are mandatory.
pub open spec fn parse_entry_at(s: Seq<char>, i: int) -> Option<(EntryView, int)> {
    if 0 <= i && i < s.len() && s[i] == '{' {
        let j = skip_ws(s, i + 1);
        if i + 1 <= j && j < s.len() && s[j] != '}' {
            match entry_members(
                s,
                j,
                PartialEntry { rev_reg_def_id: None, issuer_id: None, data: None },
            ) {
                Some((acc, k)) => match (acc.rev_reg_def_id, acc.issuer_id, acc.data) {
                    (Some(rev_reg_def_id), Some(issuer_id), Some(data)) => Some(
                        (EntryView { rev_reg_def_id, issuer_id, data }, k),
                    ),
                    _ => None,
                },
                None => None,
            }
        } else {
            None
        }
    } else {
        None
    }
}

/// Reads an entry out of a whole text: the object, with nothing but
/// whitespace around it.
pub open spec fn parse_entry(s: Seq<char>) -> Option<EntryView> {
    let i = skip_ws(s, 0);
    match parse_entry_at(s, i) {
        Some((e, j)) => {
            let k = skip_ws(s, j);
            if j <= k && k == s.len() {
                Some(e)
            } else {
                None
            }
        },
        None => None,
    }
}

/// Reads an entry out of a binary payload: the UTF-8 bytes of the wire text.
pub open spec fn parse_entry_bytes(b: Seq<u8>) -> Option<EntryView> {
    if vstd::utf8::valid_utf8(b) {
        parse_entry(vstd::utf8::decode_utf8(b))
    } else {
        None
    }
}

// ---------------------------------------------------------------------------
// Writing then reading is the identity.
// ---------------------------------------------------------------------------

/// Appending one character to a string extends its escaped body by that
/// character's escape.
pub proof fn lemma_escape_push(t: Seq<char>, c: char)
    ensures
        escape(t.push(c)) == escape(t) + esc_char(c),
    decreases t.len(),
{
    if t.len() == 0 {
        assert(t.push(c) =~= seq![c]);
        assert(seq![c].drop_first() =~= Seq::<char>::empty());
        assert(escape(t) + esc_char(c) =~= esc_char(c) + escape(Seq::<char>::empty()));
    } else {
        assert(t.push(c)[0] == t[0]);
        assert(t.push(c).drop_first() =~= t.drop_first().push(c));
        lemma_escape_push(t.drop_first(), c);
        assert(esc_char(t[0]) + (escape(t.drop_first()) + esc_char(c)) =~= (esc_char(t[0])
            + escape(t.drop_first())) + esc_char(c));
    }
}

/// Appending one index to an array extends its comma-separated body by a
/// separator, on a non-empty array, and the index's digits.
pub proof fn lemma_arr_body_push(xs: Seq<u32>, x: u32)
    ensures
        arr_body(xs.push(x)) == if xs.len() == 0 {
            dec_chars(x as int)
        } else {
            arr_body(xs) + seq![','] + dec_chars(x as int)
        },
    decreases xs.len(),
{
    if xs.len() == 0 {
        assert(xs.push(x) =~= seq![x]);
    } else if xs.len() == 1 {
        assert(xs.push(x).drop_first() =~= seq![x]);
        assert(dec_chars(xs[0] as int) + seq![','] + dec_chars(x as int) =~= dec_chars(
            xs[0] as int,
        ) + seq![','] + arr_body(seq![x]));
    } else {
        assert(xs.push(x).drop_first() =~= xs.drop_first().push(x));
        lemma_arr_body_push(xs.drop_first(), x);
        assert(dec_chars(xs[0] as int) + seq![','] + (arr_body(xs.drop_first()) + seq![',']
            + dec_chars(x as int)) =~= (dec_chars(xs[0] as int) + seq![','] + arr_body(
            xs.drop_first(),
        )) + seq![','] + dec_chars(x as int));
    }
}

/// A piece known to stand at position `i` gives the text's characters there.
proof fn lemma_subrange_elems(s: Seq<char>, i: int, x: Seq<char>)
    requires
        0 <= i,
        i + x.len() <= s.len(),
        s.subrange(i, i + x.len() as int) == x,
    ensures
        forall|j: int| 0 <= j < x.len() ==> s[i + j] == x[j],
{
    assert forall|j: int| 0 <= j < x.len() implies s[i + j] == x[j] by {
        assert(s.subrange(i, i + x.len() as int)[j] == x[j]);
    }
}

proof fn lemma_digit_char_val(d: int)
    requires
        0 <= d < 10,
    ensures
        digit_val(digit_char(d)) == Some(d as u32),
{
}

proof fn lemma_hex_char_val(d: int)
    requires
        0 <= d < 16,
    ensures
        hex_val(hex_char(d)) == Some(d as u8),
{
}

proof fn lemma_dec_chars_first(n: int)
    requires
        0 <= n,
    ensures
        dec_chars(n).len() >= 1,
        digit_val(dec_chars(n)[0]) is Some,
        n >= 1 ==> dec_chars(n)[0] != '0',
    decreases n,
{
    if n < 10 {
        lemma_digit_char_val(n);
    } else {
        lemma_dec_chars_first(n / 10);
    }
}

/// Ten to the `k`.
pub open spec fn pow10(k: int) -> int
    decreases k,
{
    if k <= 0 {
        1
    } else {
        10 * pow10(k - 1)
    }
}

proof fn lemma_pow10_pos(k: int)
    ensures
        pow10(k) >= 1,
    decreases k,
{
    if k > 0 {
        lemma_pow10_pos(k - 1);
    }
}

/// Reading the digits of `n` multiplies the accumulated value by ten per
/// digit and adds `n`.
proof fn lemma_consume_digits(s: Seq<char>, i: int, acc: u32, n: int)
    requires
        0 <= i,
        0 <= n,
        i + dec_chars(n).len() <= s.len(),
        s.subrange(i, i + dec_chars(n).len() as int) == dec_chars(n),
        (acc as int) * pow10(dec_chars(n).len() as int) + n <= u32::MAX,
    ensures
        parse_u32_rest(s, i, acc) == parse_u32_rest(
            s,
            i + dec_chars(n).len(),
            ((acc as int) * pow10(dec_chars(n).len() as int) + n) as u32,
        ),
    decreases n,
{
    lemma_pow10_pos(dec_chars(n).len() as int);
    if n < 10 {
        reveal_with_fuel(pow10, 3);
        assert(s[i] == dec_chars(n)[0]);
        lemma_digit_char_val(n);
        assert(digit_val(s[i]) == Some(n as u32));
    } else {
        let q = n / 10;
        let r = n % 10;
        let head = dec_chars(q);
        let lp = head.len() as int;
        let l = dec_chars(n).len() as int;
        assert(dec_chars(n) == head.push(digit_char(r)));
        assert(l == lp + 1);
        assert(pow10(l) == 10 * pow10(lp));
        lemma_pow10_pos(lp);
        assert(s.subrange(i, i + lp) =~= head);
        assert((acc as int) * pow10(lp) + q <= u32::MAX) by (nonlinear_arith)
            requires
                acc >= 0,
                pow10(lp) >= 1,
                n == 10 * q + r,
                0 <= r < 10,
                q >= 1,
                (acc as int) * (10 * pow10(lp)) + n <= u32::MAX,
        ;
        lemma_consume_digits(s, i, acc, q);
        let m = ((acc as int) * pow10(lp) + q) as u32;
        // one more digit: the last one
        assert(s[i + lp] == dec_chars(n)[lp]);
        assert(dec_chars(n)[lp] == digit_char(r));
        lemma_digit_char_val(r);
        assert(digit_val(s[i + lp]) == Some(r as u32));
        assert((m as int) * 10 + r == (acc as int) * pow10(l) + n) by (nonlinear_arith)
            requires
                m as int == (acc as int) * pow10(lp) + q,
                pow10(l) == 10 * pow10(lp),
                n == 10 * q + r,
        ;
        assert(parse_u32_rest(s, i + lp, m) == parse_u32_rest(
            s,
            i + l,
            ((acc as int) * pow10(l) + n) as u32,
        ));
    }
}

/// The digit reader never moves backwards, and never beyond the text.
pub proof fn lemma_parse_u32_rest_bounds(s: Seq<char>, i: int, acc: u32)
    requires
        0 <= i <= s.len(),
    ensures
        match parse_u32_rest(s, i, acc) {
            Some(p) => i <= p.1 <= s.len(),
            None => true,
        },
    decreases s.len() - i,
{
    if i < s.len() && digit_val(s[i]) is Some {
        let d = digit_val(s[i]).unwrap();
        if (acc as int) * 10 + (d as int) <= u32::MAX {
            lemma_parse_u32_rest_bounds(s, i + 1, ((acc as int) * 10 + (d as int)) as u32);
        }
    }
}

/// Reading at the digits of `n`, followed by anything but a digit, yields
/// exactly `n`.
proof fn lemma_parse_u32_at(s: Seq<char>, i: int, n: u32)
    requires
        0 <= i,
        i + dec_chars(n as int).len() <= s.len(),
        s.subrange(i, i + dec_chars(n as int).len() as int) == dec_chars(n as int),
        i + dec_chars(n as int).len() == s.len() || digit_val(
            s[i + dec_chars(n as int).len()],
        ) is None,
    ensures
        parse_u32(s, i) == Some((n, i + dec_chars(n as int).len() as int)),
{
    let l = dec_chars(n as int).len() as int;
    lemma_dec_chars_first(n as int);
    assert(s[i] == dec_chars(n as int)[0]);
    if n == 0 {
        assert(l == 1);
        assert(s[i] == '0');
    } else {
        assert(s[i] != '0');
        lemma_pow10_pos(l);
        assert(0int * pow10(l) + n == n) by (nonlinear_arith);
        lemma_consume_digits(s, i, 0u32, n as int);
    }
}

/// Reading at the body of a non-empty array, followed by the closing
/// bracket, yields exactly its elements.
proof fn lemma_parse_arr_rest(s: Seq<char>, i: int, xs: Seq<u32>)
    requires
        xs.len() >= 1,
        0 <= i,
        i + arr_body(xs).len() < s.len(),
        s.subrange(i, i + arr_body(xs).len() as int) == arr_body(xs),
        s[i + arr_body(xs).len()] == ']',
    ensures
        parse_u32_array_rest(s, i) == Some((xs, i + arr_body(xs).len() + 1)),
    decreases xs.len(),
{
    let x = xs[0];
    let l0 = dec_chars(x as int).len() as int;
    lemma_dec_chars_first(x as int);
    if xs.len() == 1 {
        lemma_parse_u32_at(s, i, x);
        assert(!is_ws(s[i + l0]));
        assert(skip_ws(s, i + l0) == i + l0);
        assert(seq![x] =~= xs);
    } else {
        let rest = xs.drop_first();
        let body = arr_body(xs);
        assert(body == dec_chars(x as int) + seq![','] + arr_body(rest));
        lemma_subrange_elems(s, i, body);
        assert(s.subrange(i, i + l0) =~= dec_chars(x as int));
        assert(s[i + l0] == body[l0]);
        assert(body[l0] == ',');
        lemma_parse_u32_at(s, i, x);
        assert(!is_ws(s[i + l0]));
        assert(skip_ws(s, i + l0) == i + l0);
        assert forall|j: int| 0 <= j < arr_body(rest).len() implies s[i + l0 + 1 + j] == arr_body(
            rest,
        )[j] by {
            assert(body[l0 + 1 + j] == arr_body(rest)[j]);
        }
        assert(s.subrange(i + l0 + 1, i + body.len() as int) =~= arr_body(rest));
        lemma_dec_chars_first(rest[0] as int);
        assert(arr_body(rest)[0] == dec_chars(rest[0] as int)[0]);
        assert(digit_val(s[i + l0 + 1]) is Some);
        assert(!is_ws(s[i + l0 + 1]));
        assert(skip_ws(s, i + l0 + 1) == i + l0 + 1);
        lemma_parse_arr_rest(s, i + l0 + 1, rest);
        assert(seq![x] + rest =~= xs);
    }
}

/// Reading at the text of an array yields exactly its elements.
proof fn lemma_parse_u32_array_at(s: Seq<char>, i: int, xs: Seq<u32>)
    requires
        0 <= i,
        i + json_u32_array(xs).len() <= s.len(),
        s.subrange(i, i + json_u32_array(xs).len() as int) == json_u32_array(xs),
    ensures
        parse_u32_array(s, i) == Some((xs, i + json_u32_array(xs).len() as int)),
{
    let arr = json_u32_array(xs);
    let body = arr_body(xs);
    lemma_subrange_elems(s, i, arr);
    assert(s[i] == arr[0]);
    if xs.len() == 0 {
        assert(s[i + 1] == arr[1]);
        assert(!is_ws(s[i + 1]));
        assert(skip_ws(s, i + 1) == i + 1);
        assert(xs =~= Seq::<u32>::empty());
    } else {
        lemma_dec_chars_first(xs[0] as int);
        assert(body[0] == dec_chars(xs[0] as int)[0]);
        assert(s[i + 1] == arr[1]);
        assert(arr[1] == body[0]);
        assert(digit_val(s[i + 1]) is Some);
        assert(!is_ws(s[i + 1]));
        assert(skip_ws(s, i + 1) == i + 1);
        assert(s[i + 1] != ']');
        assert forall|j: int| 0 <= j < body.len() implies s[i + 1 + j] == body[j] by {
            assert(arr[1 + j] == body[j]);
        }
        assert(s.subrange(i + 1, i + 1 + body.len() as int) =~= body);
        assert(s[i + 1 + body.len()] == arr[arr.len() - 1]);
        lemma_parse_arr_rest(s, i + 1, xs);
    }
}

/// Reading at the escaped body of a string, followed by the closing quote,
/// yields exactly the string.
proof fn lemma_parse_string_rest_at(s: Seq<char>, i: int, t: Seq<char>)
    requires
        0 <= i,
        i + escape(t).len() + 1 <= s.len(),
        s.subrange(i, i + escape(t).len() as int) == escape(t),
        s[i + escape(t).len()] == '"',
    ensures
        parse_string_rest(s, i) == Some((t, i + escape(t).len() + 1)),
    decreases t.len(),
{
    if t.len() == 0 {
        assert(t =~= Seq::<char>::empty());
    } else {
        let c = t[0];
        let e = esc_char(c);
        let rest = t.drop_first();
        assert(escape(t) == e + escape(rest));
        let le = e.len() as int;
        let lt = escape(t).len() as int;
        lemma_subrange_elems(s, i, escape(t));
        assert forall|k: int| 0 <= k < le implies s[i + k] == #[trigger] e[k] by {
            assert(s[i + k] == escape(t)[k]);
            assert(escape(t)[k] == (e + escape(rest))[k]);
        }
        assert forall|k: int| 0 <= k < escape(rest).len() implies s[i + le + k] == escape(
            rest,
        )[k] by {
            assert(s[i + le + k] == escape(t)[le + k]);
            assert(escape(t)[le + k] == (e + escape(rest))[le + k]);
        }
        assert(s.subrange(i + le, i + lt) =~= escape(rest));
        assert(s[i + lt] == '"');
        lemma_parse_string_rest_at(s, i + le, rest);
        if c == '"' || c == '\\' || c == '\u{08}' || c == '\u{09}' || c == '\u{0a}' || c == '\u{0c}'
            || c == '\u{0d}' {
            assert(le == 2);
            assert(s[i] == e[0] && s[i + 1] == e[1]);
            assert(s[i] == '\\');
            assert(s[i + 1] != 'u');
            assert(simple_unescape(s[i + 1]) == Some(c));
            assert(seq![c] + rest =~= t);
        } else if (c as u32) < 0x20 {
            let u = c as u32;
            assert(le == 6);
            assert(s[i] == e[0] && s[i + 1] == e[1] && s[i + 2] == e[2] && s[i + 3] == e[3] && s[i
                + 4] == e[4] && s[i + 5] == e[5]);
            assert(s[i] == '\\' && s[i + 1] == 'u');
            assert(hex_val(s[i + 2]) == Some(0u8));
            assert(hex_val(s[i + 3]) == Some(0u8));
            assert(0 <= u as int / 16 < 16);
            assert(0 <= u as int % 16 < 16);
            lemma_hex_char_val(u as int / 16);
            lemma_hex_char_val(u as int % 16);
            assert(hex_val(s[i + 4]) == Some((u as int / 16) as u8));
            assert(hex_val(s[i + 5]) == Some((u as int % 16) as u8));
            let code = hex4(s, i + 2);
            assert(((u as int / 16) as u8) as int == u as int / 16);
            assert(((u as int % 16) as u8) as int == u as int % 16);
            assert(code == u as int);
            assert(!(0xD800 <= code && code < 0xDC00));
            assert(!(0xDC00 <= code && code < 0xE000));
            vstd::utf8::char_is_scalar(c);
            vstd::utf8::char_u32_cast(c, u);
            assert((code as u32) as char == c);
            assert(seq![(code as u32) as char] + rest =~= t);
        } else {
            assert(le == 1);
            assert(e =~= seq![c]);
            assert(s[i] == e[0]);
            assert(s[i] == c);
            assert(s[i] != '"' && s[i] != '\\');
            assert(seq![c] + rest =~= t);
        }
    }
}

/// Reading at the text of a string value yields exactly the string.
proof fn lemma_parse_string_at(s: Seq<char>, i: int, t: Seq<char>)
    requires
        0 <= i,
        i + json_string(t).len() <= s.len(),
        s.subrange(i, i + json_string(t).len() as int) == json_string(t),
    ensures
        parse_string(s, i) == Some((t, i + json_string(t).len() as int)),
{
    let js = json_string(t);
    lemma_subrange_elems(s, i, js);
    assert(s[i] == js[0]);
    assert forall|k: int| 0 <= k < escape(t).len() implies s[i + 1 + k] == escape(t)[k] by {
        assert(js[1 + k] == escape(t)[k]);
    }
    assert(s.subrange(i + 1, i + 1 + escape(t).len() as int) =~= escape(t));
    assert(s[i + 1 + escape(t).len()] == js[js.len() - 1]);
    lemma_parse_string_rest_at(s, i + 1, t);
}

/// Reading at the text of an optional string yields exactly the option.
proof fn lemma_parse_opt_string_at(s: Seq<char>, i: int, o: Option<Seq<char>>)
    requires
        0 <= i,
        i + json_opt_string(o).len() <= s.len(),
        s.subrange(i, i + json_opt_string(o).len() as int) == json_opt_string(o),
    ensures
        parse_opt_string(s, i) == Some((o, i + json_opt_string(o).len() as int)),
{
    reveal_strlit("null");
    lemma_subrange_elems(s, i, json_opt_string(o));
    match o {
        Some(t) => {
            assert(s[i] == json_string(t)[0]);
            lemma_parse_string_at(s, i, t);
        },
        None => {
            assert(s[i] == lit_null()[0]);
            assert(s[i] != '"');
            assert(match_lit(s, i, lit_null()));
        },
    }
}

/// Reading at the text of an optional array yields exactly the option.
proof fn lemma_parse_opt_array_at(s: Seq<char>, i: int, o: Option<Seq<u32>>)
    requires
        0 <= i,
        i + json_opt_array(o).len() <= s.len(),
        s.subrange(i, i + json_opt_array(o).len() as int) == json_opt_array(o),
    ensures
        parse_opt_array(s, i) == Some((o, i + json_opt_array(o).len() as int)),
{
    reveal_strlit("null");
    lemma_subrange_elems(s, i, json_opt_array(o));
    match o {
        Some(xs) => {
            assert(s[i] == json_u32_array(xs)[0]);
            lemma_parse_u32_array_at(s, i, xs);
        },
        None => {
            assert(s[i] == lit_null()[0]);
            assert(s[i] != '[');
            assert(match_lit(s, i, lit_null()));
        },
    }
}

/// A member's text decomposes into its name, the colon, and its value.
proof fn lemma_member_text_at(s: Seq<char>, a: int, k: Seq<char>, vtxt: Seq<char>)
    requires
        0 <= a,
        a + member_text(k, vtxt).len() <= s.len(),
        s.subrange(a, a + member_text(k, vtxt).len() as int) == member_text(k, vtxt),
    ensures
        s.subrange(a, a + json_string(k).len() as int) == json_string(k),
        s[a + json_string(k).len()] == ':',
        s.subrange(
            a + json_string(k).len() + 1,
            a + member_text(k, vtxt).len() as int,
        ) == vtxt,
        s[a] == '"',
        vtxt.len() >= 1 ==> s[a + json_string(k).len() + 1] == vtxt[0],
        member_text(k, vtxt).len() == json_string(k).len() + 1 + vtxt.len(),
{
    reveal_strlit(":");
    let mt = member_text(k, vtxt);
    let lk = json_string(k).len() as int;
    lemma_subrange_elems(s, a, mt);
    assert forall|q: int| 0 <= q < lk implies s[a + q] == json_string(k)[q] by {
        assert(mt[q] == json_string(k)[q]);
    }
    assert(s.subrange(a, a + lk) =~= json_string(k));
    assert(mt[lk] == ':');
    assert forall|q: int| 0 <= q < vtxt.len() implies s[a + lk + 1 + q] == vtxt[q] by {
        assert(mt[lk + 1 + q] == vtxt[q]);
    }
    assert(s.subrange(a + lk + 1, a + mt.len() as int) =~= vtxt);
    assert(json_string(k)[0] == '"');
}

/// Reading at the text of the entry data object yields exactly the data.
#[verifier::rlimit(100)]
proof fn lemma_parse_data_at(s: Seq<char>, i: int, d: EntryDataView)
    requires
        0 <= i,
        i + data_json(d).len() <= s.len(),
        s.subrange(i, i + data_json(d).len() as int) == data_json(d),
    ensures
        parse_entry_data(s, i) == Some((d, i + data_json(d).len() as int)),
{
    reveal_strlit("{");
    reveal_strlit("}");
    reveal_strlit(":");
    reveal_strlit(",");
    reveal_strlit("null");
    reveal_strlit("currentAccumulator");
    reveal_strlit("prevAccumulator");
    reveal_strlit("issued");
    reveal_strlit("revoked");
    reveal_with_fuel(data_members, 5);
    let dj = data_json(d);
    lemma_subrange_elems(s, i, dj);
    let v1 = json_string(d.current_accumulator);
    let v2 = json_opt_string(d.prev_accumulator);
    let v3 = json_opt_array(d.issued);
    let v4 = json_opt_array(d.revoked);
    let mt1 = member_text(key_current_accumulator(), v1);
    let mt2 = member_text(key_prev_accumulator(), v2);
    let mt3 = member_text(key_issued(), v3);
    let mt4 = member_text(key_revoked(), v4);
    let a1 = i + 1;
    let e1 = a1 + mt1.len();
    let a2 = e1 + 1;
    let e2 = a2 + mt2.len();
    let a3 = e2 + 1;
    let e3 = a3 + mt3.len();
    let a4 = e3 + 1;
    let e4 = a4 + mt4.len();
    assert(i + dj.len() == e4 + 1);
    // the pieces of the text stand at their positions
    assert(s[i] == dj[0] && dj[0] == '{');
    assert forall|q: int| 0 <= q < mt1.len() implies s[a1 + q] == mt1[q] by {
        assert(s[a1 + q] == dj[a1 + q - i]);
    }
    assert(s.subrange(a1, e1) =~= mt1);
    assert(s[e1] == dj[e1 - i] && dj[e1 - i] == ',');
    assert forall|q: int| 0 <= q < mt2.len() implies s[a2 + q] == mt2[q] by {
        assert(s[a2 + q] == dj[a2 + q - i]);
    }
    assert(s.subrange(a2, e2) =~= mt2);
    assert(s[e2] == dj[e2 - i] && dj[e2 - i] == ',');
    assert forall|q: int| 0 <= q < mt3.len() implies s[a3 + q] == mt3[q] by {
        assert(s[a3 + q] == dj[a3 + q - i]);
    }
    assert(s.subrange(a3, e3) =~= mt3);
    assert(s[e3] == dj[e3 - i] && dj[e3 - i] == ',');
    assert forall|q: int| 0 <= q < mt4.len() implies s[a4 + q] == mt4[q] by {
        assert(s[a4 + q] == dj[a4 + q - i]);
    }
    assert(s.subrange(a4, e4) =~= mt4);
    assert(s[e4] == dj[e4 - i] && dj[e4 - i] == '}');
    // each member decomposes into name, colon and value
    lemma_member_text_at(s, a1, key_current_accumulator(), v1);
    lemma_member_text_at(s, a2, key_prev_accumulator(), v2);
    lemma_member_text_at(s, a3, key_issued(), v3);
    lemma_member_text_at(s, a4, key_revoked(), v4);
    let b1 = a1 + json_string(key_current_accumulator()).len();
    let c1 = b1 + 1;
    let b2 = a2 + json_string(key_prev_accumulator()).len();
    let c2 = b2 + 1;
    let b3 = a3 + json_string(key_issued()).len();
    let c3 = b3 + 1;
    let b4 = a4 + json_string(key_revoked()).len();
    let c4 = b4 + 1;
    // the names and values read back as themselves
    lemma_parse_string_at(s, a1, key_current_accumulator());
    lemma_parse_string_at(s, c1, d.current_accumulator);
    lemma_parse_string_at(s, a2, key_prev_accumulator());
    lemma_parse_opt_string_at(s, c2, d.prev_accumulator);
    lemma_parse_string_at(s, a3, key_issued());
    lemma_parse_opt_array_at(s, c3, d.issued);
    lemma_parse_string_at(s, a4, key_revoked());
    lemma_parse_opt_array_at(s, c4, d.revoked);
    // the values start unambiguously, and no seam holds whitespace
    assert(v1[0] == '"');
    assert(v2[0] == '"' || v2[0] == 'n');
    assert(v3[0] == '[' || v3[0] == 'n');
    assert(v4[0] == '[' || v4[0] == 'n');
    assert(s[c1] == v1[0] && s[c2] == v2[0] && s[c3] == v3[0] && s[c4] == v4[0]);
    assert(skip_ws(s, a1) == a1 && skip_ws(s, b1) == b1 && skip_ws(s, c1) == c1 && skip_ws(s, e1)
        == e1);
    assert(skip_ws(s, a2) == a2 && skip_ws(s, b2) == b2 && skip_ws(s, c2) == c2 && skip_ws(s, e2)
        == e2);
    assert(skip_ws(s, a3) == a3 && skip_ws(s, b3) == b3 && skip_ws(s, c3) == c3 && skip_ws(s, e3)
        == e3);
    assert(skip_ws(s, a4) == a4 && skip_ws(s, b4) == b4 && skip_ws(s, c4) == c4 && skip_ws(s, e4)
        == e4);
    // the four names differ pairwise, so each member is read once
    assert(key_prev_accumulator() != key_current_accumulator());
    assert(key_issued() != key_current_accumulator() && key_issued() != key_prev_accumulator());
    assert(key_revoked() != key_current_accumulator() && key_revoked() != key_prev_accumulator()
        && key_revoked() != key_issued());
    assert(s[a1] != '}');
    let acc0 = PartialData {
        current_accumulator: None,
        prev_accumulator: None,
        issued: None,
        revoked: None,
    };
    let acc1 = PartialData { current_accumulator: Some(d.current_accumulator), ..acc0 };
    let acc2 = PartialData { prev_accumulator: Some(d.prev_accumulator), ..acc1 };
    let acc3 = PartialData { issued: Some(d.issued), ..acc2 };
    let acc4 = PartialData { revoked: Some(d.revoked), ..acc3 };
    assert(data_member(s, a1, acc0) == Some((acc1, e1)));
    assert(data_member(s, a2, acc1) == Some((acc2, e2)));
    assert(data_member(s, a3, acc2) == Some((acc3, e3)));
    assert(data_member(s, a4, acc3) == Some((acc4, e4)));
    assert(data_members(s, a4, acc3) == Some((acc4, e4 + 1)));
    assert(data_members(s, a3, acc2) == Some((acc4, e4 + 1)));
    assert(data_members(s, a2, acc1) == Some((acc4, e4 + 1)));
    assert(data_members(s, a1, acc0) == Some((acc4, e4 + 1)));
    assert(parse_entry_data(s, i) matches Some(p) && p.0 =~= d && p.1 == e4 + 1);
}

/// Where each piece of an entry's wire text stands.
proof fn lemma_entry_pieces(e: EntryView)
    ensures
        ({
            let s = entry_json(e);
            let mt1 = member_text(key_rev_reg_def_id(), json_string(e.rev_reg_def_id));
            let mt2 = member_text(key_issuer_id(), json_string(e.issuer_id));
            let mt3 = member_text(key_rev_reg_entry_data(), data_json(e.data));
            let a1 = 1int;
            let e1 = a1 + mt1.len();
            let a2 = e1 + 1;
            let e2 = a2 + mt2.len();
            let a3 = e2 + 1;
            let e3 = a3 + mt3.len();
            s.len() == e3 + 1 && s[0] == '{' && s.subrange(a1, e1) == mt1 && s[e1] == ','
                && s.subrange(a2, e2) == mt2 && s[e2] == ',' && s.subrange(a3, e3) == mt3 && s[e3]
                == '}'
        }),
{
    reveal_strlit("{");
    reveal_strlit("}");
    reveal_strlit(",");
    let s = entry_json(e);
    let mt1 = member_text(key_rev_reg_def_id(), json_string(e.rev_reg_def_id));
    let mt2 = member_text(key_issuer_id(), json_string(e.issuer_id));
    let mt3 = member_text(key_rev_reg_entry_data(), data_json(e.data));
    let a1 = 1int;
    let e1 = a1 + mt1.len();
    let a2 = e1 + 1;
    let e2 = a2 + mt2.len();
    let a3 = e2 + 1;
    let e3 = a3 + mt3.len();
    assert(s.len() == e3 + 1);
    assert(s[0] == '{');
    assert forall|q: int| 0 <= q < mt1.len() implies s[a1 + q] == mt1[q] by {}
    assert(s.subrange(a1, e1) =~= mt1);
    assert(s[e1] == ',');
    assert forall|q: int| 0 <= q < mt2.len() implies s[a2 + q] == mt2[q] by {}
    assert(s.subrange(a2, e2) =~= mt2);
    assert(s[e2] == ',');
    assert forall|q: int| 0 <= q < mt3.len() implies s[a3 + q] == mt3[q] by {}
    assert(s.subrange(a3, e3) =~= mt3);
    assert(s[e3] == '}');
}

/// Reading the first member of an entry's wire text yields the registry
/// definition id.
#[verifier::rlimit(100)]
proof fn lemma_entry_member_one(e: EntryView)
    ensures
        ({
            let s = entry_json(e);
            let mt1 = member_text(key_rev_reg_def_id(), json_string(e.rev_reg_def_id));
            let acc0 = PartialEntry { rev_reg_def_id: None, issuer_id: None, data: None };
            let acc1 = PartialEntry { rev_reg_def_id: Some(e.rev_reg_def_id), ..acc0 };
            entry_member(s, 1int, acc0) == Some((acc1, 1 + mt1.len() as int))
        }),
{
    reveal_strlit("{");
    reveal_strlit("}");
    reveal_strlit(",");
    let s = entry_json(e);
    let v1 = json_string(e.rev_reg_def_id);
    let mt1 = member_text(key_rev_reg_def_id(), v1);
    let a1 = 1int;
    let e1 = a1 + mt1.len();
    let b1 = a1 + json_string(key_rev_reg_def_id()).len();
    let c1 = b1 + 1;
    lemma_entry_pieces(e);
    lemma_member_text_at(s, a1, key_rev_reg_def_id(), v1);
    lemma_parse_string_at(s, a1, key_rev_reg_def_id());
    lemma_parse_string_at(s, c1, e.rev_reg_def_id);
    assert(s[c1] == v1[0] && v1[0] == '"');
    assert(skip_ws(s, b1) == b1 && skip_ws(s, c1) == c1);
}

/// Reading the second member of an entry's wire text yields the issuer.
#[verifier::rlimit(100)]
proof fn lemma_entry_member_two(e: EntryView)
    ensures
        ({
            let s = entry_json(e);
            let mt1 = member_text(key_rev_reg_def_id(), json_string(e.rev_reg_def_id));
            let mt2 = member_text(key_issuer_id(), json_string(e.issuer_id));
            let a2 = 2 + mt1.len() as int;
            let acc0 = PartialEntry { rev_reg_def_id: None, issuer_id: None, data: None };
            let acc1 = PartialEntry { rev_reg_def_id: Some(e.rev_reg_def_id), ..acc0 };
            let acc2 = PartialEntry { issuer_id: Some(e.issuer_id), ..acc1 };
            entry_member(s, a2, acc1) == Some((acc2, a2 + mt2.len() as int))
        }),
{
    reveal_strlit("{");
    reveal_strlit("}");
    reveal_strlit(",");
    reveal_strlit("revRegDefId");
    reveal_strlit("issuerId");
    let s = entry_json(e);
    let v2 = json_string(e.issuer_id);
    let mt1 = member_text(key_rev_reg_def_id(), json_string(e.rev_reg_def_id));
    let mt2 = member_text(key_issuer_id(), v2);
    let a2 = 2 + mt1.len() as int;
    let b2 = a2 + json_string(key_issuer_id()).len();
    let c2 = b2 + 1;
    lemma_entry_pieces(e);
    lemma_member_text_at(s, a2, key_issuer_id(), v2);
    lemma_parse_string_at(s, a2, key_issuer_id());
    lemma_parse_string_at(s, c2, e.issuer_id);
    assert(s[c2] == v2[0] && v2[0] == '"');
    assert(skip_ws(s, b2) == b2 && skip_ws(s, c2) == c2);
    assert(key_issuer_id() != key_rev_reg_def_id());
}

/// Reading the third member of an entry's wire text yields the entry data.
#[verifier::rlimit(100)]
proof fn lemma_entry_member_three(e: EntryView)
    ensures
        ({
            let s = entry_json(e);
            let mt1 = member_text(key_rev_reg_def_id(), json_string(e.rev_reg_def_id));
            let mt2 = member_text(key_issuer_id(), json_string(e.issuer_id));
            let mt3 = member_text(key_rev_reg_entry_data(), data_json(e.data));
            let a3 = 3 + mt1.len() + mt2.len() as int;
            let acc0 = PartialEntry { rev_reg_def_id: None, issuer_id: None, data: None };
            let acc1 = PartialEntry { rev_reg_def_id: Some(e.rev_reg_def_id), ..acc0 };
            let acc2 = PartialEntry { issuer_id: Some(e.issuer_id), ..acc1 };
            let acc3 = PartialEntry { data: Some(e.data), ..acc2 };
            entry_member(s, a3, acc2) == Some((acc3, a3 + mt3.len() as int))
        }),
{
    reveal_strlit("{");
    reveal_strlit("}");
    reveal_strlit(",");
    reveal_strlit("revRegDefId");
    reveal_strlit("issuerId");
    reveal_strlit("rev_reg_entry_data");
    let s = entry_json(e);
    let v3 = data_json(e.data);
    let mt1 = member_text(key_rev_reg_def_id(), json_string(e.rev_reg_def_id));
    let mt2 = member_text(key_issuer_id(), json_string(e.issuer_id));
    let mt3 = member_text(key_rev_reg_entry_data(), v3);
    let a3 = 3 + mt1.len() + mt2.len() as int;
    let b3 = a3 + json_string(key_rev_reg_entry_data()).len();
    let c3 = b3 + 1;
    lemma_entry_pieces(e);
    lemma_member_text_at(s, a3, key_rev_reg_entry_data(), v3);
    lemma_parse_string_at(s, a3, key_rev_reg_entry_data());
    lemma_parse_data_at(s, c3, e.data);
    assert(s[c3] == v3[0] && v3[0] == '{');
    assert(skip_ws(s, b3) == b3 && skip_ws(s, c3) == c3);
    assert(key_rev_reg_entry_data() != key_rev_reg_def_id() && key_rev_reg_entry_data()
        != key_issuer_id());
}

/// The seams of an entry's wire text: the braces, the commas between
/// members, and the absence of whitespace at every reading position.
#[verifier::rlimit(100)]
proof fn lemma_entry_seams(e: EntryView)
    ensures
        ({
            let s = entry_json(e);
            let mt1 = member_text(key_rev_reg_def_id(), json_string(e.rev_reg_def_id));
            let mt2 = member_text(key_issuer_id(), json_string(e.issuer_id));
            let mt3 = member_text(key_rev_reg_entry_data(), data_json(e.data));
            let a1 = 1int;
            let e1 = a1 + mt1.len();
            let a2 = e1 + 1;
            let e2 = a2 + mt2.len();
            let a3 = e2 + 1;
            let e3 = a3 + mt3.len();
            s.len() == e3 + 1 && s[0] == '{' && s[a1] != '}' && s[e1] == ',' && s[e2] == ','
                && s[e3] == '}' && skip_ws(s, 0) == 0 && skip_ws(s, a1) == a1 && skip_ws(s, e1)
                == e1 && skip_ws(s, a2) == a2 && skip_ws(s, e2) == e2 && skip_ws(s, a3) == a3
                && skip_ws(s, e3) == e3 && skip_ws(s, s.len() as int) == s.len()
        }),
{
    reveal_strlit("{");
    reveal_strlit("}");
    reveal_strlit(",");
    let s = entry_json(e);
    let v1 = json_string(e.rev_reg_def_id);
    let v2 = json_string(e.issuer_id);
    let v3 = data_json(e.data);
    let mt1 = member_text(key_rev_reg_def_id(), v1);
    let mt2 = member_text(key_issuer_id(), v2);
    let mt3 = member_text(key_rev_reg_entry_data(), v3);
    let a1 = 1int;
    let e1 = a1 + mt1.len();
    let a2 = e1 + 1;
    let e2 = a2 + mt2.len();
    let a3 = e2 + 1;
    let e3 = a3 + mt3.len();
    lemma_entry_pieces(e);
    lemma_member_text_at(s, a1, key_rev_reg_def_id(), v1);
    lemma_member_text_at(s, a2, key_issuer_id(), v2);
    lemma_member_text_at(s, a3, key_rev_reg_entry_data(), v3);
    assert(s[a1] == '"' && s[a2] == '"' && s[a3] == '"');
    assert(skip_ws(s, 0) == 0 && skip_ws(s, a1) == a1 && skip_ws(s, e1) == e1 && skip_ws(s, a2)
        == a2 && skip_ws(s, e2) == e2 && skip_ws(s, a3) == a3 && skip_ws(s, e3) == e3);
    assert(skip_ws(s, s.len() as int) == s.len());
}

/// The wire form is value-preserving: reading the text written for any
/// entry yields that entry back, exactly.
#[verifier::rlimit(100)]
pub proof fn lemma_json_round_trip(e: EntryView)
    ensures
        parse_entry(entry_json(e)) == Some(e),
{
    reveal_with_fuel(entry_members, 4);
    let s = entry_json(e);
    let mt1 = member_text(key_rev_reg_def_id(), json_string(e.rev_reg_def_id));
    let mt2 = member_text(key_issuer_id(), json_string(e.issuer_id));
    let mt3 = member_text(key_rev_reg_entry_data(), data_json(e.data));
    let a1 = 1int;
    let e1 = a1 + mt1.len();
    let a2 = e1 + 1;
    let e2 = a2 + mt2.len();
    let a3 = e2 + 1;
    let e3 = a3 + mt3.len();
    let acc0 = PartialEntry { rev_reg_def_id: None, issuer_id: None, data: None };
    let acc1 = PartialEntry { rev_reg_def_id: Some(e.rev_reg_def_id), ..acc0 };
    let acc2 = PartialEntry { issuer_id: Some(e.issuer_id), ..acc1 };
    let acc3 = PartialEntry { data: Some(e.data), ..acc2 };
    lemma_entry_member_one(e);
    lemma_entry_member_two(e);
    lemma_entry_member_three(e);
    lemma_entry_seams(e);
    assert(entry_members(s, a3, acc2) == Some((acc3, e3 + 1)));
    assert(entry_members(s, a2, acc1) == Some((acc3, e3 + 1)));
    assert(entry_members(s, a1, acc0) == Some((acc3, e3 + 1)));
    assert(parse_entry_at(s, 0) matches Some(p) && p.0 =~= e && p.1 == s.len() as int);
}

/// The binary form is value-preserving too: reading the UTF-8 bytes of the
/// text written for any entry yields that entry back, exactly.
pub proof fn lemma_binary_round_trip(e: EntryView)
    ensures
        parse_entry_bytes(vstd::utf8::encode_utf8(entry_json(e))) == Some(e),
{
    vstd::utf8::encode_utf8_valid_utf8(entry_json(e));
    vstd::utf8::encode_utf8_decode_utf8(entry_json(e));
    lemma_json_round_trip(e);
}

} // verus!
