//! A verified JSON reader for the completion API's reply.
//!
//! The reply is one JSON object; the handler consumes only the member
//! `"choices"`, an array of objects, and from each choice only the string
//! member `"text"`. Every other member is skipped after checking that it is
//! well-formed JSON. The specification-level functions below define the
//! accepted grammar directly over a sequence of characters; each executable
//! function returns exactly what its specification counterpart describes.
//!
//! Positions are indices into the character sequence. A scanner returns the
//! position just after what it consumed; `None` means the input is not a
//! well-formed reply.

use vstd::prelude::*;

verus! {

/// JSON insignificant whitespace.
pub open spec fn is_ws_char(c: char) -> bool {
    c == ' ' || c == '\t' || c == '\n' || c == '\r'
}

/// An ASCII decimal digit.
pub open spec fn is_digit_char(c: char) -> bool {
    '0' <= c && c <= '9'
}

/// The value of a hexadecimal digit, or `None`.
pub open spec fn spec_hex_val(c: char) -> Option<u32> {
    if '0' <= c && c <= '9' {
        Some((c as u32 - '0' as u32) as u32)
    } else if 'a' <= c && c <= 'f' {
        Some((c as u32 - 'a' as u32 + 10) as u32)
    } else if 'A' <= c && c <= 'F' {
        Some((c as u32 - 'A' as u32 + 10) as u32)
    } else {
        None
    }
}

/// First position at or after `i` holding no whitespace.
pub open spec fn spec_ws_end(s: Seq<char>, i: int) -> int
    decreases s.len() - i,
{
    if 0 <= i < s.len() && is_ws_char(s[i]) {
        spec_ws_end(s, i + 1)
    } else {
        i
    }
}

/// End of the maximal run of digits starting at `i`.
pub open spec fn spec_digits_end(s: Seq<char>, i: int) -> int
    decreases s.len() - i,
{
    if 0 <= i < s.len() && is_digit_char(s[i]) {
        spec_digits_end(s, i + 1)
    } else {
        i
    }
}

/// Value of the four hexadecimal digits at `i`, or `None`.
pub open spec fn spec_hex4(s: Seq<char>, i: int) -> Option<u32> {
    if 0 <= i && i + 4 <= s.len() {
        match (spec_hex_val(s[i]), spec_hex_val(s[i + 1]), spec_hex_val(s[i + 2]), spec_hex_val(
            s[i + 3],
        )) {
            (Some(a), Some(b), Some(c), Some(d)) => Some(
                (a * 0x1000 + b * 0x100 + c * 0x10 + d) as u32,
            ),
            _ => None,
        }
    } else {
        None
    }
}

/// A `\u` escape starting at the first hex digit: either one scalar value,
/// or a surrogate pair `\uXXXX\uYYYY` standing for one supplementary
/// character. Yields the decoded character and the position after the
/// escape.
pub open spec fn spec_u_escape(s: Seq<char>, i: int) -> Option<(char, int)> {
    match spec_hex4(s, i) {
        None => None,
        Some(v) => if vstd::utf8::is_scalar(v) {
            Some((v as char, i + 4))
        } else if 0xD800 <= v < 0xDC00 {
            if i + 6 <= s.len() && s[i + 4] == '\\' && s[i + 5] == 'u' {
                match spec_hex4(s, i + 6) {
                    None => None,
                    Some(w) => if 0xDC00 <= w < 0xE000 {
                        Some(
                            (
                                ((0x10000 + (v - 0xD800) * 0x400 + (w - 0xDC00)) as u32) as char,
                                i + 10,
                            ),
                        )
                    } else {
                        None
                    },
                }
            } else {
                None
            }
        } else {
            None
        },
    }
}

/// A string escape, positioned just after the backslash: the decoded
/// character and the position after the escape.
pub open spec fn spec_escape(s: Seq<char>, i: int) -> Option<(char, int)> {
    if 0 <= i < s.len() {
        let c = s[i];
        if c == '"' {
            Some(('"', i + 1))
        } else if c == '\\' {
            Some(('\\', i + 1))
        } else if c == '/' {
            Some(('/', i + 1))
        } else if c == 'b' {
            Some(('\u{8}', i + 1))
        } else if c == 'f' {
            Some(('\u{c}', i + 1))
        } else if c == 'n' {
            Some(('\n', i + 1))
        } else if c == 'r' {
            Some(('\r', i + 1))
        } else if c == 't' {
            Some(('\t', i + 1))
        } else if c == 'u' {
            spec_u_escape(s, i + 1)
        } else {
            None
        }
    } else {
        None
    }
}

/// The decoded contents of a string literal, positioned just inside the
/// opening quote: the decoded characters and the position after the closing
/// quote. Unescaped control characters are rejected.
pub open spec fn spec_string_chars(s: Seq<char>, i: int) -> Option<(Seq<char>, int)>
    decreases s.len() - i,
{
    if 0 <= i < s.len() {
        let c = s[i];
        if c == '"' {
            Some((Seq::empty(), i + 1))
        } else if c == '\\' {
            match spec_escape(s, i + 1) {
                None => None,
                Some((d, k)) => if i + 1 < k <= s.len() {
                    match spec_string_chars(s, k) {
                        None => None,
                        Some((cs, e)) => Some((seq![d] + cs, e)),
                    }
                } else {
                    None
                },
            }
        } else if (c as u32) < 0x20 {
            None
        } else {
            match spec_string_chars(s, i + 1) {
                None => None,
                Some((cs, e)) => Some((seq![c] + cs, e)),
            }
        }
    } else {
        None
    }
}

/// Relies on `char::from_u32` of std: it returns `Some` exactly on Unicode
/// scalar values (at most `0x10FFFF` and not a surrogate), and the returned
/// character has the given value.
pub assume_specification[ char::from_u32 ](v: u32) -> (c: Option<char>)
    ensures
        c matches Some(ch) ==> ch as u32 == v,
        c is Some <==> vstd::utf8::is_scalar(v),
;

/// Whitespace scanner.
pub fn ws_end(s: &Vec<char>, i: usize) -> (r: usize)
    requires
        i <= s@.len(),
    ensures
        r as int == spec_ws_end(s@, i as int),
        i <= r <= s@.len(),
    decreases s@.len() - i,
{
    if i < s.len() && (s[i] == ' ' || s[i] == '\t' || s[i] == '\n' || s[i] == '\r') {
        ws_end(s, i + 1)
    } else {
        i
    }
}

/// Digit-run scanner.
pub fn digits_end(s: &Vec<char>, i: usize) -> (r: usize)
    requires
        i <= s@.len(),
    ensures
        r as int == spec_digits_end(s@, i as int),
        i <= r <= s@.len(),
        i < s@.len() && is_digit_char(s@[i as int]) ==> r > i,
    decreases s@.len() - i,
{
    if i < s.len() && '0' <= s[i] && s[i] <= '9' {
        digits_end(s, i + 1)
    } else {
        i
    }
}

/// One hexadecimal digit.
pub fn hex_val(c: char) -> (r: Option<u32>)
    ensures
        r == spec_hex_val(c),
{
    if '0' <= c && c <= '9' {
        Some(c as u32 - '0' as u32)
    } else if 'a' <= c && c <= 'f' {
        Some(c as u32 - 'a' as u32 + 10)
    } else if 'A' <= c && c <= 'F' {
        Some(c as u32 - 'A' as u32 + 10)
    } else {
        None
    }
}

/// Four hexadecimal digits.
pub fn hex4(s: &Vec<char>, i: usize) -> (r: Option<u32>)
    requires
        i <= s@.len(),
    ensures
        r == spec_hex4(s@, i as int),
        r matches Some(v) ==> v <= 0xFFFF && i + 4 <= s@.len(),
{
    if s.len() - i < 4 {
        return None;
    }
    let (a, b, c, d) = (hex_val(s[i]), hex_val(s[i + 1]), hex_val(s[i + 2]), hex_val(s[i + 3]));
    match (a, b, c, d) {
        (Some(a), Some(b), Some(c), Some(d)) => Some(a * 0x1000 + b * 0x100 + c * 0x10 + d),
        _ => None,
    }
}

/// A `\u` escape at its first hex digit.
pub fn u_escape(s: &Vec<char>, i: usize) -> (r: Option<(char, usize)>)
    requires
        i <= s@.len(),
    ensures
        r is None <==> spec_u_escape(s@, i as int) is None,
        r matches Some((c, e)) ==> (spec_u_escape(s@, i as int) matches Some(p) && p.0 == c
            && p.1 == e as int && i < e <= s@.len()),
{
    let n = s.len();
    match hex4(s, i) {
        None => None,
        Some(v) => {
            assert(i + 4 <= n);
            match char::from_u32(v) {
                Some(c) => {
                    proof {
                        vstd::utf8::char_u32_cast(c, v);
                    }
                    Some((c, i + 4))
                },
                None => {
                    if 0xD800 <= v && v < 0xDC00 && s.len() - i >= 6 && s[i + 4] == '\\' && s[i
                        + 5] == 'u' {
                        match hex4(s, i + 6) {
                            None => None,
                            Some(w) => {
                                if 0xDC00 <= w && w < 0xE000 {
                                    let combined: u32 = 0x10000 + (v - 0xD800) * 0x400 + (w
                                        - 0xDC00);
                                    match char::from_u32(combined) {
                                        Some(c) => {
                                            proof {
                                                vstd::utf8::char_u32_cast(c, combined);
                                            }
                                            Some((c, i + 10))
                                        },
                                        None => None,
                                    }
                                } else {
                                    None
                                }
                            },
                        }
                    } else {
                        None
                    }
                },
            }
        },
    }
}

/// A string escape just after its backslash.
pub fn escape(s: &Vec<char>, i: usize) -> (r: Option<(char, usize)>)
    requires
        i <= s@.len(),
    ensures
        r is None <==> spec_escape(s@, i as int) is None,
        r matches Some((c, e)) ==> (spec_escape(s@, i as int) matches Some(p) && p.0 == c && p.1
            == e as int && i < e <= s@.len()),
{
    if i >= s.len() {
        return None;
    }
    let c = s[i];
    if c == '"' {
        Some(('"', i + 1))
    } else if c == '\\' {
        Some(('\\', i + 1))
    } else if c == '/' {
        Some(('/', i + 1))
    } else if c == 'b' {
        Some(('\u{8}', i + 1))
    } else if c == 'f' {
        Some(('\u{c}', i + 1))
    } else if c == 'n' {
        Some(('\n', i + 1))
    } else if c == 'r' {
        Some(('\r', i + 1))
    } else if c == 't' {
        Some(('\t', i + 1))
    } else if c == 'u' {
        u_escape(s, i + 1)
    } else {
        None
    }
}

/// Decode a string literal's contents, starting just inside the opening
/// quote.
pub fn string_chars(s: &Vec<char>, i: usize) -> (r: Option<(Vec<char>, usize)>)
    requires
        i <= s@.len(),
    ensures
        r is None <==> spec_string_chars(s@, i as int) is None,
        r matches Some((cs, e)) ==> (spec_string_chars(s@, i as int) matches Some(p) && p.0 == cs@
            && p.1 == e as int && i < e <= s@.len()),
    decreases s@.len() - i,
{
    if i >= s.len() {
        return None;
    }
    let c = s[i];
    if c == '"' {
        let empty: Vec<char> = Vec::new();
        proof {
            assert(Seq::<char>::empty() =~= empty@);
        }
        Some((empty, i + 1))
    } else if c == '\\' {
        match escape(s, i + 1) {
            None => None,
            Some((d, k)) => {
                match string_chars(s, k) {
                    None => None,
                    Some((mut cs, e)) => {
                        cs.insert(0, d);
                        proof {
                            let p = spec_string_chars(s@, i as int).unwrap();
                            assert(cs@ =~= p.0);
                        }
                        Some((cs, e))
                    },
                }
            },
        }
    } else if (c as u32) < 0x20 {
        None
    } else {
        match string_chars(s, i + 1) {
            None => None,
            Some((mut cs, e)) => {
                cs.insert(0, c);
                proof {
                    let p = spec_string_chars(s@, i as int).unwrap();
                    assert(cs@ =~= p.0);
                }
                Some((cs, e))
            },
        }
    }
}

/// End of the exponent part (if any) of a number whose mantissa ends at `m`.
pub open spec fn spec_exp_end(s: Seq<char>, m: int) -> Option<int> {
    if 0 <= m < s.len() && (s[m] == 'e' || s[m] == 'E') {
        let p = if m + 1 < s.len() && (s[m + 1] == '+' || s[m + 1] == '-') {
            m + 2
        } else {
            m + 1
        };
        if 0 <= p < s.len() && is_digit_char(s[p]) {
            Some(spec_digits_end(s, p))
        } else {
            None
        }
    } else {
        Some(m)
    }
}

/// End of the fraction and exponent parts of a number whose integer part
/// ends at `k`.
pub open spec fn spec_number_tail(s: Seq<char>, k: int) -> Option<int> {
    if 0 <= k < s.len() && s[k] == '.' {
        if k + 1 < s.len() && is_digit_char(s[k + 1]) {
            spec_exp_end(s, spec_digits_end(s, k + 1))
        } else {
            None
        }
    } else {
        spec_exp_end(s, k)
    }
}

/// End of the JSON number starting at `i`: an optional minus sign, an
/// integer part without leading zeroes, then optional fraction and exponent.
pub open spec fn spec_number_end(s: Seq<char>, i: int) -> Option<int> {
    let j = if 0 <= i < s.len() && s[i] == '-' {
        i + 1
    } else {
        i
    };
    if 0 <= j < s.len() && s[j] == '0' {
        spec_number_tail(s, j + 1)
    } else if 0 <= j < s.len() && is_digit_char(s[j]) {
        spec_number_tail(s, spec_digits_end(s, j))
    } else {
        None
    }
}

/// End of the JSON value starting at `i`; `None` if none starts there.
pub open spec fn spec_value_end(s: Seq<char>, i: int) -> Option<int>
    decreases s.len() - i, 0int,
{
    if 0 <= i < s.len() {
        let c = s[i];
        if c == '"' {
            match spec_string_chars(s, i + 1) {
                None => None,
                Some((cs, e)) => Some(e),
            }
        } else if c == '-' || is_digit_char(c) {
            spec_number_end(s, i)
        } else if c == 't' {
            if i + 4 <= s.len() && s[i + 1] == 'r' && s[i + 2] == 'u' && s[i + 3] == 'e' {
                Some(i + 4)
            } else {
                None
            }
        } else if c == 'f' {
            if i + 5 <= s.len() && s[i + 1] == 'a' && s[i + 2] == 'l' && s[i + 3] == 's' && s[i + 4]
                == 'e' {
                Some(i + 5)
            } else {
                None
            }
        } else if c == 'n' {
            if i + 4 <= s.len() && s[i + 1] == 'u' && s[i + 2] == 'l' && s[i + 3] == 'l' {
                Some(i + 4)
            } else {
                None
            }
        } else if c == '[' {
            spec_array_rest(s, i + 1)
        } else if c == '{' {
            spec_object_rest(s, i + 1)
        } else {
            None
        }
    } else {
        None
    }
}

/// End of the object member (`"key" : value`) starting at `j`.
pub open spec fn spec_member_end(s: Seq<char>, j: int) -> Option<int>
    decreases s.len() - j, 1int,
{
    if 0 <= j < s.len() && s[j] == '"' {
        match spec_string_chars(s, j + 1) {
            None => None,
            Some((key, ke)) => {
                let c1 = spec_ws_end(s, ke);
                if j < ke <= s.len() && ke <= c1 < s.len() && s[c1] == ':' {
                    let j2 = spec_ws_end(s, c1 + 1);
                    if c1 + 1 <= j2 <= s.len() {
                        spec_value_end(s, j2)
                    } else {
                        None
                    }
                } else {
                    None
                }
            },
        }
    } else {
        None
    }
}

/// End of an array body, positioned just after `[`.
pub open spec fn spec_array_rest(s: Seq<char>, i: int) -> Option<int>
    decreases s.len() - i, 2int,
{
    let j = spec_ws_end(s, i);
    if i <= j <= s.len() {
        if j < s.len() && s[j] == ']' {
            Some(j + 1)
        } else {
            match spec_value_end(s, j) {
                None => None,
                Some(k) => if j < k <= s.len() {
                    spec_array_more(s, k)
                } else {
                    None
                },
            }
        }
    } else {
        None
    }
}

/// End of an array body continued after an element ending at `k`.
pub open spec fn spec_array_more(s: Seq<char>, k: int) -> Option<int>
    decreases s.len() - k, 3int,
{
    let m = spec_ws_end(s, k);
    if k <= m < s.len() {
        if s[m] == ']' {
            Some(m + 1)
        } else if s[m] == ',' {
            let j = spec_ws_end(s, m + 1);
            if m + 1 <= j <= s.len() {
                match spec_value_end(s, j) {
                    None => None,
                    Some(k2) => if j < k2 <= s.len() {
                        spec_array_more(s, k2)
                    } else {
                        None
                    },
                }
            } else {
                None
            }
        } else {
            None
        }
    } else {
        None
    }
}

/// End of an object body, positioned just after `{`.
pub open spec fn spec_object_rest(s: Seq<char>, i: int) -> Option<int>
    decreases s.len() - i, 2int,
{
    let j = spec_ws_end(s, i);
    if i <= j <= s.len() {
        if j < s.len() && s[j] == '}' {
            Some(j + 1)
        } else {
            match spec_member_end(s, j) {
                None => None,
                Some(k) => if j < k <= s.len() {
                    spec_object_more(s, k)
                } else {
                    None
                },
            }
        }
    } else {
        None
    }
}

/// End of an object body continued after a member ending at `k`.
pub open spec fn spec_object_more(s: Seq<char>, k: int) -> Option<int>
    decreases s.len() - k, 3int,
{
    let m = spec_ws_end(s, k);
    if k <= m < s.len() {
        if s[m] == '}' {
            Some(m + 1)
        } else if s[m] == ',' {
            let j = spec_ws_end(s, m + 1);
            if m + 1 <= j <= s.len() {
                match spec_member_end(s, j) {
                    None => None,
                    Some(k2) => if j < k2 <= s.len() {
                        spec_object_more(s, k2)
                    } else {
                        None
                    },
                }
            } else {
                None
            }
        } else {
            None
        }
    } else {
        None
    }
}

/// Exponent-part scanner.
pub fn exp_end(s: &Vec<char>, m: usize) -> (r: Option<usize>)
    requires
        m <= s@.len(),
    ensures
        r is None <==> spec_exp_end(s@, m as int) is None,
        r matches Some(e) ==> (spec_exp_end(s@, m as int) matches Some(se) && se == e as int && m
            <= e <= s@.len()),
{
    if m < s.len() && (s[m] == 'e' || s[m] == 'E') {
        let p = if m + 1 < s.len() && (s[m + 1] == '+' || s[m + 1] == '-') {
            m + 2
        } else {
            m + 1
        };
        if p < s.len() && '0' <= s[p] && s[p] <= '9' {
            Some(digits_end(s, p))
        } else {
            None
        }
    } else {
        Some(m)
    }
}

/// Fraction-and-exponent scanner.
pub fn number_tail(s: &Vec<char>, k: usize) -> (r: Option<usize>)
    requires
        k <= s@.len(),
    ensures
        r is None <==> spec_number_tail(s@, k as int) is None,
        r matches Some(e) ==> (spec_number_tail(s@, k as int) matches Some(se) && se == e as int
            && k <= e <= s@.len()),
{
    if k < s.len() && s[k] == '.' {
        if k + 1 < s.len() && '0' <= s[k + 1] && s[k + 1] <= '9' {
            exp_end(s, digits_end(s, k + 1))
        } else {
            None
        }
    } else {
        exp_end(s, k)
    }
}

/// Number scanner.
pub fn number_end(s: &Vec<char>, i: usize) -> (r: Option<usize>)
    requires
        i < s@.len(),
        s@[i as int] == '-' || is_digit_char(s@[i as int]),
    ensures
        r is None <==> spec_number_end(s@, i as int) is None,
        r matches Some(e) ==> (spec_number_end(s@, i as int) matches Some(se) && se == e as int
            && i < e <= s@.len()),
{
    let n = s.len();
    let j = if s[i] == '-' {
        i + 1
    } else {
        i
    };
    if j < s.len() && s[j] == '0' {
        number_tail(s, j + 1)
    } else if j < s.len() && '0' <= s[j] && s[j] <= '9' {
        let de = digits_end(s, j);
        assert(de > j);
        number_tail(s, de)
    } else {
        None
    }
}

/// Scanner for one JSON value.
pub fn value_end(s: &Vec<char>, i: usize) -> (r: Option<usize>)
    requires
        i <= s@.len(),
    ensures
        r is None <==> spec_value_end(s@, i as int) is None,
        r matches Some(e) ==> (spec_value_end(s@, i as int) matches Some(se) && se == e as int && i
            < e <= s@.len()),
    decreases s@.len() - i, 0int,
{
    let n = s.len();
    if i >= n {
        return None;
    }
    let c = s[i];
    if c == '"' {
        match string_chars(s, i + 1) {
            None => None,
            Some((cs, e)) => Some(e),
        }
    } else if c == '-' || ('0' <= c && c <= '9') {
        number_end(s, i)
    } else if c == 't' {
        if n - i >= 4 && s[i + 1] == 'r' && s[i + 2] == 'u' && s[i + 3] == 'e' {
            Some(i + 4)
        } else {
            None
        }
    } else if c == 'f' {
        if n - i >= 5 && s[i + 1] == 'a' && s[i + 2] == 'l' && s[i + 3] == 's' && s[i + 4] == 'e' {
            Some(i + 5)
        } else {
            None
        }
    } else if c == 'n' {
        if n - i >= 4 && s[i + 1] == 'u' && s[i + 2] == 'l' && s[i + 3] == 'l' {
            Some(i + 4)
        } else {
            None
        }
    } else if c == '[' {
        array_rest(s, i + 1)
    } else if c == '{' {
        object_rest(s, i + 1)
    } else {
        None
    }
}

/// Scanner for one object member, `"key" : value`.
pub fn member_end(s: &Vec<char>, j: usize) -> (r: Option<usize>)
    requires
        j <= s@.len(),
    ensures
        r is None <==> spec_member_end(s@, j as int) is None,
        r matches Some(e) ==> (spec_member_end(s@, j as int) matches Some(se) && se == e as int
            && j < e <= s@.len()),
    decreases s@.len() - j, 1int,
{
    let n = s.len();
    if j >= n || s[j] != '"' {
        return None;
    }
    match string_chars(s, j + 1) {
        None => None,
        Some((key, ke)) => {
            let c1 = ws_end(s, ke);
            if c1 < n && s[c1] == ':' {
                let j2 = ws_end(s, c1 + 1);
                value_end(s, j2)
            } else {
                None
            }
        },
    }
}

/// Scanner for an array body, just after `[`.
pub fn array_rest(s: &Vec<char>, i: usize) -> (r: Option<usize>)
    requires
        i <= s@.len(),
    ensures
        r is None <==> spec_array_rest(s@, i as int) is None,
        r matches Some(e) ==> (spec_array_rest(s@, i as int) matches Some(se) && se == e as int
            && i < e <= s@.len()),
    decreases s@.len() - i, 2int,
{
    let n = s.len();
    let j = ws_end(s, i);
    if j < n && s[j] == ']' {
        return Some(j + 1);
    }
    match value_end(s, j) {
        None => None,
        Some(k) => array_more(s, k),
    }
}

/// Scanner for an array body continued after an element ending at `k`.
pub fn array_more(s: &Vec<char>, k: usize) -> (r: Option<usize>)
    requires
        k <= s@.len(),
    ensures
        r is None <==> spec_array_more(s@, k as int) is None,
        r matches Some(e) ==> (spec_array_more(s@, k as int) matches Some(se) && se == e as int
            && k < e <= s@.len()),
    decreases s@.len() - k, 3int,
{
    let n = s.len();
    let m = ws_end(s, k);
    if m >= n {
        return None;
    }
    if s[m] == ']' {
        Some(m + 1)
    } else if s[m] == ',' {
        let j = ws_end(s, m + 1);
        match value_end(s, j) {
            None => None,
            Some(k2) => array_more(s, k2),
        }
    } else {
        None
    }
}

/// Scanner for an object body, just after `{`.
pub fn object_rest(s: &Vec<char>, i: usize) -> (r: Option<usize>)
    requires
        i <= s@.len(),
    ensures
        r is None <==> spec_object_rest(s@, i as int) is None,
        r matches Some(e) ==> (spec_object_rest(s@, i as int) matches Some(se) && se == e as int
            && i < e <= s@.len()),
    decreases s@.len() - i, 2int,
{
    let n = s.len();
    let j = ws_end(s, i);
    if j < n && s[j] == '}' {
        return Some(j + 1);
    }
    match member_end(s, j) {
        None => None,
        Some(k) => object_more(s, k),
    }
}

/// Scanner for an object body continued after a member ending at `k`.
pub fn object_more(s: &Vec<char>, k: usize) -> (r: Option<usize>)
    requires
        k <= s@.len(),
    ensures
        r is None <==> spec_object_more(s@, k as int) is None,
        r matches Some(e) ==> (spec_object_more(s@, k as int) matches Some(se) && se == e as int
            && k < e <= s@.len()),
    decreases s@.len() - k, 3int,
{
    let n = s.len();
    let m = ws_end(s, k);
    if m >= n {
        return None;
    }
    if s[m] == '}' {
        Some(m + 1)
    } else if s[m] == ',' {
        let j = ws_end(s, m + 1);
        match member_end(s, j) {
            None => None,
            Some(k2) => object_more(s, k2),
        }
    } else {
        None
    }
}

} // verus!
