//! Construction of the outbound completion request.
//!
//! The request body is one JSON object whose `"prompt"` member is the fixed
//! prelude followed by the caller's text, verbatim, JSON-escaped; every other
//! member is a fixed constant of the service. The escaping below writes the
//! two-character escapes JSON defines and `\u00XX` for the remaining control
//! characters, and leaves every other character as it stands.

use vstd::prelude::*;

use crate::json::spec_hex_val;
use crate::json::spec_string_chars;
use crate::text::chars_to_string;
use crate::text::str_to_chars;

verus! {

/// The hexadecimal digit spelling `v`, lower case.
pub open spec fn spec_hex_char(v: u32) -> char {
    if v == 0 {
        '0'
    } else if v == 1 {
        '1'
    } else if v == 2 {
        '2'
    } else if v == 3 {
        '3'
    } else if v == 4 {
        '4'
    } else if v == 5 {
        '5'
    } else if v == 6 {
        '6'
    } else if v == 7 {
        '7'
    } else if v == 8 {
        '8'
    } else if v == 9 {
        '9'
    } else if v == 10 {
        'a'
    } else if v == 11 {
        'b'
    } else if v == 12 {
        'c'
    } else if v == 13 {
        'd'
    } else if v == 14 {
        'e'
    } else {
        'f'
    }
}

/// What a character becomes inside a JSON string literal.
pub open spec fn spec_escape_char(c: char) -> Seq<char> {
    if c == '"' {
        seq!['\\', '"']
    } else if c == '\\' {
        seq!['\\', '\\']
    } else if c == '\u{8}' {
        seq!['\\', 'b']
    } else if c == '\t' {
        seq!['\\', 't']
    } else if c == '\n' {
        seq!['\\', 'n']
    } else if c == '\u{c}' {
        seq!['\\', 'f']
    } else if c == '\r' {
        seq!['\\', 'r']
    } else if (c as u32) < 0x20 {
        seq!['\\', 'u', '0', '0', spec_hex_char((c as u32) / 16), spec_hex_char((c as u32) % 16)]
    } else {
        seq![c]
    }
}

/// The escaped spelling of the characters of `s` from position `i` on.
pub open spec fn spec_escaped_from(s: Seq<char>, i: int) -> Seq<char>
    decreases s.len() - i,
{
    if 0 <= i < s.len() {
        spec_escape_char(s[i]) + spec_escaped_from(s, i + 1)
    } else {
        Seq::empty()
    }
}

/// The escaped spelling of a whole text.
pub open spec fn spec_escaped(s: Seq<char>) -> Seq<char> {
    spec_escaped_from(s, 0)
}

/// The fixed text put in front of every caller-supplied prompt.
pub open spec fn prompt_prelude() -> Seq<char> {
    "Finish the Following: "@
}

/// The request body for a prompt: the fixed members of the completion
/// request around the escaped prelude-plus-prompt text.
pub open spec fn spec_request_body(p: Seq<char>) -> Seq<char> {
    "{\"model\":\"text-davinci-002\",\"prompt\":\""@ + spec_escaped(prompt_prelude() + p)
        + "\",\"max_tokens\":50,\"temperature\":0.6,\"top_p\":1.0,\"frequency_penalty\":0.5,\"presence_penalty\":0.5,\"echo\":false}"@
}

/// A character that needs no escaping passes through `spec_escape_char`
/// unchanged, so a text of such characters is embedded verbatim.
pub proof fn lemma_plain_text_unchanged(s: Seq<char>, i: int)
    requires
        0 <= i <= s.len(),
        forall|k: int|
            i <= k < s.len() ==> (s[k] != '"' && s[k] != '\\' && (s[k] as u32) >= 0x20),
    ensures
        spec_escaped_from(s, i) == s.skip(i),
    decreases s.len() - i,
{
    if i < s.len() {
        lemma_plain_text_unchanged(s, i + 1);
        assert(spec_escaped_from(s, i) =~= s.skip(i));
    } else {
        assert(spec_escaped_from(s, i) =~= s.skip(i));
    }
}

/// The hexadecimal digit spelling `v`.
fn hex_char(v: u32) -> (r: char)
    requires
        v < 16,
    ensures
        r == spec_hex_char(v),
{
    if v == 0 {
        '0'
    } else if v == 1 {
        '1'
    } else if v == 2 {
        '2'
    } else if v == 3 {
        '3'
    } else if v == 4 {
        '4'
    } else if v == 5 {
        '5'
    } else if v == 6 {
        '6'
    } else if v == 7 {
        '7'
    } else if v == 8 {
        '8'
    } else if v == 9 {
        '9'
    } else if v == 10 {
        'a'
    } else if v == 11 {
        'b'
    } else if v == 12 {
        'c'
    } else if v == 13 {
        'd'
    } else if v == 14 {
        'e'
    } else {
        'f'
    }
}

/// The escaped spelling of one character.
fn escape_char_vec(c: char) -> (r: Vec<char>)
    ensures
        r@ == spec_escape_char(c),
{
    let mut r: Vec<char> = Vec::new();
    if c == '"' {
        r.push('\\');
        r.push('"');
    } else if c == '\\' {
        r.push('\\');
        r.push('\\');
    } else if c == '\u{8}' {
        r.push('\\');
        r.push('b');
    } else if c == '\t' {
        r.push('\\');
        r.push('t');
    } else if c == '\n' {
        r.push('\\');
        r.push('n');
    } else if c == '\u{c}' {
        r.push('\\');
        r.push('f');
    } else if c == '\r' {
        r.push('\\');
        r.push('r');
    } else if (c as u32) < 0x20 {
        r.push('\\');
        r.push('u');
        r.push('0');
        r.push('0');
        r.push(hex_char((c as u32) / 16));
        r.push(hex_char((c as u32) % 16));
    } else {
        r.push(c);
    }
    proof {
        assert(r@ =~= spec_escape_char(c));
    }
    r
}

/// The escaped spelling of the characters of `s` from position `i` on.
fn escaped_from(s: &Vec<char>, i: usize) -> (r: Vec<char>)
    requires
        i <= s@.len(),
    ensures
        r@ == spec_escaped_from(s@, i as int),
    decreases s@.len() - i,
{
    if i >= s.len() {
        let r: Vec<char> = Vec::new();
        proof {
            assert(r@ =~= spec_escaped_from(s@, i as int));
        }
        r
    } else {
        let mut r = escape_char_vec(s[i]);
        let mut rest = escaped_from(s, i + 1);
        r.append(&mut rest);
        proof {
            assert(r@ =~= spec_escaped_from(s@, i as int));
        }
        r
    }
}

/// Reading a hexadecimal digit back yields the value it spells.
proof fn lemma_hex_char_val(d: u32)
    requires
        d < 16,
    ensures
        spec_hex_val(spec_hex_char(d)) == Some(d),
{
}

/// Escaping a suffix by position is escaping the suffix.
proof fn lemma_escaped_from_shift(x: Seq<char>, i: int, j: int)
    requires
        0 <= i,
        0 <= j,
        i + j <= x.len(),
    ensures
        spec_escaped_from(x.skip(j), i) == spec_escaped_from(x, i + j),
    decreases x.len() - i - j,
{
    if i + j < x.len() {
        lemma_escaped_from_shift(x, i + 1, j);
        assert(x.skip(j)[i] == x[i + j]);
    }
}

/// Escaping is faithful: the escaped spelling of any text, read back as the
/// inside of a JSON string literal up to its closing quote, yields exactly
/// the original text. (`s` holds that spelling from position `i` on, with
/// the closing quote right after it; anything may follow.)
pub proof fn lemma_escaped_string_parses(s: Seq<char>, i: int, x: Seq<char>)
    requires
        0 <= i <= s.len(),
        i + spec_escaped(x).len() + 1 <= s.len(),
        s.subrange(i, i + spec_escaped(x).len() as int) == spec_escaped(x),
        s[i + spec_escaped(x).len() as int] == '"',
    ensures
        spec_string_chars(s, i) == Some((x, i + spec_escaped(x).len() as int + 1)),
    decreases x.len(),
{
    let el_all = spec_escaped(x).len() as int;
    if x.len() == 0 {
        assert(spec_escaped(x) =~= Seq::<char>::empty());
        assert(s[i] == '"');
        assert(x =~= Seq::<char>::empty());
        assert(spec_string_chars(s, i) == Some((x, i + el_all + 1)));
    } else {
        let c = x[0];
        let ec = spec_escape_char(c);
        let el = ec.len() as int;
        let xs = x.drop_first();
        lemma_escaped_from_shift(x, 0, 1);
        assert(x.skip(1) =~= xs);
        assert(spec_escaped(x) == ec + spec_escaped(xs));
        let tl = spec_escaped(xs).len() as int;
        assert(el_all == el + tl);
        assert forall|k: int| 0 <= k < el implies s[i + k] == ec[k] by {
            assert(s.subrange(i, i + el_all)[k] == s[i + k]);
        }
        assert(s.subrange(i + el, i + el + tl) =~= spec_escaped(xs)) by {
            assert forall|m: int| 0 <= m < tl implies s.subrange(i + el, i + el + tl)[m]
                == spec_escaped(xs)[m] by {
                assert(s.subrange(i, i + el_all)[el + m] == s[i + el + m]);
            }
        }
        assert(s[i + el + tl] == '"');
        lemma_escaped_string_parses(s, i + el, xs);
        assert(seq![c] + xs =~= x);
        if c == '"' || c == '\\' {
            assert(s[i] == '\\' && s[i + 1] == ec[1]);
            assert(crate::json::spec_escape(s, i + 1) == Some((c, i + 2)));
            assert(spec_string_chars(s, i) == Some((x, i + el_all + 1)));
        } else if c == '\u{8}' || c == '\t' || c == '\n' || c == '\u{c}' || c == '\r' {
            assert(s[i] == '\\' && s[i + 1] == ec[1]);
            assert(crate::json::spec_escape(s, i + 1) == Some((c, i + 2)));
            assert(spec_string_chars(s, i) == Some((x, i + el_all + 1)));
        } else if (c as u32) < 0x20 {
            let cv = c as u32;
            assert(s[i] == '\\' && s[i + 1] == 'u' && s[i + 2] == '0' && s[i + 3] == '0' && s[i
                + 4] == spec_hex_char(cv / 16) && s[i + 5] == spec_hex_char(cv % 16));
            lemma_hex_char_val(cv / 16);
            lemma_hex_char_val(cv % 16);
            vstd::arithmetic::div_mod::lemma_fundamental_div_mod(cv as int, 16);
            assert(crate::json::spec_hex4(s, i + 2) == Some(cv));
            assert(vstd::utf8::is_scalar(cv));
            vstd::utf8::char_u32_cast(c, cv);
            assert(crate::json::spec_u_escape(s, i + 2) == Some((c, i + 6)));
            assert(crate::json::spec_escape(s, i + 1) == Some((c, i + 6)));
            assert(spec_string_chars(s, i) == Some((x, i + el_all + 1)));
        } else {
            assert(s[i] == c);
            assert(spec_string_chars(s, i) == Some((x, i + el_all + 1)));
        }
    }
}

/// Escaping then reading back as a JSON string literal is the identity:
/// the `"prompt"` member of the request body, which holds the escaped
/// prelude-plus-prompt, denotes exactly that text.
pub proof fn lemma_escape_round_trip(x: Seq<char>)
    ensures
        spec_string_chars(spec_escaped(x) + seq!['"'], 0) == Some(
            (x, spec_escaped(x).len() as int + 1),
        ),
{
    let s = spec_escaped(x) + seq!['"'];
    assert(s.subrange(0, spec_escaped(x).len() as int) =~= spec_escaped(x));
    lemma_escaped_string_parses(s, 0, x);
}

/// Build the completion request body for the caller's prompt.
pub fn completion_request_body(prompt: &str) -> (r: String)
    ensures
        r@ == spec_request_body(prompt@),
{
    let mut full = str_to_chars("Finish the Following: ");
    let mut tail = str_to_chars(prompt);
    full.append(&mut tail);
    let escaped = chars_to_string(&escaped_from(&full, 0));
    let mut body = String::from_str("{\"model\":\"text-davinci-002\",\"prompt\":\"");
    body.append(escaped.as_str());
    body.append(
        "\",\"max_tokens\":50,\"temperature\":0.6,\"top_p\":1.0,\"frequency_penalty\":0.5,\"presence_penalty\":0.5,\"echo\":false}",
    );
    body
}

/// The completion endpoint the request is sent to.
pub fn completions_url() -> (r: String)
    ensures
        r@ == "https://api.openai.com/v1/completions"@,
{
    String::from_str("https://api.openai.com/v1/completions")
}

/// The value of the outbound `Authorization` header for a given API key.
pub fn bearer_header(key: &str) -> (r: String)
    ensures
        r@ == "Bearer "@ + key@,
{
    let mut r = String::from_str("Bearer ");
    r.append(key);
    r
}

} // verus!
