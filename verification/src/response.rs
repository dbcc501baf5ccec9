//! The completion API's reply, read against its schema.
//!
//! The reply must be one JSON object. Its member `"choices"` is an array of
//! objects; from each choice the string member `"text"` is taken. All other
//! members, at either level, are skipped after checking that they are
//! well-formed JSON; a missing or repeated `"choices"` or `"text"` member,
//! or one of the wrong type, makes the whole reply malformed, as does any
//! text before or after the object.

use vstd::prelude::*;

use crate::json::spec_string_chars;
use crate::json::spec_value_end;
use crate::json::spec_ws_end;
use crate::json::string_chars;
use crate::json::value_end;
use crate::json::ws_end;

verus! {

/// One member of a choice object at `j` (at the opening quote of its key):
/// the member's end and the `"text"` contents found so far, updated if this
/// member is the (first) `"text"`. A repeated `"text"`, or one holding
/// anything but a string, is malformed.
pub open spec fn spec_choice_member(s: Seq<char>, j: int, found: Option<Seq<char>>) -> Option<
    (Option<Seq<char>>, int),
> {
    if 0 <= j < s.len() && s[j] == '"' {
        match spec_string_chars(s, j + 1) {
            None => None,
            Some((key, ke)) => {
                let c1 = spec_ws_end(s, ke);
                if j < ke <= s.len() && ke <= c1 < s.len() && s[c1] == ':' {
                    let j2 = spec_ws_end(s, c1 + 1);
                    if c1 + 1 <= j2 <= s.len() {
                        if key == "text"@ {
                            if found is Some {
                                None
                            } else if j2 < s.len() && s[j2] == '"' {
                                match spec_string_chars(s, j2 + 1) {
                                    None => None,
                                    Some((txt, k)) => Some((Some(txt), k)),
                                }
                            } else {
                                None
                            }
                        } else {
                            match spec_value_end(s, j2) {
                                None => None,
                                Some(k) => Some((found, k)),
                            }
                        }
                    } else {
                        None
                    }
                } else {
                    None
                }
            },
        }
    } else {
        None
    }
}

/// A choice object continued after a member ending at `k`: the `"text"`
/// contents and the position after the closing brace.
pub open spec fn spec_choice_obj_more(s: Seq<char>, k: int, found: Option<Seq<char>>) -> Option<
    (Seq<char>, int),
>
    decreases s.len() - k,
{
    let m = spec_ws_end(s, k);
    if k <= m < s.len() {
        if s[m] == '}' {
            match found {
                None => None,
                Some(t) => Some((t, m + 1)),
            }
        } else if s[m] == ',' {
            let j = spec_ws_end(s, m + 1);
            if m + 1 <= j <= s.len() {
                match spec_choice_member(s, j, found) {
                    None => None,
                    Some((f2, k2)) => if j < k2 <= s.len() {
                        spec_choice_obj_more(s, k2, f2)
                    } else {
                        None
                    },
                }
            } else {
                None
            }
        } else {
            None
        }
    } else {
        None
    }
}

/// A choice object, just after its `{`. An object without a `"text"` member
/// is malformed.
pub open spec fn spec_choice_rest(s: Seq<char>, i: int) -> Option<(Seq<char>, int)> {
    let j = spec_ws_end(s, i);
    if i <= j <= s.len() {
        if j < s.len() && s[j] == '}' {
            None
        } else {
            match spec_choice_member(s, j, None) {
                None => None,
                Some((f, k)) => if j < k <= s.len() {
                    spec_choice_obj_more(s, k, f)
                } else {
                    None
                },
            }
        }
    } else {
        None
    }
}

/// The `"choices"` array continued after an element ending at `k`: the texts
/// of the remaining choices and the position after the closing bracket.
pub open spec fn spec_choices_more(s: Seq<char>, k: int) -> Option<(Seq<Seq<char>>, int)>
    decreases s.len() - k,
{
    let m = spec_ws_end(s, k);
    if k <= m < s.len() {
        if s[m] == ']' {
            Some((Seq::empty(), m + 1))
        } else if s[m] == ',' {
            let j = spec_ws_end(s, m + 1);
            if m + 1 <= j <= s.len() && j < s.len() && s[j] == '{' {
                match spec_choice_rest(s, j + 1) {
                    None => None,
                    Some((t, k2)) => if j + 1 < k2 <= s.len() {
                        match spec_choices_more(s, k2) {
                            None => None,
                            Some((ts, e)) => Some((seq![t] + ts, e)),
                        }
                    } else {
                        None
                    },
                }
            } else {
                None
            }
        } else {
            None
        }
    } else {
        None
    }
}

/// The `"choices"` array, just after its `[`: the texts of its choices, in
/// order, and the position after the closing bracket. An element that is not
/// an object is malformed.
pub open spec fn spec_choices_rest(s: Seq<char>, i: int) -> Option<(Seq<Seq<char>>, int)> {
    let j = spec_ws_end(s, i);
    if i <= j <= s.len() && j < s.len() {
        if s[j] == ']' {
            Some((Seq::empty(), j + 1))
        } else if s[j] == '{' {
            match spec_choice_rest(s, j + 1) {
                None => None,
                Some((t, k)) => if j + 1 < k <= s.len() {
                    match spec_choices_more(s, k) {
                        None => None,
                        Some((ts, e)) => Some((seq![t] + ts, e)),
                    }
                } else {
                    None
                },
            }
        } else {
            None
        }
    } else {
        None
    }
}

/// One member of the top-level object at `j`: the member's end and the
/// choice texts found so far, filled in if this member is the (first)
/// `"choices"`. A repeated `"choices"`, or one holding anything but an
/// array, is malformed.
pub open spec fn spec_top_member(s: Seq<char>, j: int, found: Option<Seq<Seq<char>>>) -> Option<
    (Option<Seq<Seq<char>>>, int),
> {
    if 0 <= j < s.len() && s[j] == '"' {
        match spec_string_chars(s, j + 1) {
            None => None,
            Some((key, ke)) => {
                let c1 = spec_ws_end(s, ke);
                if j < ke <= s.len() && ke <= c1 < s.len() && s[c1] == ':' {
                    let j2 = spec_ws_end(s, c1 + 1);
                    if c1 + 1 <= j2 <= s.len() {
                        if key == "choices"@ {
                            if found is Some {
                                None
                            } else if j2 < s.len() && s[j2] == '[' {
                                match spec_choices_rest(s, j2 + 1) {
                                    None => None,
                                    Some((ts, k)) => Some((Some(ts), k)),
                                }
                            } else {
                                None
                            }
                        } else {
                            match spec_value_end(s, j2) {
                                None => None,
                                Some(k) => Some((found, k)),
                            }
                        }
                    } else {
                        None
                    }
                } else {
                    None
                }
            },
        }
    } else {
        None
    }
}

/// The top-level object continued after a member ending at `k`: the choice
/// texts and the position after the closing brace. An object without a
/// `"choices"` member is malformed.
pub open spec fn spec_top_more(s: Seq<char>, k: int, found: Option<Seq<Seq<char>>>) -> Option<
    (Seq<Seq<char>>, int),
>
    decreases s.len() - k,
{
    let m = spec_ws_end(s, k);
    if k <= m < s.len() {
        if s[m] == '}' {
            match found {
                None => None,
                Some(ts) => Some((ts, m + 1)),
            }
        } else if s[m] == ',' {
            let j = spec_ws_end(s, m + 1);
            if m + 1 <= j <= s.len() {
                match spec_top_member(s, j, found) {
                    None => None,
                    Some((f2, k2)) => if j < k2 <= s.len() {
                        spec_top_more(s, k2, f2)
                    } else {
                        None
                    },
                }
            } else {
                None
            }
        } else {
            None
        }
    } else {
        None
    }
}

/// The whole reply: one JSON object with surrounding whitespace only, read
/// to the texts of its choices; `None` if it is malformed.
pub open spec fn spec_response(s: Seq<char>) -> Option<Seq<Seq<char>>> {
    let j = spec_ws_end(s, 0);
    if 0 <= j < s.len() && s[j] == '{' {
        let j1 = spec_ws_end(s, j + 1);
        if j + 1 <= j1 <= s.len() {
            if j1 < s.len() && s[j1] == '}' {
                None
            } else {
                match spec_top_member(s, j1, None) {
                    None => None,
                    Some((f, k)) => if j1 < k <= s.len() {
                        match spec_top_more(s, k, f) {
                            None => None,
                            Some((ts, e)) => if spec_ws_end(s, e) == s.len() {
                                Some(ts)
                            } else {
                                None
                            },
                        }
                    } else {
                        None
                    },
                }
            }
        } else {
            None
        }
    } else {
        None
    }
}

/// The contents of an optional decoded string.
pub open spec fn chars_opt_view(o: Option<Vec<char>>) -> Option<Seq<char>> {
    match o {
        None => None,
        Some(v) => Some(v@),
    }
}

/// The contents of a list of decoded strings.
pub open spec fn texts_view(ts: Seq<Vec<char>>) -> Seq<Seq<char>> {
    Seq::new(ts.len(), |i: int| ts[i]@)
}

/// The contents of an optional list of decoded strings.
pub open spec fn texts_opt_view(o: Option<Vec<Vec<char>>>) -> Option<Seq<Seq<char>>> {
    match o {
        None => None,
        Some(v) => Some(texts_view(v@)),
    }
}

/// Does this decoded key spell `text`?
pub fn is_text_key(key: &Vec<char>) -> (r: bool)
    ensures
        r == (key@ == "text"@),
{
    proof {
        reveal_strlit("text");
    }
    let r = key.len() == 4 && key[0] == 't' && key[1] == 'e' && key[2] == 'x' && key[3] == 't';
    proof {
        if r {
            assert(key@ =~= "text"@);
        }
    }
    r
}

/// Does this decoded key spell `choices`?
pub fn is_choices_key(key: &Vec<char>) -> (r: bool)
    ensures
        r == (key@ == "choices"@),
{
    proof {
        reveal_strlit("choices");
    }
    let r = key.len() == 7 && key[0] == 'c' && key[1] == 'h' && key[2] == 'o' && key[3] == 'i'
        && key[4] == 'c' && key[5] == 'e' && key[6] == 's';
    proof {
        if r {
            assert(key@ =~= "choices"@);
        }
    }
    r
}

/// The reader and the escaper of this crate agree: a reply holding one
/// choice whose text is the escaped spelling of any text `t` reads back to
/// exactly `t`. In particular a completion service that echoes a prompt
/// back, escaped as the request body escapes it, is read without loss.
pub proof fn lemma_reply_round_trip(t: Seq<char>)
    ensures
        spec_response(
            "{\"choices\":[{\"text\":\""@ + crate::request::spec_escaped(t) + "\"}]}"@,
        ) == Some(seq![t]),
{
    let a = "{\"choices\":[{\"text\":\""@;
    let b = "\"}]}"@;
    let esc = crate::request::spec_escaped(t);
    let l = esc.len() as int;
    let s = a + esc + b;
    reveal_strlit("{\"choices\":[{\"text\":\"");
    reveal_strlit("\"}]}");
    reveal_strlit("choices");
    reveal_strlit("text");
    let n = s.len() as int;
    assert(n == 25 + l);
    assert forall|k: int| 0 <= k < 21 implies s[k] == a[k] by {
        assert((a + esc)[k] == a[k]);
        assert(s[k] == (a + esc)[k]);
    }
    assert forall|k: int| 0 <= k < 4 implies s[21 + l + k] == b[k] by {
        assert(s[21 + l + k] == b[k]);
    }
    assert(s.subrange(21, 21 + l) =~= esc) by {
        assert forall|m: int| 0 <= m < l implies s.subrange(21, 21 + l)[m] == esc[m] by {
            assert((a + esc)[21 + m] == esc[m]);
            assert(s[21 + m] == (a + esc)[21 + m]);
        }
    }
    // nothing in the frame is whitespace, so every whitespace scan stays put
    assert(spec_ws_end(s, 0) == 0);
    assert(spec_ws_end(s, 1) == 1);
    assert(spec_ws_end(s, 10) == 10);
    assert(spec_ws_end(s, 11) == 11);
    assert(spec_ws_end(s, 12) == 12);
    assert(spec_ws_end(s, 13) == 13);
    assert(spec_ws_end(s, 19) == 19);
    assert(spec_ws_end(s, 20) == 20);
    assert(spec_ws_end(s, 22 + l) == 22 + l);
    assert(spec_ws_end(s, 23 + l) == 23 + l);
    assert(spec_ws_end(s, 24 + l) == 24 + l);
    assert(spec_ws_end(s, n) == n);
    // the key "choices", one character at a time
    let key = "choices"@;
    assert(spec_string_chars(s, 9) == Some((key.skip(7), 10int))) by {
        assert(key.skip(7) =~= Seq::<char>::empty());
    }
    assert(spec_string_chars(s, 8) == Some((key.skip(6), 10int))) by {
        assert(seq![s[8]] + key.skip(7) =~= key.skip(6));
    }
    assert(spec_string_chars(s, 7) == Some((key.skip(5), 10int))) by {
        assert(seq![s[7]] + key.skip(6) =~= key.skip(5));
    }
    assert(spec_string_chars(s, 6) == Some((key.skip(4), 10int))) by {
        assert(seq![s[6]] + key.skip(5) =~= key.skip(4));
    }
    assert(spec_string_chars(s, 5) == Some((key.skip(3), 10int))) by {
        assert(seq![s[5]] + key.skip(4) =~= key.skip(3));
    }
    assert(spec_string_chars(s, 4) == Some((key.skip(2), 10int))) by {
        assert(seq![s[4]] + key.skip(3) =~= key.skip(2));
    }
    assert(spec_string_chars(s, 3) == Some((key.skip(1), 10int))) by {
        assert(seq![s[3]] + key.skip(2) =~= key.skip(1));
    }
    assert(spec_string_chars(s, 2) == Some((key, 10int))) by {
        assert(seq![s[2]] + key.skip(1) =~= key);
    }
    // the key "text", the same way
    let key2 = "text"@;
    assert(spec_string_chars(s, 18) == Some((key2.skip(4), 19int))) by {
        assert(key2.skip(4) =~= Seq::<char>::empty());
    }
    assert(spec_string_chars(s, 17) == Some((key2.skip(3), 19int))) by {
        assert(seq![s[17]] + key2.skip(4) =~= key2.skip(3));
    }
    assert(spec_string_chars(s, 16) == Some((key2.skip(2), 19int))) by {
        assert(seq![s[16]] + key2.skip(3) =~= key2.skip(2));
    }
    assert(spec_string_chars(s, 15) == Some((key2.skip(1), 19int))) by {
        assert(seq![s[15]] + key2.skip(2) =~= key2.skip(1));
    }
    assert(spec_string_chars(s, 14) == Some((key2, 19int))) by {
        assert(seq![s[14]] + key2.skip(1) =~= key2);
    }
    // the choice's text is the escaped spelling of t
    crate::request::lemma_escaped_string_parses(s, 21, t);
    assert(spec_string_chars(s, 21) == Some((t, 22 + l)));
    // the structure around them, inside out
    assert(spec_choice_member(s, 13, None) == Some((Some(t), 22 + l)));
    assert(spec_choice_obj_more(s, 22 + l, Some(t)) == Some((t, 23 + l)));
    assert(spec_choice_rest(s, 13) == Some((t, 23 + l)));
    assert(spec_choices_more(s, 23 + l) == Some((Seq::<Seq<char>>::empty(), 24 + l)));
    assert(spec_choices_rest(s, 12) == Some((seq![t], 24 + l))) by {
        assert(seq![t] + Seq::<Seq<char>>::empty() =~= seq![t]);
    }
    assert(spec_top_member(s, 1, None) == Some((Some(seq![t]), 24 + l)));
    assert(spec_top_more(s, 24 + l, Some(seq![t])) == Some((seq![t], 25 + l)));
    assert(spec_response(s) == Some(seq![t]));
}

/// Reader for one member of a choice object.
pub fn choice_member(s: &Vec<char>, j: usize, found: Option<Vec<char>>) -> (r: Option<
    (Option<Vec<char>>, usize),
>)
    requires
        j <= s@.len(),
    ensures
        r is None <==> spec_choice_member(s@, j as int, chars_opt_view(found)) is None,
        r matches Some((f2, e)) ==> (spec_choice_member(s@, j as int, chars_opt_view(found))
            matches Some(p) && p.0 == chars_opt_view(f2) && p.1 == e as int && j < e <= s@.len()),
{
    let n = s.len();
    if j >= n || s[j] != '"' {
        return None;
    }
    match string_chars(s, j + 1) {
        None => None,
        Some((key, ke)) => {
            let c1 = ws_end(s, ke);
            if c1 < n && s[c1] == ':' {
                let j2 = ws_end(s, c1 + 1);
                if is_text_key(&key) {
                    if found.is_some() {
                        None
                    } else if j2 < n && s[j2] == '"' {
                        match string_chars(s, j2 + 1) {
                            None => None,
                            Some((txt, k)) => Some((Some(txt), k)),
                        }
                    } else {
                        None
                    }
                } else {
                    match value_end(s, j2) {
                        None => None,
                        Some(k) => Some((found, k)),
                    }
                }
            } else {
                None
            }
        },
    }
}

/// Reader for a choice object continued after a member ending at `k`.
pub fn choice_obj_more(s: &Vec<char>, k: usize, found: Option<Vec<char>>) -> (r: Option<
    (Vec<char>, usize),
>)
    requires
        k <= s@.len(),
    ensures
        r is None <==> spec_choice_obj_more(s@, k as int, chars_opt_view(found)) is None,
        r matches Some((t, e)) ==> (spec_choice_obj_more(s@, k as int, chars_opt_view(found))
            matches Some(p) && p.0 == t@ && p.1 == e as int && k < e <= s@.len()),
    decreases s@.len() - k,
{
    let n = s.len();
    let m = ws_end(s, k);
    if m >= n {
        return None;
    }
    if s[m] == '}' {
        match found {
            None => None,
            Some(t) => Some((t, m + 1)),
        }
    } else if s[m] == ',' {
        let j = ws_end(s, m + 1);
        match choice_member(s, j, found) {
            None => None,
            Some((f2, k2)) => choice_obj_more(s, k2, f2),
        }
    } else {
        None
    }
}

/// Reader for a choice object, just after its `{`.
pub fn choice_rest(s: &Vec<char>, i: usize) -> (r: Option<(Vec<char>, usize)>)
    requires
        i <= s@.len(),
    ensures
        r is None <==> spec_choice_rest(s@, i as int) is None,
        r matches Some((t, e)) ==> (spec_choice_rest(s@, i as int) matches Some(p) && p.0 == t@
            && p.1 == e as int && i < e <= s@.len()),
{
    let n = s.len();
    let j = ws_end(s, i);
    if j < n && s[j] == '}' {
        return None;
    }
    match choice_member(s, j, None) {
        None => None,
        Some((f, k)) => choice_obj_more(s, k, f),
    }
}

/// Reader for the `"choices"` array continued after an element ending at
/// `k`.
pub fn choices_more(s: &Vec<char>, k: usize) -> (r: Option<(Vec<Vec<char>>, usize)>)
    requires
        k <= s@.len(),
    ensures
        r is None <==> spec_choices_more(s@, k as int) is None,
        r matches Some((ts, e)) ==> (spec_choices_more(s@, k as int) matches Some(p) && p.0
            == texts_view(ts@) && p.1 == e as int && k < e <= s@.len()),
    decreases s@.len() - k,
{
    let n = s.len();
    let m = ws_end(s, k);
    if m >= n {
        return None;
    }
    if s[m] == ']' {
        let empty: Vec<Vec<char>> = Vec::new();
        proof {
            assert(texts_view(empty@) =~= Seq::<Seq<char>>::empty());
        }
        Some((empty, m + 1))
    } else if s[m] == ',' {
        let j = ws_end(s, m + 1);
        if j < n && s[j] == '{' {
            match choice_rest(s, j + 1) {
                None => None,
                Some((t, k2)) => {
                    match choices_more(s, k2) {
                        None => None,
                        Some((mut ts, e)) => {
                            let ghost ts0 = ts@;
                            let ghost tv = t@;
                            ts.insert(0, t);
                            proof {
                                let p = spec_choices_more(s@, k as int).unwrap();
                                assert(texts_view(ts@) =~= seq![tv] + texts_view(ts0));
                                assert(texts_view(ts@) =~= p.0);
                            }
                            Some((ts, e))
                        },
                    }
                },
            }
        } else {
            None
        }
    } else {
        None
    }
}

/// Reader for the `"choices"` array, just after its `[`.
pub fn choices_rest(s: &Vec<char>, i: usize) -> (r: Option<(Vec<Vec<char>>, usize)>)
    requires
        i <= s@.len(),
    ensures
        r is None <==> spec_choices_rest(s@, i as int) is None,
        r matches Some((ts, e)) ==> (spec_choices_rest(s@, i as int) matches Some(p) && p.0
            == texts_view(ts@) && p.1 == e as int && i < e <= s@.len()),
{
    let n = s.len();
    let j = ws_end(s, i);
    if j >= n {
        return None;
    }
    if s[j] == ']' {
        let empty: Vec<Vec<char>> = Vec::new();
        proof {
            assert(texts_view(empty@) =~= Seq::<Seq<char>>::empty());
        }
        Some((empty, j + 1))
    } else if s[j] == '{' {
        match choice_rest(s, j + 1) {
            None => None,
            Some((t, k)) => {
                match choices_more(s, k) {
                    None => None,
                    Some((mut ts, e)) => {
                        let ghost ts0 = ts@;
                        let ghost tv = t@;
                        ts.insert(0, t);
                        proof {
                            let p = spec_choices_rest(s@, i as int).unwrap();
                            assert(texts_view(ts@) =~= seq![tv] + texts_view(ts0));
                            assert(texts_view(ts@) =~= p.0);
                        }
                        Some((ts, e))
                    },
                }
            },
        }
    } else {
        None
    }
}

/// Reader for one member of the top-level object.
pub fn top_member(s: &Vec<char>, j: usize, found: Option<Vec<Vec<char>>>) -> (r: Option<
    (Option<Vec<Vec<char>>>, usize),
>)
    requires
        j <= s@.len(),
    ensures
        r is None <==> spec_top_member(s@, j as int, texts_opt_view(found)) is None,
        r matches Some((f2, e)) ==> (spec_top_member(s@, j as int, texts_opt_view(found))
            matches Some(p) && p.0 == texts_opt_view(f2) && p.1 == e as int && j < e <= s@.len()),
{
    let n = s.len();
    if j >= n || s[j] != '"' {
        return None;
    }
    match string_chars(s, j + 1) {
        None => None,
        Some((key, ke)) => {
            let c1 = ws_end(s, ke);
            if c1 < n && s[c1] == ':' {
                let j2 = ws_end(s, c1 + 1);
                if is_choices_key(&key) {
                    if found.is_some() {
                        None
                    } else if j2 < n && s[j2] == '[' {
                        match choices_rest(s, j2 + 1) {
                            None => None,
                            Some((ts, k)) => Some((Some(ts), k)),
                        }
                    } else {
                        None
                    }
                } else {
                    match value_end(s, j2) {
                        None => None,
                        Some(k) => Some((found, k)),
                    }
                }
            } else {
                None
            }
        },
    }
}

/// Reader for the top-level object continued after a member ending at `k`.
pub fn top_more(s: &Vec<char>, k: usize, found: Option<Vec<Vec<char>>>) -> (r: Option<
    (Vec<Vec<char>>, usize),
>)
    requires
        k <= s@.len(),
    ensures
        r is None <==> spec_top_more(s@, k as int, texts_opt_view(found)) is None,
        r matches Some((ts, e)) ==> (spec_top_more(s@, k as int, texts_opt_view(found))
            matches Some(p) && p.0 == texts_view(ts@) && p.1 == e as int && k < e <= s@.len()),
    decreases s@.len() - k,
{
    let n = s.len();
    let m = ws_end(s, k);
    if m >= n {
        return None;
    }
    if s[m] == '}' {
        match found {
            None => None,
            Some(ts) => Some((ts, m + 1)),
        }
    } else if s[m] == ',' {
        let j = ws_end(s, m + 1);
        match top_member(s, j, found) {
            None => None,
            Some((f2, k2)) => top_more(s, k2, f2),
        }
    } else {
        None
    }
}

/// Read a whole reply to the texts of its choices; `None` if malformed.
pub fn response_texts(s: &Vec<char>) -> (r: Option<Vec<Vec<char>>>)
    ensures
        r is None <==> spec_response(s@) is None,
        r matches Some(ts) ==> (spec_response(s@) matches Some(sts) && sts == texts_view(ts@)),
{
    let n = s.len();
    let j = ws_end(s, 0);
    if j >= n || s[j] != '{' {
        return None;
    }
    let j1 = ws_end(s, j + 1);
    if j1 < n && s[j1] == '}' {
        return None;
    }
    match top_member(s, j1, None) {
        None => None,
        Some((f, k)) => {
            match top_more(s, k, f) {
                None => None,
                Some((ts, e)) => {
                    if ws_end(s, e) == n {
                        Some(ts)
                    } else {
                        None
                    }
                },
            }
        },
    }
}

} // verus!
