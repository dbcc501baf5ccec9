//! Conversions between owned strings and character vectors.
//!
//! The scanners and builders of this crate work on `Vec<char>`, whose
//! contents Verus reasons about directly; the service's interface hands
//! strings around. These two conversions carry text across, exactly.

use vstd::prelude::*;

verus! {

/// Relies on `String::push` of std: it appends exactly the one character.
#[verifier::external_body]
fn push_char(s: &mut String, c: char)
    ensures
        final(s)@ == old(s)@.push(c),
{
    s.push(c);
}

/// The characters of a string, in order.
pub fn str_to_chars(s: &str) -> (r: Vec<char>)
    ensures
        r@ == s@,
{
    let n = s.unicode_len();
    let mut r: Vec<char> = Vec::new();
    for i in 0..n
        invariant
            n == s@.len(),
            r@ =~= s@.subrange(0, i as int),
    {
        r.push(s.get_char(i));
    }
    proof {
        assert(r@ =~= s@);
    }
    r
}

/// The string spelling these characters, in order.
pub fn chars_to_string(v: &Vec<char>) -> (r: String)
    ensures
        r@ == v@,
{
    let mut r = String::new();
    let n = v.len();
    for i in 0..n
        invariant
            n == v@.len(),
            r@ =~= v@.subrange(0, i as int),
    {
        push_char(&mut r, v[i]);
    }
    proof {
        assert(r@ =~= v@);
    }
    r
}

} // verus!
