//! Intake of the `Authorization` header and the fail-soft replies of the
//! authenticated variant of the service.
//!
//! A missing header and an unknown credential are expected outcomes: both
//! turn into a fixed, human-readable reply body rather than an error.

use vstd::prelude::*;

verus! {

/// Reply sent when the request carries no `Authorization` header.
pub open spec fn auth_missing_msg() -> Seq<char> {
    "Auth token has not been set. Try logging in."@
}

/// Reply sent when the credential matches no user record.
pub open spec fn user_not_found_msg() -> Seq<char> {
    "User not found! Try logging in again."@
}

/// The credential carried by an `Authorization` header value: the text after
/// one literal `"Bearer "` prefix, stripped exactly once; a value without
/// that prefix is taken whole.
pub open spec fn spec_strip_bearer(h: Seq<char>) -> Seq<char> {
    if h.len() >= 7 && h.subrange(0, 7) == "Bearer "@ {
        h.subrange(7, h.len() as int)
    } else {
        h
    }
}

/// Strip one leading `"Bearer "` from a header value to obtain the opaque
/// credential.
pub fn strip_bearer(header: &str) -> (r: String)
    ensures
        r@ == spec_strip_bearer(header@),
{
    proof {
        reveal_strlit("Bearer ");
    }
    let n = header.unicode_len();
    if n < 7 {
        return header.to_owned();
    }
    let prefix = "Bearer ";
    for i in 0..7
        invariant
            n == header@.len(),
            n >= 7,
            prefix@ == "Bearer "@,
            forall|k: int| 0 <= k < i ==> header@[k] == "Bearer "@[k],
    {
        proof {
            reveal_strlit("Bearer ");
        }
        if header.get_char(i) != prefix.get_char(i) {
            return header.to_owned();
        }
    }
    proof {
        assert(header@.subrange(0, 7) =~= "Bearer "@);
    }
    let rest = header.substring_char(7, n);
    rest.to_owned()
}

/// What the handler does once it has looked at the `Authorization` header:
/// either reply at once, or look the credential up in the user store.
pub enum AuthStep {
    /// Answer the request directly with this body.
    Reply(String),
    /// Ask the user store whether this credential names a user.
    Lookup(String),
}

/// Decide on the `Authorization` header: absent means an immediate fixed
/// reply, present means a lookup of the stripped credential.
pub fn check_auth(header: Option<&str>) -> (r: AuthStep)
    ensures
        header is None ==> (r matches AuthStep::Reply(m) && m@ == auth_missing_msg()),
        header matches Some(h) ==> (r matches AuthStep::Lookup(c) && c@ == spec_strip_bearer(
            h@,
        )),
{
    match header {
        None => AuthStep::Reply("Auth token has not been set. Try logging in.".to_owned()),
        Some(h) => AuthStep::Lookup(strip_bearer(h)),
    }
}

/// Decide on the user store's answer: an unknown credential gets the fixed
/// not-found reply, a known one lets the request proceed.
pub fn user_lookup_reply(found: bool) -> (r: Option<String>)
    ensures
        found ==> r is None,
        !found ==> (r matches Some(m) && m@ == user_not_found_msg()),
{
    if found {
        None
    } else {
        Some("User not found! Try logging in again.".to_owned())
    }
}

} // verus!
