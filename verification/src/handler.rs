//! The per-request decisions around the completion call.
//!
//! The service answers expected validation failures (a missing header, an
//! unknown credential) with a success status and an explanatory body, and
//! answers operational failures of the completion call (unreachable service,
//! bad status, malformed reply, no choices) with a server-error status and
//! one fixed, generic body that carries no internal detail. The surrounding
//! binary only moves bytes: every one of these decisions is taken here.

use vstd::prelude::*;

use crate::response::spec_response;
use crate::response::response_texts;
use crate::text::chars_to_string;
use crate::text::str_to_chars;

verus! {

/// Success status of every fail-soft reply.
pub const STATUS_OK: u16 = 200;

/// Status of every reply for an operational failure.
pub const STATUS_SERVER_ERROR: u16 = 500;

/// Why a completion call yielded no text.
#[derive(Clone, Copy, Debug, PartialEq, Eq, Structural)]
pub enum CompletionError {
    /// The service answered with a status outside the success range.
    BadStatus,
    /// The reply body was not the expected JSON shape (or not text at all).
    MalformedBody,
    /// The reply was well-formed but offered no choices.
    NoChoices,
}

/// An HTTP reply: what the service sends back for one request.
pub struct HttpReply {
    pub status: u16,
    pub body: String,
}

/// What the binary observed of the completion call.
pub enum ApiOutcome {
    /// The call itself failed: connection, TLS, or reading the body.
    Unreachable,
    /// The call answered with this status, and this body text (`None` when
    /// the body was not valid text).
    Replied(u16, Option<String>),
}

/// The body text of an answered call, as a sequence of characters.
pub open spec fn body_view(b: Option<String>) -> Option<Seq<char>> {
    match b {
        None => None,
        Some(s) => Some(s@),
    }
}

/// The fixed body of every server-error reply: generic, with no internal
/// error text.
pub open spec fn server_error_msg() -> Seq<char> {
    "The completion service failed. Try again later."@
}

/// The greeting served on the root path.
pub open spec fn greeting_msg() -> Seq<char> {
    "Epic AI Magic"@
}

/// What an answered completion call yields: the first choice's text, or the
/// error that stops it. Success exactly when the status is in the success
/// range, the body is the expected JSON shape, and at least one choice is
/// offered.
pub open spec fn spec_completion_result(status: u16, body: Option<Seq<char>>) -> Result<
    Seq<char>,
    CompletionError,
> {
    if !(200 <= status && status < 300) {
        Err(CompletionError::BadStatus)
    } else {
        match body {
            None => Err(CompletionError::MalformedBody),
            Some(s) => match spec_response(s) {
                None => Err(CompletionError::MalformedBody),
                Some(ts) => if ts.len() == 0 {
                    Err(CompletionError::NoChoices)
                } else {
                    Ok(ts[0])
                },
            },
        }
    }
}

/// Decide what an answered completion call yields.
pub fn completion_result(status: u16, body: Option<&str>) -> (r: Result<String, CompletionError>)
    ensures
        r matches Ok(t) ==> (spec_completion_result(
            status,
            match body {
                None => None,
                Some(b) => Some(b@),
            },
        ) matches Ok(st) && t@ == st),
        r matches Err(e) ==> spec_completion_result(
            status,
            match body {
                None => None,
                Some(b) => Some(b@),
            },
        ) == Err::<Seq<char>, CompletionError>(e),
{
    if status < 200 || status >= 300 {
        return Err(CompletionError::BadStatus);
    }
    match body {
        None => Err(CompletionError::MalformedBody),
        Some(b) => {
            let cs = str_to_chars(b);
            match response_texts(&cs) {
                None => Err(CompletionError::MalformedBody),
                Some(ts) => {
                    if ts.len() == 0 {
                        Err(CompletionError::NoChoices)
                    } else {
                        Ok(chars_to_string(&ts[0]))
                    }
                },
            }
        },
    }
}

/// Decide the reply for the outcome of the completion call: the first
/// choice's text with a success status, or the one generic server-error
/// reply.
pub fn api_reply(outcome: ApiOutcome) -> (r: HttpReply)
    ensures
        outcome is Unreachable ==> (r.status == STATUS_SERVER_ERROR && r.body@
            == server_error_msg()),
        outcome matches ApiOutcome::Replied(st, b) ==> match spec_completion_result(
            st,
            body_view(b),
        ) {
            Ok(t) => r.status == STATUS_OK && r.body@ == t,
            Err(_) => r.status == STATUS_SERVER_ERROR && r.body@ == server_error_msg(),
        },
{
    match outcome {
        ApiOutcome::Unreachable => HttpReply {
            status: STATUS_SERVER_ERROR,
            body: "The completion service failed. Try again later.".to_owned(),
        },
        ApiOutcome::Replied(st, b) => {
            let body = match &b {
                None => None,
                Some(s) => Some(s.as_str()),
            };
            match completion_result(st, body) {
                Ok(t) => HttpReply { status: STATUS_OK, body: t },
                Err(_) => HttpReply {
                    status: STATUS_SERVER_ERROR,
                    body: "The completion service failed. Try again later.".to_owned(),
                },
            }
        },
    }
}

/// The fail-soft reply for an expected validation failure: a success status
/// with the explanatory body.
pub fn soft_reply(m: String) -> (r: HttpReply)
    ensures
        r.status == STATUS_OK,
        r.body@ == m@,
{
    HttpReply { status: STATUS_OK, body: m }
}

/// The fixed greeting reply for the root path.
pub fn greeting() -> (r: String)
    ensures
        r@ == greeting_msg(),
{
    "Epic AI Magic".to_owned()
}

/// A successful reply holding one choice whose text is the escaped spelling
/// of any text `t` decides exactly `Ok(t)`: the handler relays a completion
/// without loss, whatever characters it holds.
pub proof fn lemma_completion_round_trip(t: Seq<char>)
    ensures
        spec_completion_result(
            200,
            Some("{\"choices\":[{\"text\":\""@ + crate::request::spec_escaped(t) + "\"}]}"@),
        ) == Ok::<Seq<char>, CompletionError>(t),
{
    crate::response::lemma_reply_round_trip(t);
}

/// The reply is a function of the call's observable outcome alone: two
/// calls that answer with the same status and body text decide the same
/// result, so repeating a prompt against an unchanged completion service
/// repeats the response.
pub proof fn lemma_reply_idempotent(
    status1: u16,
    body1: Option<Seq<char>>,
    status2: u16,
    body2: Option<Seq<char>>,
)
    requires
        status1 == status2,
        body1 == body2,
    ensures
        spec_completion_result(status1, body1) == spec_completion_result(status2, body2),
{
}

} // verus!
