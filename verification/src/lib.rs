//! A verified core for a small prompt-relay web service.
//!
//! The service takes a caller-supplied prompt, optionally checks a bearer
//! credential against a user store, forwards the prompt to an external
//! text-completion API over HTTPS, and relays the first completion back.
//! Everything the service decides or computes on plain values lives here,
//! verified: bearer-credential intake, construction of the JSON request
//! body (with a verified JSON string escaper), parsing of the JSON reply,
//! and the per-request decision steps. The unverified binary around this
//! library performs the actual network and database calls and feeds their
//! results back in as plain values.

pub mod auth;
pub mod handler;
pub mod json;
pub mod request;
pub mod response;
pub mod text;
