use completion_relay::auth::check_auth;
use completion_relay::auth::strip_bearer;
use completion_relay::auth::user_lookup_reply;
use completion_relay::auth::AuthStep;
use completion_relay::handler::api_reply;
use completion_relay::handler::completion_result;
use completion_relay::handler::greeting;
use completion_relay::handler::soft_reply;
use completion_relay::handler::ApiOutcome;
use completion_relay::handler::CompletionError;
use completion_relay::request::bearer_header;
use completion_relay::request::completion_request_body;
use completion_relay::request::completions_url;

const GENERIC_FAILURE: &str = "The completion service failed. Try again later.";

fn body_prefix() -> String {
    "{\"model\":\"text-davinci-002\",\"prompt\":\"".to_string()
}

fn body_suffix() -> String {
    "\",\"max_tokens\":50,\"temperature\":0.6,\"top_p\":1.0,\"frequency_penalty\":0.5,\"presence_penalty\":0.5,\"echo\":false}".to_string()
}

#[test]
fn request_body_empty_prompt() {
    let body = completion_request_body("");
    let expected = body_prefix() + "Finish the Following: " + &body_suffix();
    assert_eq!(body, expected);
}

#[test]
fn request_body_plain_prompt() {
    let body = completion_request_body("tell me a story");
    let expected = body_prefix() + "Finish the Following: tell me a story" + &body_suffix();
    assert_eq!(body, expected);
}

#[test]
fn request_body_escapes_specials() {
    let body = completion_request_body("he said \"hi\"\\\n");
    let expected =
        body_prefix() + "Finish the Following: he said \\\"hi\\\"\\\\\\n" + &body_suffix();
    assert_eq!(body, expected);
}

#[test]
fn request_body_escapes_control_chars() {
    let body = completion_request_body("a\u{1}b\u{1f}\tc");
    let expected = body_prefix() + "Finish the Following: a\\u0001b\\u001f\\tc" + &body_suffix();
    assert_eq!(body, expected);
}

#[test]
fn request_body_keeps_unicode_verbatim() {
    let body = completion_request_body("école 日本");
    let expected = body_prefix() + "Finish the Following: école 日本" + &body_suffix();
    assert_eq!(body, expected);
}

#[test]
fn handler_returns_first_choice_text() {
    let r = completion_result(200, Some("{\"choices\":[{\"text\":\"hello\"}]}"));
    assert_eq!(r, Ok("hello".to_string()));
}

#[test]
fn handler_reply_for_mocked_completion() {
    let out = ApiOutcome::Replied(200, Some("{\"choices\":[{\"text\":\"hello\"}]}".to_string()));
    let reply = api_reply(out);
    assert_eq!(reply.status, 200);
    assert_eq!(reply.body, "hello");
}

#[test]
fn empty_choices_is_a_defined_error() {
    let r = completion_result(200, Some("{\"choices\":[]}"));
    assert_eq!(r, Err(CompletionError::NoChoices));
    let reply = api_reply(ApiOutcome::Replied(200, Some("{\"choices\":[]}".to_string())));
    assert_eq!(reply.status, 500);
    assert_eq!(reply.body, GENERIC_FAILURE);
}

#[test]
fn missing_auth_header_gets_fixed_reply() {
    match check_auth(None) {
        AuthStep::Reply(m) => {
            let reply = soft_reply(m);
            assert_eq!(reply.status, 200);
            assert_eq!(reply.body, "Auth token has not been set. Try logging in.");
        }
        AuthStep::Lookup(_) => panic!("expected an immediate reply"),
    }
}

#[test]
fn unknown_user_gets_fixed_reply() {
    let m = user_lookup_reply(false).expect("an unknown credential must be answered");
    let reply = soft_reply(m);
    assert_eq!(reply.status, 200);
    assert_eq!(reply.body, "User not found! Try logging in again.");
}

#[test]
fn known_user_proceeds() {
    assert!(user_lookup_reply(true).is_none());
}

#[test]
fn bearer_prefix_stripped_exactly_once() {
    assert_eq!(strip_bearer("Bearer abc123"), "abc123");
    assert_eq!(strip_bearer("Bearer Bearer x"), "Bearer x");
    assert_eq!(strip_bearer("abc123"), "abc123");
    assert_eq!(strip_bearer(""), "");
    assert_eq!(strip_bearer("Bearer "), "");
    assert_eq!(strip_bearer("Bearer"), "Bearer");
}

#[test]
fn check_auth_hands_credential_to_lookup() {
    match check_auth(Some("Bearer abc123")) {
        AuthStep::Lookup(c) => assert_eq!(c, "abc123"),
        AuthStep::Reply(_) => panic!("expected a lookup"),
    }
}

#[test]
fn unreachable_service_gets_generic_server_error() {
    let reply = api_reply(ApiOutcome::Unreachable);
    assert_eq!(reply.status, 500);
    assert_eq!(reply.body, GENERIC_FAILURE);
    assert!(!reply.body.to_lowercase().contains("connection"));
}

#[test]
fn same_outcome_decides_same_reply() {
    let raw = "{\"choices\":[{\"text\":\"twice\"}]}";
    let first = completion_result(200, Some(raw));
    let second = completion_result(200, Some(raw));
    assert_eq!(first, second);
    assert_eq!(first, Ok("twice".to_string()));
}

#[test]
fn greeting_is_fixed() {
    assert_eq!(greeting(), "Epic AI Magic");
}

#[test]
fn outbound_configuration_is_fixed() {
    assert_eq!(completions_url(), "https://api.openai.com/v1/completions");
    assert_eq!(bearer_header("k-123"), "Bearer k-123");
    assert_eq!(bearer_header(""), "Bearer ");
}

#[test]
fn bad_status_is_an_error() {
    let r = completion_result(404, Some("{\"choices\":[{\"text\":\"hello\"}]}"));
    assert_eq!(r, Err(CompletionError::BadStatus));
    let r = completion_result(500, Some("{\"choices\":[{\"text\":\"hello\"}]}"));
    assert_eq!(r, Err(CompletionError::BadStatus));
    let r = completion_result(204, Some("{\"choices\":[{\"text\":\"ok\"}]}"));
    assert_eq!(r, Ok("ok".to_string()));
}

#[test]
fn untextual_body_is_malformed() {
    let r = completion_result(200, None);
    assert_eq!(r, Err(CompletionError::MalformedBody));
}
