use completion_relay::handler::completion_result;
use completion_relay::handler::CompletionError;
use completion_relay::response::response_texts;

fn chars(s: &str) -> Vec<char> {
    s.chars().collect()
}

fn texts(s: &str) -> Option<Vec<String>> {
    response_texts(&chars(s)).map(|ts| ts.into_iter().map(|t| t.into_iter().collect()).collect())
}

#[test]
fn minimal_reply() {
    assert_eq!(texts("{\"choices\":[{\"text\":\"hello\"}]}"), Some(vec!["hello".to_string()]));
}

#[test]
fn reply_with_whitespace() {
    let raw = " {\n  \"choices\" : [ { \"text\" : \"hi\" } ]\n}\t";
    assert_eq!(texts(raw), Some(vec!["hi".to_string()]));
}

#[test]
fn realistic_reply_with_extra_members() {
    let raw = "{\"id\":\"cmpl-1\",\"object\":\"text_completion\",\"created\":1589478378,\
               \"model\":\"text-davinci-002\",\
               \"choices\":[{\"text\":\" done\",\"index\":0,\"logprobs\":null,\"finish_reason\":\"length\"}],\
               \"usage\":{\"prompt_tokens\":5,\"completion_tokens\":7,\"total_tokens\":12}}";
    assert_eq!(texts(raw), Some(vec![" done".to_string()]));
}

#[test]
fn several_choices_in_order() {
    let raw = "{\"choices\":[{\"text\":\"a\"},{\"index\":1,\"text\":\"b\"},{\"text\":\"c\"}]}";
    assert_eq!(texts(raw), Some(vec!["a".to_string(), "b".to_string(), "c".to_string()]));
    assert_eq!(completion_result(200, Some(raw)), Ok("a".to_string()));
}

#[test]
fn escapes_in_text_are_decoded() {
    let raw = "{\"choices\":[{\"text\":\"a\\\"b\\\\c\\/d\\b\\f\\n\\r\\te\"}]}";
    assert_eq!(texts(raw), Some(vec!["a\"b\\c/d\u{8}\u{c}\n\r\te".to_string()]));
}

#[test]
fn unicode_escapes_are_decoded() {
    let raw = "{\"choices\":[{\"text\":\"caf\\u00e9 \\u0041\"}]}";
    assert_eq!(texts(raw), Some(vec!["café A".to_string()]));
}

#[test]
fn surrogate_pair_escapes_are_decoded() {
    let raw = "{\"choices\":[{\"text\":\"\\ud83d\\ude00\"}]}";
    assert_eq!(texts(raw), Some(vec!["\u{1f600}".to_string()]));
}

#[test]
fn lone_surrogate_is_malformed() {
    assert_eq!(texts("{\"choices\":[{\"text\":\"\\ud83d\"}]}"), None);
}

#[test]
fn raw_unicode_text_passes_through() {
    let raw = "{\"choices\":[{\"text\":\"日本語 été\"}]}";
    assert_eq!(texts(raw), Some(vec!["日本語 été".to_string()]));
}

#[test]
fn malformed_bodies_are_rejected() {
    for raw in [
        "",
        "   ",
        "null",
        "[]",
        "{\"choices\":[{\"text\":\"a\"}]",
        "{\"choices\":[{\"text\":\"a\"}]} trailing",
        "{\"choices\":[{\"text\":\"a\"},]}",
        "{\"choices\":{}}",
        "{\"choices\":[\"a\"]}",
        "{\"choices\":[{\"text\":1}]}",
        "{\"choices\":[{}]}",
        "{\"choices\":[{\"index\":0}]}",
        "{\"choices\":[{\"text\":\"a\",\"text\":\"b\"}]}",
        "{\"choices\":[],\"choices\":[]}",
        "{}",
        "{\"id\":\"x\"}",
        "{\"choices\":[{\"text\":\"a\"}],}",
        "{\"choices\":[{\"text\":\"unterminated}]}",
        "{\"choices\":[{\"text\":\"bad\\escape\"}]}",
        "{\"choices\":[{\"text\":\"ctrl\u{1}\"}]}",
        "{\"choices\" [{\"text\":\"a\"}]}",
        "not json at all",
    ] {
        assert_eq!(texts(raw), None, "accepted: {raw}");
        assert_eq!(completion_result(200, Some(raw)), Err(CompletionError::MalformedBody));
    }
}

#[test]
fn skipped_members_must_still_be_well_formed() {
    assert_eq!(texts("{\"usage\":{\"a\":1,},\"choices\":[{\"text\":\"x\"}]}"), None);
    assert_eq!(texts("{\"usage\":01,\"choices\":[{\"text\":\"x\"}]}"), None);
    assert_eq!(texts("{\"usage\":truth,\"choices\":[{\"text\":\"x\"}]}"), None);
}

#[test]
fn skipped_members_cover_every_value_kind() {
    let raw = "{\"a\":null,\"b\":true,\"c\":false,\"d\":-12.5e+3,\"e\":0,\"f\":[1,[2,{}],\"s\"],\
               \"g\":{\"h\":{\"i\":[]}},\"choices\":[{\"text\":\"deep\"}]}";
    assert_eq!(texts(raw), Some(vec!["deep".to_string()]));
}

#[test]
fn skipped_numbers_follow_the_json_grammar() {
    for good in [
        "{\"n\":0,\"choices\":[]}",
        "{\"n\":-0,\"choices\":[]}",
        "{\"n\":1e5,\"choices\":[]}",
        "{\"n\":-0.5e-2,\"choices\":[]}",
        "{\"n\":10.25E+3,\"choices\":[]}",
        "{\"n\":1589478378,\"choices\":[]}",
    ] {
        assert_eq!(texts(good), Some(vec![]), "rejected: {good}");
    }
    for bad in [
        "{\"n\":01,\"choices\":[]}",
        "{\"n\":1.,\"choices\":[]}",
        "{\"n\":.5,\"choices\":[]}",
        "{\"n\":+1,\"choices\":[]}",
        "{\"n\":-,\"choices\":[]}",
        "{\"n\":1e,\"choices\":[]}",
        "{\"n\":1e+,\"choices\":[]}",
    ] {
        assert_eq!(texts(bad), None, "accepted: {bad}");
    }
}

#[test]
fn empty_choices_is_distinguished() {
    assert_eq!(texts("{\"choices\":[]}"), Some(vec![]));
    assert_eq!(texts("{\"id\":\"x\",\"choices\":[ ]}"), Some(vec![]));
}
