use gated_proxy::endpoint::{address_of, forward, list_models, list_slots, unload_model};
use gated_proxy::text::{chars_of, contains, decimal_of};

#[test]
fn addresses() {
    assert_eq!(address_of("localhost", 8080, "/x"), "http://localhost:8080/x");
    assert_eq!(address_of("h", 0, ""), "http://h:0");
    assert_eq!(address_of("h", 65535, "/"), "http://h:65535/");
}

#[test]
fn models_are_listed_from_the_api() {
    let call = list_models("10.0.0.2", 9090);
    assert_eq!(call.url, "http://10.0.0.2:9090/v1/models");
    assert_eq!(call.timeout_secs, 3600);
}

#[test]
fn slots_are_listed_by_model() {
    let call = list_slots("h", 80, "org/model a");
    assert_eq!(call.url, "http://h:80/slots?model=org/model a");
    assert_eq!(call.timeout_secs, 3600);
}

#[test]
fn requests_are_forwarded_with_their_uri() {
    let call = forward("h", 81, "/v1/chat/completions?x=1");
    assert_eq!(call.url, "http://h:81/v1/chat/completions?x=1");
    assert_eq!(call.timeout_secs, 3600);
}

#[test]
fn unload_names_the_model() {
    let call = unload_model("h", 8081, "m");
    assert_eq!(call.url, "http://h:8081/models/unload");
    assert_eq!(call.timeout_secs, 30);
    assert_eq!(call.content_type, "application/json");
    assert_eq!(call.model, "m");
}

#[test]
fn decimals_match_the_standard_ones() {
    for number in 0..=u16::MAX {
        assert_eq!(decimal_of(number), number.to_string());
    }
}

#[test]
fn substrings() {
    assert!(contains("text/event-stream; charset=utf-8", "text/event-stream"));
    assert!(contains("abc", ""));
    assert!(contains("", ""));
    assert!(contains("abc", "bc"));
    assert!(!contains("abc", "cb"));
    assert!(!contains("ab", "abc"));
    assert!(contains("aab", "ab"));
    assert!(contains("\u{20ac}uro", "uro"));
}

#[test]
fn characters_are_copied() {
    assert_eq!(chars_of("a\u{20ac}"), vec!['a', '\u{20ac}']);
    assert!(chars_of("").is_empty());
}
