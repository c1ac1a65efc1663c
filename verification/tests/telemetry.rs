use gated_proxy::chat::{
    ChatCompletionMessage, ChatCompletionsChunkChoices, ChatCompletionsChunkDelta,
    ChatCompletionsMessage, ChatCompletionsRequest,
};
use gated_proxy::haywire::HaywireDetector;
use gated_proxy::telemetry::{RequestNotFound, Telemetry, TelemetryRequest};

fn chat(model: &str) -> ChatCompletionsRequest {
    ChatCompletionsRequest {
        model: model.to_string(),
        messages: vec![ChatCompletionMessage {
            role: "user".to_string(),
            content: "hello".to_string(),
        }],
    }
}

fn delta(reasoning: Option<&str>, content: Option<&str>) -> ChatCompletionsChunkChoices {
    ChatCompletionsChunkChoices {
        delta: Some(ChatCompletionsChunkDelta {
            reasoning_content: reasoning.map(|text| text.to_string()),
            content: content.map(|text| text.to_string()),
        }),
        message: None,
    }
}

fn message(content: Option<&str>) -> ChatCompletionsChunkChoices {
    ChatCompletionsChunkChoices {
        delta: None,
        message: Some(ChatCompletionsMessage {
            content: content.map(|text| text.to_string()),
        }),
    }
}

#[test]
fn requests_are_numbered_from_zero() {
    let mut telemetry = Telemetry::new();
    assert_eq!(telemetry.next_id, 0);
    assert!(telemetry.requests.is_empty());
    telemetry.new_request(chat("a"), 100);
    telemetry.new_request(chat("b"), 101);
    assert_eq!(telemetry.next_id, 2);
    assert_eq!(telemetry.find(0).unwrap().read().unwrap().cc_request.model, "a");
    assert_eq!(telemetry.find(1).unwrap().read().unwrap().cc_request.model, "b");
}

#[test]
fn fresh_record_is_empty() {
    let mut telemetry = Telemetry::new();
    let request = telemetry.new_request(chat("m"), 77);
    let record = request.read().unwrap();
    assert_eq!(record.cc_request.model, "m");
    assert_eq!(record.cc_request.messages[0].role, "user");
    assert_eq!(record.cc_request.messages[0].content, "hello");
    assert_eq!(record.reasoning, "");
    assert_eq!(record.content, "");
    assert_eq!(record.timestamp, 77);
    assert!(!record.haywire_detected);
}

#[test]
fn record_is_shared_with_its_handler() {
    let mut telemetry = Telemetry::new();
    let request = telemetry.new_request(chat("m"), 0);
    request.write().unwrap().content = "changed".to_string();
    assert_eq!(telemetry.find(0).unwrap().read().unwrap().content, "changed");
}

#[test]
fn unknown_number_is_not_found() {
    let telemetry = Telemetry::new();
    assert!(matches!(telemetry.find(0), Err(RequestNotFound)));
    assert_eq!(RequestNotFound.message(), "No request with such ID exists");
}

#[test]
fn cleanup_drops_what_is_over_an_hour_old() {
    let mut telemetry = Telemetry::new();
    telemetry.new_request(chat("old"), 1000);
    telemetry.new_request(chat("new"), 1001);
    telemetry.new_request(chat("future"), 999_999);
    telemetry.cleanup(1000 + 3600);
    assert_eq!(telemetry.requests.len(), 3);
    telemetry.cleanup(1000 + 3601);
    assert!(telemetry.find(0).is_err());
    assert!(telemetry.find(1).is_ok());
    assert!(telemetry.find(2).is_ok());
    telemetry.cleanup(1000 + 3601);
    assert_eq!(telemetry.requests.len(), 2);
    assert_eq!(telemetry.next_id, 3);
}

#[test]
fn cleanup_goes_by_the_time_of_the_last_response() {
    let mut telemetry = Telemetry::new();
    let request = telemetry.new_request(chat("m"), 0);
    request.write().unwrap().process_cc_response(None, "m", "h", 1, 5000, &[]);
    telemetry.cleanup(8600);
    assert!(telemetry.find(0).is_ok());
    telemetry.cleanup(8601);
    assert!(telemetry.find(0).is_err());
    // The handler keeps its record.
    assert_eq!(request.read().unwrap().timestamp, 5000);
}

#[test]
fn numbers_are_not_reused_after_a_cleanup() {
    let mut telemetry = Telemetry::new();
    telemetry.new_request(chat("a"), 0);
    telemetry.cleanup(10_000);
    assert!(telemetry.requests.is_empty());
    telemetry.new_request(chat("b"), 10_000);
    assert!(telemetry.find(0).is_err());
    assert!(telemetry.find(1).is_ok());
}

#[test]
fn given_stamps_decide_what_is_dropped() {
    let mut telemetry = Telemetry::new();
    telemetry.new_request(chat("a"), 0);
    telemetry.new_request(chat("b"), 0);
    telemetry.drop_expired(4000, &vec![(0, 399), (1, 400), (9, 0)]);
    assert!(telemetry.find(0).is_err());
    assert!(telemetry.find(1).is_ok());
}

#[test]
fn texts_are_appended_in_order() {
    let mut record = TelemetryRequest::begin(chat("m"), 1);
    let both = ChatCompletionsChunkChoices {
        delta: Some(ChatCompletionsChunkDelta {
            reasoning_content: Some("r1".to_string()),
            content: Some("c1".to_string()),
        }),
        message: Some(ChatCompletionsMessage { content: Some("m1".to_string()) }),
    };
    let unload = record.process_cc_response(
        None,
        "m",
        "h",
        1,
        9,
        &[both, delta(Some("r2"), None), message(Some("m2")), delta(None, None), message(None)],
    );
    assert!(unload.is_none());
    assert_eq!(record.reasoning, "r1r2");
    assert_eq!(record.content, "c1m1m2");
    assert_eq!(record.timestamp, 9);
    assert_eq!(record.cc_request.model, "m");
    assert!(!record.haywire_detected);
}

#[test]
fn haywire_content_has_the_model_unloaded_once() {
    let detector = HaywireDetector::new(4);
    let mut record = TelemetryRequest::begin(chat("m"), 0);
    let calm = record.process_cc_response(Some(&detector), "m", "h", 8, 1, &[delta(None, Some("aa"))]);
    assert!(calm.is_none());
    assert!(!record.haywire_detected);
    let unload = record
        .process_cc_response(Some(&detector), "m", "h", 8, 2, &[delta(None, Some("aa"))])
        .unwrap();
    assert_eq!(unload.url, "http://h:8/models/unload");
    assert_eq!(unload.model, "m");
    assert!(record.haywire_detected);
    let again = record.process_cc_response(Some(&detector), "m", "h", 8, 3, &[delta(None, Some("aaaa"))]);
    assert!(again.is_none());
    assert!(record.haywire_detected);
}

#[test]
fn haywire_reasoning_counts_too() {
    let detector = HaywireDetector::new(3);
    let mut record = TelemetryRequest::begin(chat("m"), 0);
    let unload = record.process_cc_response(Some(&detector), "m", "h", 8, 1, &[delta(Some("..."), None)]);
    assert!(unload.is_some());
}

#[test]
fn without_a_detector_nothing_is_haywire() {
    let mut record = TelemetryRequest::begin(chat("m"), 0);
    let text = "!".repeat(1000);
    let unload = record.process_cc_response(None, "m", "h", 8, 1, &[message(Some(&text))]);
    assert!(unload.is_none());
    assert!(!record.haywire_detected);
}

#[test]
fn chunks_add_up_to_the_whole() {
    let detector = HaywireDetector::new(5);
    let mut parts = TelemetryRequest::begin(chat("m"), 0);
    parts.process_cc_response(Some(&detector), "m", "h", 8, 1, &[delta(Some("r"), Some("xxx"))]);
    parts.process_cc_response(Some(&detector), "m", "h", 8, 2, &[delta(None, Some("xx"))]);
    let mut whole = TelemetryRequest::begin(chat("m"), 0);
    whole.process_cc_response(
        Some(&detector),
        "m",
        "h",
        8,
        2,
        &[delta(Some("r"), Some("xxx")), delta(None, Some("xx"))],
    );
    assert_eq!(parts.content, whole.content);
    assert_eq!(parts.reasoning, whole.reasoning);
    assert_eq!(parts.timestamp, whole.timestamp);
    assert!(parts.haywire_detected && whole.haywire_detected);
}
