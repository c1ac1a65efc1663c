use gated_proxy::chat::{
    ChatCompletionsChunk, ChatCompletionsChunkChoices, ChatCompletionsChunkDelta,
    ChatCompletionsRequest,
};
use gated_proxy::config::{idle_limits, Config};
use gated_proxy::proxy::{dispatch, is_streaming, refusal, relay, Dispatch, Relay, Session};
use gated_proxy::telemetry::Telemetry;

fn settings(detection: bool) -> Config {
    Config {
        host: "0.0.0.0".to_string(),
        port: 80,
        target_host: "server".to_string(),
        target_port: 8080,
        gpu: "card".to_string(),
        load_average_window: 3,
        model_loaded_grace: 60,
        haywire_detection_enabled: detection,
        haywire_char_repeats: 5,
        idle_unload_timeouts: idle_limits(vec![]),
        default_unload_timeout: None,
    }
}

fn chat() -> ChatCompletionsRequest {
    ChatCompletionsRequest { model: "m".to_string(), messages: vec![] }
}

fn chunk(created: u64, content: &str) -> ChatCompletionsChunk {
    ChatCompletionsChunk {
        choices: vec![ChatCompletionsChunkChoices {
            delta: Some(ChatCompletionsChunkDelta {
                reasoning_content: None,
                content: Some(content.to_string()),
            }),
            message: None,
        }],
        created,
    }
}

fn session(relay: Relay) -> Session {
    match relay {
        Relay::Events(session) | Relay::Whole(session) => session,
        Relay::PassThrough => panic!("not watched"),
    }
}

#[test]
fn refused_request_is_told_to_come_back() {
    match dispatch(&settings(false), "/x", Some(false)) {
        Dispatch::Refuse(refusal) => {
            assert_eq!(refusal.status, 503);
            assert_eq!(refusal.retry_after, "120");
            assert_eq!(refusal.message, "Resource load too high, try again later");
            assert_eq!(refusal.error_type, "rate_limit_error");
            assert_eq!(refusal.code, "resource_exhausted");
        }
        Dispatch::Forward(_) => panic!("not refused"),
    }
    assert_eq!(refusal().status, 503);
}

#[test]
fn allowed_request_is_forwarded() {
    match dispatch(&settings(false), "/v1/models?a=b", Some(true)) {
        Dispatch::Forward(call) => {
            assert_eq!(call.url, "http://server:8080/v1/models?a=b");
            assert_eq!(call.timeout_secs, 3600);
        }
        Dispatch::Refuse(_) => panic!("refused"),
    }
}

#[test]
fn proxy_fails_open() {
    assert!(matches!(dispatch(&settings(false), "/", None), Dispatch::Forward(_)));
}

#[test]
fn event_streams_are_known_by_their_content_type() {
    assert!(is_streaming(Some("text/event-stream")));
    assert!(is_streaming(Some("text/event-stream; charset=utf-8")));
    assert!(!is_streaming(Some("application/json")));
    assert!(!is_streaming(Some("Text/Event-Stream")));
    assert!(!is_streaming(None));
}

#[test]
fn other_requests_pass_through() {
    let mut telemetry = Telemetry::new();
    let how = relay(&settings(true), &mut telemetry, None, Some("text/event-stream"), 5);
    assert!(matches!(how, Relay::PassThrough));
    assert_eq!(telemetry.next_id, 0);
    assert!(telemetry.requests.is_empty());
}

#[test]
fn chat_completions_are_watched() {
    let mut telemetry = Telemetry::new();
    let how = relay(&settings(true), &mut telemetry, Some(chat()), Some("text/event-stream"), 5);
    assert!(matches!(how, Relay::Events(_)));
    let first = session(how);
    assert_eq!(first.model_name, "m");
    assert_eq!(first.target_host, "server");
    assert_eq!(first.target_port, 8080);
    assert_eq!(first.haywire_detector.as_ref().unwrap().char_repeats, 5);
    assert_eq!(first.record.read().unwrap().timestamp, 5);
    let how = relay(&settings(false), &mut telemetry, Some(chat()), Some("application/json"), 6);
    assert!(matches!(how, Relay::Whole(_)));
    assert!(session(how).haywire_detector.is_none());
    assert_eq!(telemetry.next_id, 2);
    assert!(telemetry.find(0).is_ok() && telemetry.find(1).is_ok());
}

#[test]
fn absorbed_chunks_show_in_the_registry() {
    let mut telemetry = Telemetry::new();
    let watched = session(relay(&settings(true), &mut telemetry, Some(chat()), None, 0));
    let unload = watched.absorb(
        &mut watched.record.write().unwrap(),
        &vec![chunk(7, "one "), chunk(8, "two")],
    );
    assert!(unload.is_none());
    let found = telemetry.find(0).unwrap();
    assert_eq!(found.read().unwrap().content, "one two");
    assert_eq!(found.read().unwrap().timestamp, 8);
}

#[test]
fn haywire_session_unloads_its_model_once() {
    let mut telemetry = Telemetry::new();
    let watched = session(relay(&settings(true), &mut telemetry, Some(chat()), None, 0));
    let unload = watched
        .absorb(
            &mut watched.record.write().unwrap(),
            &vec![chunk(1, "///"), chunk(2, "//"), chunk(3, "/////")],
        )
        .unwrap();
    assert_eq!(unload.url, "http://server:8080/models/unload");
    assert_eq!(unload.model, "m");
    let again = watched.absorb(&mut watched.record.write().unwrap(), &vec![chunk(4, "/////")]);
    assert!(again.is_none());
    assert!(telemetry.find(0).unwrap().read().unwrap().haywire_detected);
}

#[test]
fn no_chunks_change_nothing() {
    let mut telemetry = Telemetry::new();
    let watched = session(relay(&settings(true), &mut telemetry, Some(chat()), None, 3));
    assert!(watched.absorb(&mut watched.record.write().unwrap(), &vec![]).is_none());
    assert_eq!(watched.record.read().unwrap().timestamp, 3);
    assert_eq!(watched.record.read().unwrap().content, "");
}
