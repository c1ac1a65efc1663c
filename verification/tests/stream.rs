use gated_proxy::stream::{triage, EventReader, Halt, Item, Triage};

#[test]
fn messages_become_payloads() {
    let mut reader = EventReader::new();
    let batch = reader.feed(b"data: one\n\ndata: two\n\n");
    assert_eq!(batch.payloads, vec!["one".to_string(), "two".to_string()]);
    assert_eq!(batch.halt, None);
}

#[test]
fn message_in_pieces_comes_when_complete() {
    let mut reader = EventReader::new();
    assert!(reader.feed(b"da").payloads.is_empty());
    assert!(reader.feed(b"ta: {\"a\"").payloads.is_empty());
    assert!(reader.feed(b":1}\n").payloads.is_empty());
    let batch = reader.feed(b"\ndata: x");
    assert_eq!(batch.payloads, vec!["{\"a\":1}".to_string()]);
    assert_eq!(reader.feed(b"\n\n").payloads, vec!["x".to_string()]);
}

#[test]
fn closing_message_ends_the_piece() {
    let mut reader = EventReader::new();
    let batch = reader.feed(b"data: a\n\ndata: [DONE]\n\ndata: b\n\n");
    assert_eq!(batch.payloads, vec!["a".to_string()]);
    assert_eq!(batch.halt, Some(Halt::Closed));
    let batch = reader.feed(b"data: c\n\n");
    assert_eq!(batch.payloads, vec!["b".to_string(), "c".to_string()]);
    assert_eq!(batch.halt, None);
}

const BODY: &[u8] = b"\xef\xbb\xbf: hello\n\ndata: one\r\n\r\nevent: e\ndata:two\ndata\ndata: lines\n\n\
    id: 7\rdata: \xc3\xa4\xff\r\rdat: no\ndata: last\n\ndata: open";

fn payloads_of(pieces: &[&[u8]]) -> Vec<String> {
    let mut reader = EventReader::new();
    let mut payloads = Vec::new();
    for piece in pieces {
        let batch = reader.feed(piece);
        assert_eq!(batch.halt, None);
        payloads.extend(batch.payloads);
    }
    payloads
}

#[test]
fn cuts_between_pieces_make_no_difference() {
    let whole = payloads_of(&[BODY]);
    assert_eq!(whole, vec!["one", "two\n\nlines", "\u{e4}\u{fffd}", "last"]);
    let single: Vec<&[u8]> = BODY.chunks(1).collect();
    assert_eq!(payloads_of(&single), whole);
    for first in 0..=BODY.len() {
        assert_eq!(payloads_of(&[&BODY[..first], &BODY[first..]]), whole);
        for second in first..=BODY.len() {
            let pieces = [&BODY[..first], &BODY[first..second], &BODY[second..]];
            assert_eq!(payloads_of(&pieces), whole);
        }
    }
}

#[test]
fn reading_stops_at_the_same_item_wherever_the_cut_is() {
    let body = b"data: a\n\nretry: 42\ndata: b\n\n";
    for cut in 0..18 {
        let mut reader = EventReader::new();
        let first = reader.feed(&body[..cut]);
        assert_eq!(first.halt, None);
        let second = reader.feed(&body[cut..]);
        assert_eq!(second.halt, Some(Halt::Unexpected(42)));
        assert_eq!([first.payloads, second.payloads].concat(), vec!["a".to_string()]);
        assert_eq!(reader.feed(b"").payloads, vec!["b".to_string()]);
    }
}

#[test]
fn oversized_event_stops_in_pieces_too() {
    let mut body = b"data: a\n\ndata: ".to_vec();
    body.extend(vec![b'x'; 512 * 1024 + 1]);
    for cut in [9, 15, 16, 1000, 512 * 1024] {
        let mut reader = EventReader::new();
        let first = reader.feed(&body[..cut]);
        assert_eq!(first.payloads, vec!["a".to_string()]);
        assert_eq!(first.halt, None);
        let second = reader.feed(&body[cut..]);
        assert!(second.payloads.is_empty());
        assert_eq!(second.halt, Some(Halt::TooLarge));
        let third = reader.feed(b"\n\ndata: b\n\n");
        assert_eq!(third.payloads, vec!["b".to_string()]);
        assert_eq!(third.halt, None);
    }
}

#[test]
fn retry_stops_and_leaves_the_rest_for_later() {
    let mut reader = EventReader::new();
    let batch = reader.feed(b"data: a\n\nretry: 42\ndata: b\n\n");
    assert_eq!(batch.payloads, vec!["a".to_string()]);
    assert_eq!(batch.halt, Some(Halt::Unexpected(42)));
    let batch = reader.feed(b"data: c\n\n");
    assert_eq!(batch.payloads, vec!["b".to_string(), "c".to_string()]);
    assert_eq!(batch.halt, None);
}

#[test]
fn oversized_event_stops_and_is_dropped() {
    let mut reader = EventReader::new();
    let mut bytes = b"data: a\n\ndata: ".to_vec();
    bytes.extend(vec![b'x'; 512 * 1024 + 1]);
    bytes.extend(b"\n\ndata: b\n\n");
    let batch = reader.feed(&bytes);
    assert_eq!(batch.payloads, vec!["a".to_string()]);
    assert_eq!(batch.halt, Some(Halt::TooLarge));
    let batch = reader.feed(b"");
    assert_eq!(batch.payloads, vec!["b".to_string()]);
    assert_eq!(batch.halt, None);
}

#[test]
fn nothing_comes_of_nothing() {
    let mut reader = EventReader::new();
    let batch = reader.feed(b"");
    assert!(batch.payloads.is_empty());
    assert_eq!(batch.halt, None);
    let batch = reader.feed(b": keepalive\n\n");
    assert!(batch.payloads.is_empty());
    assert_eq!(batch.halt, None);
}

#[test]
fn readers_do_not_share_anything() {
    let mut first = EventReader::new();
    let mut second = EventReader::new();
    assert!(first.feed(b"data: a\n").payloads.is_empty());
    assert!(second.feed(b"\n").payloads.is_empty());
    assert_eq!(first.feed(b"\n").payloads, vec!["a".to_string()]);
}

#[test]
fn items_are_sorted() {
    assert!(matches!(triage(Item::Message("[DONE]".to_string())), Triage::Stop(Halt::Closed)));
    assert!(matches!(triage(Item::Message("[DONE] ".to_string())), Triage::Payload(p) if p == "[DONE] "));
    assert!(matches!(triage(Item::Message(String::new())), Triage::Payload(p) if p.is_empty()));
    assert!(matches!(triage(Item::Retry(7)), Triage::Stop(Halt::Unexpected(7))));
    assert!(matches!(triage(Item::TooLarge), Triage::Stop(Halt::TooLarge)));
}
