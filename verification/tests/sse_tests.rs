use mho::sse::{Message, PollRead, ValidationError};

fn text(bytes: Vec<u8>) -> String {
    String::from_utf8(bytes).unwrap()
}

#[test]
fn framing_round_trip() {
    let builder = Message::build()
        .event("reload".to_string())
        .unwrap()
        .id("1".to_string())
        .unwrap()
        .data("changed".to_string());
    let message: Message = builder.into();
    let bytes = message.serialize();
    assert_eq!(bytes, b"event: reload\nid: 1\ndata: changed\n\n".to_vec());

    // Decode the record again: three field lines, then the blank line that
    // terminates the record.
    let decoded = text(bytes);
    let lines: Vec<&str> = decoded.split('\n').collect();
    assert_eq!(lines, vec!["event: reload", "id: 1", "data: changed", "", ""]);
}

#[test]
fn data_only_message() {
    let bytes = Message::data("ping".to_string()).serialize();
    assert_eq!(bytes, b"data: ping\n\n".to_vec());
}

#[test]
fn multi_line_payload_splits_into_data_lines() {
    let bytes = Message::data("one\ntwo\nthree".to_string()).serialize();
    assert_eq!(bytes, b"data: one\ndata: two\ndata: three\n\n".to_vec());
}

#[test]
fn crlf_terminators_are_stripped() {
    let bytes = Message::data("one\r\ntwo".to_string()).serialize();
    assert_eq!(bytes, b"data: one\ndata: two\n\n".to_vec());
}

#[test]
fn lone_carriage_return_stays_in_the_line() {
    let bytes = Message::data("one\rtwo".to_string()).serialize();
    assert_eq!(bytes, b"data: one\rtwo\n\n".to_vec());
}

#[test]
fn trailing_newline_adds_no_empty_line() {
    let bytes = Message::data("one\n".to_string()).serialize();
    assert_eq!(bytes, b"data: one\n\n".to_vec());
}

#[test]
fn empty_payload_gives_a_bare_record() {
    let bytes = Message::data(String::new()).serialize();
    assert_eq!(bytes, b"\n".to_vec());
}

#[test]
fn retry_takes_no_part_in_the_framing() {
    let builder = Message::build().data("x".to_string()).retry(2500);
    let message: Message = builder.into();
    assert_eq!(message.serialize(), b"data: x\n\n".to_vec());
}

#[test]
fn empty_message_serializes_to_the_terminator() {
    let message: Message = Message::build().into();
    assert_eq!(message.serialize(), b"\n".to_vec());
}

#[test]
fn newline_in_event_is_refused() {
    let result = Message::build().event("re\nload".to_string());
    assert!(result.is_err());
    assert_eq!(result.err().unwrap(), ValidationError::EventContainsNewline);
}

#[test]
fn carriage_return_in_event_is_refused() {
    let result = Message::build().event("re\rload".to_string());
    assert_eq!(result.err().unwrap(), ValidationError::EventContainsNewline);
}

#[test]
fn newline_in_id_is_refused() {
    let result = Message::build().id("1\n2".to_string());
    assert!(result.is_err());
    assert_eq!(result.err().unwrap(), ValidationError::IdContainsNewline);
}

#[test]
fn validation_failure_produces_no_output() {
    // The builder is consumed by the failed construction: no message and
    // no bytes come out of it, only the error.
    match Message::build().event("bad\nname".to_string()) {
        Err(e) => assert_eq!(e, ValidationError::EventContainsNewline),
        Ok(_) => panic!("a field with a newline must be refused"),
    }
}

#[test]
fn stream_headers_match_the_event_stream_contract() {
    let headers = mho::sse::stream_headers();
    assert_eq!(headers.len(), 3);
    assert_eq!(headers[0].0, "Content-Type");
    assert_eq!(headers[0].1, "text/event-stream");
    assert_eq!(headers[1].0, "Cache-Control");
    assert_eq!(headers[1].1, "no-cache");
    assert_eq!(headers[2].0, "Expires");
    assert_eq!(headers[2].1, "0");
}

#[test]
fn poll_read_reports_zero_capacity_with_empty_bytes() {
    let mut hub = mho::events::ChangeBroadcaster::create();
    let client = hub.new_client();
    let mut source = mho::sse::EventSource::from_stream(client);
    match source.poll_read(&mut hub, 0) {
        PollRead::Bytes(b) => assert!(b.is_empty()),
        _ => panic!("zero capacity must yield an empty chunk"),
    }
}
