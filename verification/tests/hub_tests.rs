use mho::events::{ChangeBroadcaster, ChangeEvent, ChangeKind, Notification, PollNext};
use mho::sse::{EventSource, PollRead};

fn change(path: &str) -> ChangeEvent {
    ChangeEvent { kind: ChangeKind::Modified, path: path.to_string() }
}

fn next_item(hub: &mut ChangeBroadcaster, client: &mho::events::Client) -> Notification {
    match client.poll_next(hub) {
        PollNext::Ready(n) => n,
        PollNext::Pending => panic!("expected a pending notification"),
        PollNext::Closed => panic!("subscription is gone"),
    }
}

fn item_path(n: Notification) -> String {
    match n {
        Notification::Change(e) => e.path,
        Notification::Heartbeat => panic!("expected a change, got a heartbeat"),
    }
}

#[test]
fn ordering_is_publish_order_for_an_undropped_subscription() {
    let mut hub = ChangeBroadcaster::create();
    let client = hub.new_client();
    hub.send(&change("/a.js"));
    hub.send(&change("/b.js"));
    hub.send(&change("/c.js"));
    assert_eq!(item_path(next_item(&mut hub, &client)), "/a.js");
    assert_eq!(item_path(next_item(&mut hub, &client)), "/b.js");
    assert_eq!(item_path(next_item(&mut hub, &client)), "/c.js");
    assert!(matches!(client.poll_next(&mut hub), PollNext::Pending));
}

#[test]
fn a_full_queue_drops_for_that_subscriber_alone() {
    let mut hub = ChangeBroadcaster::create();
    let slow = hub.new_client();
    let fast = hub.new_client();

    // Fill both queues to capacity, then drain only the fast consumer.
    for i in 0..100 {
        hub.send(&change(&format!("/f{}.js", i)));
    }
    for i in 0..100 {
        assert_eq!(item_path(next_item(&mut hub, &fast)), format!("/f{}.js", i));
    }
    assert!(matches!(fast.poll_next(&mut hub), PollNext::Pending));

    // The slow consumer's queue is full: this publish is dropped for it,
    // and still delivered, undelayed, to the fast consumer.
    hub.send(&change("/fresh.js"));
    assert_eq!(item_path(next_item(&mut hub, &fast)), "/fresh.js");
    assert_eq!(item_path(next_item(&mut hub, &slow)), "/f0.js");
    assert_eq!(hub.client_count(), 2);
}

#[test]
fn sweep_prunes_a_dropped_consumer() {
    let mut hub = ChangeBroadcaster::create();
    let staying = hub.new_client();
    let leaving = hub.new_client();
    assert_eq!(hub.client_count(), 2);
    assert_eq!(hub.issued_ids(), 2);

    leaving.disconnect(&mut hub);
    assert_eq!(hub.client_count(), 2, "removal happens at the sweep, not at the disconnect");

    hub.sweep();
    assert_eq!(hub.client_count(), 1, "membership shrinks by exactly one");

    // The survivor got the heartbeat; the leaver's handle now reports the
    // end of the stream.
    match next_item(&mut hub, &staying) {
        Notification::Heartbeat => {},
        Notification::Change(_) => panic!("expected the sweep heartbeat"),
    }
    assert!(matches!(leaving.poll_next(&mut hub), PollNext::Closed));
}

#[test]
fn heartbeat_serializes_as_data_ping() {
    let bytes = Notification::Heartbeat.to_message().serialize();
    assert_eq!(bytes, b"data: ping\n\n".to_vec());
}

#[test]
fn change_record_names_its_kind_and_path() {
    let n = Notification::Change(ChangeEvent {
        kind: ChangeKind::Created,
        path: "/new.js".to_string(),
    });
    assert_eq!(n.to_message().serialize(), b"event: created\ndata: /new.js\n\n".to_vec());
}

#[test]
fn end_to_end_three_subscribers() {
    let mut hub = ChangeBroadcaster::create();
    assert_eq!(hub.client_count(), 0);

    let mut one = EventSource::from_stream(hub.new_client());
    let mut two = EventSource::from_stream(hub.new_client());
    let mut three = EventSource::from_stream(hub.new_client());
    assert_eq!(hub.client_count(), 3);

    hub.send(&change("/app.js"));

    let mut records: Vec<Vec<u8>> = Vec::new();
    records.push(read_record(&mut one, &mut hub));
    records.push(read_record(&mut two, &mut hub));
    records.push(read_record(&mut three, &mut hub));
    assert_eq!(records[0], records[1]);
    assert_eq!(records[1], records[2]);
    let text = String::from_utf8(records[0].clone()).unwrap();
    assert!(text.contains("/app.js"));

    // Close subscriber two's consumer, publish again: one and three still
    // receive the event, and the next sweep removes two from membership.
    two.disconnect(&mut hub);
    hub.send(&change("/app.js"));
    let r1 = read_record(&mut one, &mut hub);
    let r3 = read_record(&mut three, &mut hub);
    assert!(String::from_utf8(r1).unwrap().contains("/app.js"));
    assert!(String::from_utf8(r3).unwrap().contains("/app.js"));
    assert_eq!(hub.client_count(), 3);
    hub.sweep();
    assert_eq!(hub.client_count(), 2);
}

fn read_record(source: &mut EventSource, hub: &mut ChangeBroadcaster) -> Vec<u8> {
    match source.poll_read(hub, 4096) {
        PollRead::Bytes(b) => b,
        _ => panic!("expected bytes"),
    }
}

#[test]
fn poll_read_respects_the_callers_capacity() {
    let mut hub = ChangeBroadcaster::create();
    let mut source = EventSource::from_stream(hub.new_client());
    hub.send(&change("/x"));

    // "event: modified\ndata: /x\n\n" is 26 bytes; pull it 10 at a time.
    let mut collected: Vec<u8> = Vec::new();
    loop {
        match source.poll_read(&mut hub, 10) {
            PollRead::Bytes(b) => {
                assert!(b.len() <= 10);
                assert!(!b.is_empty());
                collected.extend(b);
            },
            PollRead::Pending => break,
            PollRead::Eof => panic!("stream must stay open"),
        }
    }
    assert_eq!(collected, b"event: modified\ndata: /x\n\n".to_vec());
}

#[test]
fn poll_read_reports_pending_on_an_idle_queue() {
    let mut hub = ChangeBroadcaster::create();
    let mut source = EventSource::from_stream(hub.new_client());
    assert!(matches!(source.poll_read(&mut hub, 64), PollRead::Pending));
}

#[test]
fn poll_read_ends_the_stream_after_pruning() {
    let mut hub = ChangeBroadcaster::create();
    let client = hub.new_client();
    let mut source = EventSource::from_stream(client);

    // Fill the queue so the sweep's heartbeat does not fit, with nothing
    // drained: the sweep prunes the subscription.
    for i in 0..100 {
        hub.send(&change(&format!("/f{}.js", i)));
    }
    hub.sweep();
    assert_eq!(hub.client_count(), 0);
    assert!(matches!(source.poll_read(&mut hub, 64), PollRead::Eof));
    assert!(matches!(source.poll_read(&mut hub, 64), PollRead::Eof));
}
