use apkg_deck::diag::{register_log_callback, rust_log, LogEntry, LogSink};

#[test]
fn log_without_subscriber_is_dropped() {
    let mut sink = LogSink::new();
    rust_log(&mut sink, "nobody listens");
    assert_eq!(sink.subscriber, None);
    assert!(sink.pending.is_empty());
}

#[test]
fn log_is_queued_for_the_subscriber() {
    let mut sink = LogSink::new();
    register_log_callback(&mut sink, 1);
    rust_log(&mut sink, "one");
    rust_log(&mut sink, "two");
    assert_eq!(
        sink.pending,
        vec![
            LogEntry { subscriber: 1, message: "one".to_string() },
            LogEntry { subscriber: 1, message: "two".to_string() },
        ]
    );
}

#[test]
fn later_registration_replaces_earlier_one() {
    let mut sink = LogSink::new();
    register_log_callback(&mut sink, 1);
    rust_log(&mut sink, "for the first");
    register_log_callback(&mut sink, 2);
    rust_log(&mut sink, "for the second");
    assert_eq!(sink.subscriber, Some(2));
    let out = sink.drain();
    assert_eq!(
        out,
        vec![
            LogEntry { subscriber: 1, message: "for the first".to_string() },
            LogEntry { subscriber: 2, message: "for the second".to_string() },
        ]
    );
    assert!(sink.pending.is_empty());
    assert_eq!(sink.subscriber, Some(2));
}
