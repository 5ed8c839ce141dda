use connect4::stream::{busy_event, forward, message_event, EventStream, StreamStep};

#[test]
fn a_busy_visitor_is_told_once() {
    let mut stream = EventStream::for_busy();
    assert!(matches!(stream.poll_next(), StreamStep::Emit(_)));
    for _ in 0..3 {
        assert!(matches!(stream.poll_next(), StreamStep::Wait));
    }
}

#[test]
fn a_player_gets_what_comes_from_the_table() {
    let mut stream = EventStream::for_player();
    for _ in 0..3 {
        assert!(matches!(stream.poll_next(), StreamStep::Forward));
    }
}

#[test]
fn the_busy_event_says_when_to_try_again() {
    let shown = format!("{:?}", busy_event());
    let expected = r#"retry: 30000\ndata: {\"phase\":\"busy\"}\n"#;
    assert!(shown.contains(expected), "{shown}");
}

#[test]
fn a_message_is_the_data_of_its_event() {
    let shown = format!("{:?}", message_event("{}"));
    assert!(shown.contains(r#""data: {}\n""#), "{shown}");
    let blank = format!("{:?}", message_event(""));
    assert!(!blank.contains("data"), "{blank}");
}

#[test]
fn the_stream_ends_with_the_channel() {
    assert!(forward(None).is_none());
    let shown = format!("{:?}", forward(Some("hello".to_string())).unwrap());
    assert!(shown.contains("data: hello"), "{shown}");
}
