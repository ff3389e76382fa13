use pcurl::single::{SingleStream, StreamAction, StreamEvent, StreamReader};

fn reader(length: Option<u64>) -> StreamReader {
    StreamReader::new(SingleStream::start(200, length).unwrap())
}

fn piece(reader: &mut StreamReader, len: u64, index: u64) {
    assert!(matches!(
        reader.step(StreamEvent::Piece { len }, "u"),
        StreamAction::Acquire
    ));
    assert!(matches!(
        reader.step(StreamEvent::Permitted, "u"),
        StreamAction::Send(i) if i == index
    ));
    assert!(matches!(
        reader.step(StreamEvent::Sent, "u"),
        StreamAction::Read
    ));
}

#[test]
fn frames_are_numbered_and_empty_pieces_skipped() {
    let mut reader = reader(Some(30));
    piece(&mut reader, 10, 0);
    assert!(matches!(
        reader.step(StreamEvent::Piece { len: 0 }, "u"),
        StreamAction::Read
    ));
    piece(&mut reader, 20, 1);
    assert!(matches!(
        reader.step(StreamEvent::Ended, "u"),
        StreamAction::Stop
    ));
}

#[test]
fn truncated_body_is_an_error() {
    let mut reader = reader(Some(30));
    piece(&mut reader, 10, 0);
    match reader.step(StreamEvent::Ended, "u") {
        StreamAction::Fail { message } => {
            assert_eq!(message, "response body ended after 10 of 30 bytes")
        }
        other => panic!("unexpected {other:?}"),
    }
}

#[test]
fn longer_body_is_no_error() {
    let mut reader = reader(Some(10));
    piece(&mut reader, 12, 0);
    assert!(matches!(
        reader.step(StreamEvent::Ended, "u"),
        StreamAction::Stop
    ));
}

#[test]
fn body_of_unknown_length_may_end_anywhere() {
    let mut reader = reader(None);
    piece(&mut reader, 10, 0);
    assert!(matches!(
        reader.step(StreamEvent::Ended, "u"),
        StreamAction::Stop
    ));
}

#[test]
fn broken_body_is_an_error_unless_cancelled() {
    for cancelled in [false, true] {
        let mut reader = reader(None);
        let event = StreamEvent::Broken {
            cancelled,
            error: "reset".to_string(),
        };
        match reader.step(event, "u") {
            StreamAction::Fail { message } => {
                assert!(!cancelled);
                assert_eq!(message, "error reading response body: reset");
            }
            StreamAction::Stop => assert!(cancelled),
            other => panic!("unexpected {other:?}"),
        }
    }
}

#[test]
fn reader_stops_when_nobody_wants_the_frame() {
    let mut reader = reader(None);
    reader.step(StreamEvent::Piece { len: 1 }, "u");
    assert!(matches!(
        reader.step(StreamEvent::Closed, "u"),
        StreamAction::Stop
    ));
    assert!(!reader.can_take(&StreamEvent::Ended));
    let mut reader = self::reader(None);
    reader.step(StreamEvent::Piece { len: 1 }, "u");
    reader.step(StreamEvent::Permitted, "u");
    assert!(matches!(
        reader.step(StreamEvent::WriterGone, "u"),
        StreamAction::Stop
    ));
}

#[test]
fn counters_do_not_overflow() {
    let mut reader = reader(None);
    piece(&mut reader, u64::MAX - 1, 0);
    assert!(reader.can_take(&StreamEvent::Piece { len: 1 }));
    assert!(!reader.can_take(&StreamEvent::Piece { len: 2 }));
}

#[test]
fn stream_needs_a_success_status() {
    assert!(SingleStream::start(206, None).is_ok());
    let error = SingleStream::start(502, None).unwrap_err();
    assert_eq!(
        error.message("http://x"),
        "unexpected status 502 Bad Gateway for http://x"
    );
}
