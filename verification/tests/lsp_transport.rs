use ki::json::{parse_json, print_json, Json};
use ki::lsp::reader::{ErrorTracker, ReaderAction, StdoutReader};
use ki::lsp::transport::{frame, read_response, send_json, ReadError, ReadOutcome};

fn value(json: &Json) -> serde_json::Value {
    serde_json::from_str(&print_json(json)).unwrap()
}

fn error(bytes: &[u8], at_end: bool) -> (ReadError, usize) {
    match read_response(bytes, at_end) {
        ReadOutcome::Failed { error, consumed, .. } => (error, consumed),
        _ => panic!("expected an error"),
    }
}

#[test]
fn messages_are_framed_by_their_length_in_bytes() {
    assert_eq!(frame("{}"), b"Content-Length: 2\r\n\r\n{}");
    assert_eq!(
        frame("\"ä\""),
        "Content-Length: 4\r\n\r\n\"ä\"".as_bytes()
    );
}

#[test]
fn framed_messages_are_read_back() {
    let text = "{\"a\":[1,-2,\"ü\",null,true,{}]}";
    let json = parse_json(text).unwrap();
    let mut bytes = frame(&print_json(&json));
    let length = bytes.len();
    bytes.extend_from_slice(b"Content-Length: 1");
    match read_response(&bytes, false) {
        ReadOutcome::Message { content, consumed } => {
            assert_eq!(consumed, length);
            assert_eq!(
                value(&content),
                serde_json::from_str::<serde_json::Value>(text).unwrap()
            );
        }
        _ => panic!("expected a message"),
    }
}

#[test]
fn further_header_lines_are_skipped() {
    let bytes = b"Content-Length: 4 \r\nContent-Type: x\r\n\r\nnull";
    match read_response(bytes, false) {
        ReadOutcome::Message { content, consumed } => {
            assert!(content.is_null());
            assert_eq!(consumed, bytes.len());
        }
        _ => panic!("expected a message"),
    }
}

#[test]
fn any_further_header_lines_are_skipped() {
    let lines: [&[u8]; 4] = [b"a: b\r\n", b"\n", b" \r\n", "ä\n".as_bytes()];
    let mut bytes = b"Content-Length: 2\r\n".to_vec();
    for line in lines {
        bytes.extend_from_slice(line);
    }
    bytes.extend_from_slice(b"\r\n17");
    let length = bytes.len();
    bytes.extend_from_slice(b"Content");
    match read_response(&bytes, true) {
        ReadOutcome::Message { content, consumed } => {
            assert_eq!(content.as_u64(), Some(17));
            assert_eq!(consumed, length);
        }
        _ => panic!("expected a message"),
    }
}

#[test]
fn messages_are_read_back_in_order() {
    let mut bytes = Vec::new();
    for number in 1..4 {
        bytes.extend(send_json(&Json::integer(number)));
    }
    bytes.extend_from_slice(b"Content-Le");
    for number in 1..4 {
        match read_response(&bytes, false) {
            ReadOutcome::Message { content, consumed } => {
                assert_eq!(content.as_u64(), Some(number));
                bytes.drain(..consumed);
            }
            _ => panic!("expected a message"),
        }
    }
    assert_eq!(bytes, b"Content-Le");
}

#[test]
fn the_end_of_the_output_is_an_error() {
    let header = b"Content-Length: 2\r\n";
    assert_eq!(error(header, true), (ReadError::Closed, header.len()));
    let headers = b"Content-Length: 2\r\nContent-Ty";
    assert_eq!(error(headers, true), (ReadError::Closed, headers.len()));
    let mut reader = StdoutReader::new("test-lsp", 0);
    reader.receive(headers);
    assert!(matches!(reader.advance(false, 0), ReaderAction::ReadMore));
    match reader.advance(true, 0) {
        ReaderAction::GiveUp(message) => {
            assert!(message.ends_with("Error #1: Error: LSP server stdout closed"))
        }
        _ => panic!("expected the reader to give up"),
    }
    let bytes = frame("{}");
    for n in 0..bytes.len() {
        assert!(matches!(
            read_response(&bytes[..n], true),
            ReadOutcome::Failed { .. }
        ));
    }
}

#[test]
fn parts_of_a_message_are_incomplete() {
    let bytes = frame("{}");
    for n in 0..bytes.len() {
        assert!(matches!(
            read_response(&bytes[..n], false),
            ReadOutcome::Incomplete
        ));
    }
}

#[test]
fn each_fault_has_its_error() {
    assert_eq!(error(b"", true), (ReadError::Closed, 0));
    assert_eq!(error(b"\xff\n", false), (ReadError::Header, 2));
    assert_eq!(error(b"nonsense\n", false), (ReadError::NoColon, 9));
    assert_eq!(
        error(b"Content-Length: x\r\n", false),
        (ReadError::BadLength, 19)
    );
    assert_eq!(
        error(b"Content-Length: 1:2\r\n\r\n{", false),
        (ReadError::NotJson, 24)
    );
    assert_eq!(
        error(b"Content-Length: 2\r\n\xff\n", false),
        (ReadError::Content, 21)
    );
    assert_eq!(
        error(b"Content-Length: 9\r\n\r\n{}", true),
        (ReadError::Truncated, 23)
    );
    assert_eq!(
        error(b"Content-Length: 1\r\n\r\n\xff", false),
        (ReadError::NotUtf8, 22)
    );
    assert_eq!(
        error(b"Content-Length: 2\r\n\r\n{]", false),
        (ReadError::NotJson, 23)
    );
    assert!(ReadError::Closed.is_unexpected_eof());
    assert!(ReadError::Truncated.is_unexpected_eof());
    assert!(!ReadError::NotJson.is_unexpected_eof());
    assert_eq!(
        ReadError::Closed.message("a", "b"),
        "LSP server stdout closed"
    );
    assert_eq!(
        ReadError::NotJson.message("\"x\"", "bad"),
        "Failed to convert content string into JSON value due to error: bad. Content is \"x\""
    );
}

fn gives_up_after_five_errors() {
    let mut reader = StdoutReader::new("test-lsp", 0);
    for _ in 0..10 {
        reader.receive(b"invalid data\n");
    }
    for _ in 0..4 {
        assert!(matches!(reader.advance(false, 0), ReaderAction::Pause));
    }
    match reader.advance(false, 0) {
        ReaderAction::GiveUp(message) => {
            assert!(message.contains("Too many consecutive errors"));
            let line = "Error: Parsing Content-Length: Unable to split line: \"invalid data\\n\"";
            assert_eq!(
                message,
                format!("LspServerProcess::listen: Stopping LSP command:\n\n`test-lsp`\n\nToo many consecutive errors (5):\nError #1: {line}\nError #2: {line}\nError #3: {line}\nError #4: {line}\nError #5: {line}")
            );
        }
        _ => panic!("expected the reader to give up"),
    }
}

#[test]
fn process_lsp_should_shutdown_after_too_many_consecutive_errors() {
    gives_up_after_five_errors();
}

#[test]
fn lifecycle_lsp_should_shutdown_after_too_many_consecutive_errors() {
    gives_up_after_five_errors();
}

#[test]
fn success_makes_the_count_start_anew() {
    let mut reader = StdoutReader::new("test-lsp", 0);
    for _ in 0..3 {
        for _ in 0..4 {
            reader.receive(b"invalid data\n");
            assert!(matches!(reader.advance(false, 0), ReaderAction::Pause));
        }
        reader.receive(&frame("1"));
        match reader.advance(false, 0) {
            ReaderAction::Deliver(message) => assert_eq!(value(&message), 1),
            _ => panic!("expected a message"),
        }
    }
    assert!(matches!(reader.advance(false, 0), ReaderAction::ReadMore));
}

#[test]
fn end_of_output_stops_the_reader() {
    let mut reader = StdoutReader::new("test-lsp", 0);
    match reader.advance(true, 0) {
        ReaderAction::GiveUp(message) => assert_eq!(
            message,
            "LspServerProcess::listen: Stopping LSP command:\n\n`test-lsp`\n\nLSP server stopped after error:\nError #1: Error: LSP server stdout closed"
        ),
        _ => panic!("expected the reader to give up"),
    }
}

#[test]
fn errors_are_forgotten_after_a_while() {
    let second: u64 = 1_000_000_000;
    let mut tracker = ErrorTracker::new(0);
    for _ in 0..4 {
        assert!(tracker.handle_error(ReadError::NotJson, "m", 0));
    }
    assert!(tracker.handle_error(ReadError::NotJson, "m", 30 * second + 1));
    for _ in 0..3 {
        assert!(tracker.handle_error(ReadError::NotJson, "m", 60 * second + 1));
    }
    assert!(!tracker.handle_error(ReadError::NotJson, "m", 60 * second + 1));
    let mut tracker = ErrorTracker::new(0);
    for _ in 0..4 {
        tracker.handle_error(ReadError::NotJson, "m", 0);
    }
    assert!(!tracker.handle_error(ReadError::NotJson, "m", 30 * second));
    tracker.handle_success();
    assert!(tracker.handle_error(ReadError::NotJson, "m", 0));
}

#[test]
fn content_that_is_not_json_is_shown() {
    let mut reader = StdoutReader::new("test-lsp", 0);
    reader.receive(b"Content-Length: 2\r\n\r\n{]");
    assert!(matches!(reader.advance(true, 0), ReaderAction::Pause));
    let fault = format!(
        "{:?}",
        serde_json::from_str::<serde_json::Value>("{]").unwrap_err()
    );
    match reader.advance(true, 0) {
        ReaderAction::GiveUp(message) => assert_eq!(
            message,
            format!("LspServerProcess::listen: Stopping LSP command:\n\n`test-lsp`\n\nLSP server stopped after error:\nError #1: Error: Failed to convert content string into JSON value due to error: {fault}. Content is \"{{]\"\nError #2: Error: LSP server stdout closed")
        ),
        _ => panic!("expected the reader to give up"),
    }
}

#[test]
fn sent_messages_are_read_back() {
    let message = Json::object()
        .with("jsonrpc", Json::text("2.0"))
        .with("id", Json::integer(-7));
    let mut reader = StdoutReader::new("test-lsp", 0);
    let bytes = send_json(&message);
    assert_eq!(
        bytes,
        b"Content-Length: 25\r\n\r\n{\"jsonrpc\":\"2.0\",\"id\":-7}"
    );
    reader.receive(&bytes);
    reader.receive(b"rest");
    match reader.advance(false, 0) {
        ReaderAction::Deliver(read) => assert_eq!(value(&read), value(&message)),
        _ => panic!("expected a message"),
    }
}
