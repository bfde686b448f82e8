use ki::bounded_log::{BoundedLogFile, LogStep, MAX_LOG_FILE_BYTES};

/// Writes an event to a log file that holds `content`.
fn write(content: &mut Vec<u8>, max_bytes: u64, pieces: &[&[u8]]) {
    let log = BoundedLogFile { max_bytes };
    let mut writer = log.make_writer();
    for piece in pieces {
        assert_eq!(writer.write(piece), piece.len());
    }
    match writer.finish(content.len() as u64) {
        LogStep::Discard => {}
        LogStep::StartOver => {
            content.clear();
            content.extend_from_slice(writer.event());
        }
        LogStep::Append => content.extend_from_slice(writer.event()),
    }
}

#[test]
fn log_file_is_truncated_before_exceeding_limit() {
    let mut content = Vec::new();
    write(&mut content, 32, &[b"aaaaaaaaaaaaaaaaaaaa"]);
    assert_eq!(content, b"aaaaaaaaaaaaaaaaaaaa");
    write(&mut content, 32, &[b"bbbbbbbbbbbbbbbbbbbb"]);

    assert_eq!(content, b"bbbbbbbbbbbbbbbbbbbb");
}

#[test]
fn oversized_log_event_is_discarded() {
    let mut content = Vec::new();
    write(&mut content, 8, &[b"too large"]);

    assert!(content.is_empty());
}

#[test]
fn events_that_fit_are_appended() {
    let mut content = Vec::new();
    write(&mut content, 8, &[b"ab", b"cd"]);
    write(&mut content, 8, &[b"efgh"]);
    assert_eq!(content, b"abcdefgh");
    write(&mut content, 8, &[b"i"]);
    assert_eq!(content, b"i");
    let log = BoundedLogFile {
        max_bytes: MAX_LOG_FILE_BYTES,
    };
    assert_eq!(log.write_event(u64::MAX, b"x"), LogStep::StartOver);
    assert_eq!(MAX_LOG_FILE_BYTES, 10 * 1024 * 1024);
}
