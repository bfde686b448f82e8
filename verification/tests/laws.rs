use ki::editor_config::EditorConfigSettings;
use ki::json::{parse_json, print_json, Json};
use ki::lsp::capabilities::{
    Capabilities, PositionEncoding, ServerCapabilities, TextDocumentSync, TextDocumentSyncKind,
};
use ki::lsp::positions::document_end_position;
use ki::lsp::process::LspServerProcess;
use ki::lsp::protocol::{Position, RequestMethod, RequestParams, ResponseContext, SessionAction};
use ki::lsp::server_config::{resolve_initialization_options, LspDiagnosticMode};
use ki::lsp::session::SessionError;
use ki::lsp::workspace_data::{LockOutcome, SlotStep, WorkspaceDataLease};
use ki::path::{ancestors_of, join, parent_of, AbsolutePath};
use ki::text::{join_texts, precedes, replace, split};

fn path(text: &str) -> AbsolutePath {
    AbsolutePath::new(text).unwrap()
}

fn json(text: &str) -> Json {
    parse_json(text).unwrap()
}

fn capabilities() -> ServerCapabilities {
    let mut capabilities: ServerCapabilities = Capabilities::default();
    capabilities.text_document_sync =
        Some(TextDocumentSync::Kind(TextDocumentSyncKind::Incremental));
    capabilities.providers.hover = true;
    capabilities
}

fn process() -> LspServerProcess {
    let mut process = LspServerProcess::new(
        "test".to_string(),
        path("/work"),
        LspDiagnosticMode::Push,
        None,
        None,
    );
    process.server_capabilities = Some(capabilities());
    process
}

fn params() -> RequestParams {
    let place = || Position {
        line: 0,
        character: 0,
    };
    RequestParams {
        path: path("/work/a"),
        position: place(),
        selection_end: place(),
        context: ResponseContext::default(),
    }
}

#[test]
fn requests_get_numbers_of_their_own_and_wait() {
    let mut process = process();
    for id in 0..5 {
        assert_eq!(process.next_request_id, id);
        assert!(!process.pending_response_requests.contains_key(&id));
        process.text_document_hover(params());
        assert_eq!(
            process.pending_response_requests[&id].method,
            RequestMethod::Hover
        );
    }
}

#[test]
fn answers_leave_other_requests_waiting() {
    let mut process = process();
    process.text_document_hover(params());
    process.text_document_hover(params());
    process.handle_reply(&json("{\"jsonrpc\":\"2.0\",\"id\":0,\"result\":{\"contents\":\"x\"}}"));
    assert!(!process.pending_response_requests.contains_key(&0));
    assert!(process.pending_response_requests.contains_key(&1));
}

#[test]
fn errors_change_nothing() {
    let mut process = process();
    process.text_document_hover(params());
    let outcome = process.handle_reply(&json(
        "{\"jsonrpc\":\"2.0\",\"id\":0,\"error\":{\"code\":1,\"message\":\"m\"}}",
    ));
    assert!(outcome.actions.is_empty());
    assert!(matches!(
        outcome.result,
        Err(SessionError::ErrorField { .. })
    ));
    assert!(process.pending_response_requests.contains_key(&0));
}

#[test]
fn closed_documents_cannot_change() {
    let mut process = process();
    process.text_document_did_open(path("/a"), "l".to_string(), 1, "x".to_string());
    process.text_document_did_close(path("/a"));
    let outcome = process.text_document_did_change(path("/a"), 2, "y".to_string());
    assert!(outcome.actions.is_empty());
    match outcome.result {
        Err(SessionError::NotOpen(path)) => assert_eq!(path, "/a"),
        _ => panic!("expected the change to be refused"),
    }
}

#[test]
fn the_answer_to_initialize_begins_the_session() {
    let mut process = process();
    process.initialize();
    let outcome = process.handle_reply(&json(
        "{\"jsonrpc\":\"2.0\",\"id\":0,\"result\":{\"capabilities\":{}}}",
    ));
    assert!(process.is_initialized);
    assert!(!process.server_capabilities.unwrap().providers.hover);
    assert_eq!(outcome.actions.len(), 2);
    assert!(matches!(outcome.actions[1], SessionAction::Notify(_)));
}

#[test]
fn end_lies_in_the_last_line() {
    let text = "a\r\nbc\rdé😀";
    for encoding in [
        PositionEncoding::Utf8,
        PositionEncoding::Utf16,
        PositionEncoding::Utf32,
    ] {
        let whole = document_end_position(text, encoding).unwrap();
        let last = document_end_position("dé😀", encoding).unwrap();
        assert_eq!(whole.line, 2);
        assert_eq!(last.line, 0);
        assert_eq!(whole.character, last.character);
    }
}

#[test]
fn directory_of_an_entry_is_its_directory() {
    let file = join("/a/b", "c.rs");
    assert_eq!(parent_of(&file).unwrap(), "/a/b");
    let mut expected = vec![file.clone()];
    expected.extend(ancestors_of("/a/b"));
    assert_eq!(ancestors_of(&file), expected);
}

#[test]
fn pieces_and_texts_belong_together() {
    for text in ["", "a", ",", "a,b,,c", ",,"] {
        assert_eq!(join_texts(&split(text, ','), ","), text);
    }
    let list = vec!["x".to_string(), "".to_string(), "y".to_string()];
    assert_eq!(split(&join_texts(&list, ","), ','), list);
}

#[test]
fn text_without_the_pattern_stays() {
    assert_eq!(replace("a{b", "{b}", "x"), "a{b");
}

#[test]
fn text_order_is_transitive() {
    let texts = ["", "A", "a", "aa", "b", "ä"];
    for (i, first) in texts.iter().enumerate() {
        for (j, second) in texts.iter().enumerate() {
            assert_eq!(precedes(first, second), i < j);
        }
    }
}

#[test]
fn options_keep_their_shape() {
    let text = "{\"a\":[1,{\"b\":\"x\"},[]],\"c\":null}";
    let resolved =
        resolve_initialization_options(Some(&json(text)), &path("/work"), None).unwrap();
    assert_eq!(print_json(&resolved), print_json(&json(text)));
}

#[test]
fn slots_of_a_workspace_are_different() {
    let mut search = WorkspaceDataLease::acquire("/cache", "s", b"/root");
    let mut seen = Vec::new();
    for _ in 0..12 {
        let directory = search.slot_dir();
        assert!(!seen.contains(&directory));
        seen.push(directory);
        assert!(matches!(
            search.try_acquire_slot(LockOutcome::WouldBlock),
            SlotStep::TryNext
        ));
    }
    assert!(seen[11].ends_with("/11"));
}

#[test]
fn saved_text_is_as_asked_for() {
    let settings = EditorConfigSettings {
        indent_char: None,
        indent_width: None,
        insert_final_newline: Some(true),
        trim_trailing_whitespace: Some(true),
    };
    let saved = settings.format_content_for_save(" a \t\r\n\r b\t");
    assert_eq!(saved, " a\n\n b\n");
}
