use ki::json::{parse_json, print_json, Json};
use ki::lsp::capabilities::{
    Capabilities, PositionEncoding, ServerCapabilities, TextDocumentSync, TextDocumentSyncKind,
    TextDocumentSyncOptions,
};
use ki::lsp::channel::SendError;
use ki::lsp::decode::{decode_params, decode_request, decode_response, decode_result, ParamsKind};
use ki::lsp::configuration::{hint_for_lsp_error, workspace_configuration_response};
use ki::lsp::outcome::Outcome;
use ki::lsp::positions::{document_end_position, PositionError};
use ki::lsp::process::{
    diagnostics_from_document_diagnostic, Continuation, LspServerProcess, LspServerProcessMessage,
};
use ki::lsp::protocol::{
    CallHierarchyDirection, Command, FromEditor, LspNotification, MessageId, Position,
    RequestMethod, RequestParams, ResponseContext, Scope, SessionAction,
};
use ki::lsp::server_config::LspDiagnosticMode;
use ki::lsp::session::SessionError;
use ki::path::AbsolutePath;

type Request = json_rpc_types::Request<serde_json::Value, String>;

fn json(text: &str) -> Json {
    parse_json(text).unwrap()
}

fn value(json: &Json) -> serde_json::Value {
    serde_json::from_str(&print_json(json)).unwrap()
}

fn parsed(text: &str) -> serde_json::Value {
    serde_json::from_str(text).unwrap()
}

fn path(text: &str) -> AbsolutePath {
    AbsolutePath::new(text).unwrap()
}

fn process() -> LspServerProcess {
    let mut process = LspServerProcess::new(
        "test".to_string(),
        path("/work"),
        LspDiagnosticMode::Push,
        None,
        None,
    );
    process.is_initialized = true;
    process
}

fn capabilities() -> ServerCapabilities {
    Capabilities::default()
}

fn sync_capabilities(kind: TextDocumentSyncKind) -> ServerCapabilities {
    let mut capabilities = capabilities();
    capabilities.text_document_sync = Some(TextDocumentSync::Options(TextDocumentSyncOptions {
        open_close: Some(true),
        change: Some(kind),
        save: None,
    }));
    capabilities
}

/// All that a server can do, as a server announces it.
fn able_process() -> LspServerProcess {
    let mut process = LspServerProcess::new(
        "test".to_string(),
        path("/work"),
        LspDiagnosticMode::Both,
        None,
        None,
    );
    process.initialize();
    let outcome = process.handle_reply(&json(
        "{\"jsonrpc\":\"2.0\",\"id\":0,\"result\":{\"capabilities\":{
            \"textDocumentSync\":{\"openClose\":true,\"change\":1,\"save\":true},
            \"hoverProvider\":true,\"completionProvider\":{\"resolveProvider\":true,\"triggerCharacters\":[\".\",\":\"]},
            \"signatureHelpProvider\":{},\"definitionProvider\":true,\"typeDefinitionProvider\":true,
            \"implementationProvider\":true,\"referencesProvider\":true,\"documentSymbolProvider\":true,
            \"workspaceSymbolProvider\":true,\"codeActionProvider\":{\"resolveProvider\":true},
            \"renameProvider\":true,\"declarationProvider\":true,\"executeCommandProvider\":{\"commands\":[]},
            \"callHierarchyProvider\":true,
            \"diagnosticProvider\":{\"interFileDependencies\":false,\"workspaceDiagnostics\":false},
            \"workspace\":{\"fileOperations\":{\"didCreate\":{\"filters\":[]},\"didRename\":{\"filters\":[]}}}
        }}}",
    ));
    assert!(outcome.result.is_ok());
    process
}

fn params() -> RequestParams {
    RequestParams {
        path: path("/work/src/a b.rs"),
        position: Position {
            line: 3,
            character: 4,
        },
        selection_end: Position {
            line: 5,
            character: 6,
        },
        context: ResponseContext::default(),
    }
}

fn sent(outcome: &Outcome) -> Vec<serde_json::Value> {
    outcome
        .actions
        .iter()
        .filter_map(|action| match action {
            SessionAction::Send(message) => Some(value(message)),
            _ => None,
        })
        .collect()
}

fn only_sent(outcome: &Outcome) -> serde_json::Value {
    assert!(outcome.result.is_ok());
    assert_eq!(outcome.actions.len(), 1);
    sent(outcome).remove(0)
}

fn told(mut outcome: Outcome) -> LspNotification<Json, String> {
    assert!(outcome.result.is_ok());
    match outcome.actions.remove(0) {
        SessionAction::Notify(notification) => notification,
        _ => panic!("expected the editor to be told"),
    }
}

fn sync_kinds_are_recognized() {
    let mut capabilities = capabilities();

    assert!(!capabilities.server_supports_text_document_open_close());
    assert_eq!(capabilities.server_text_document_sync_kind(), None);
    assert!(!capabilities.server_supports_text_document_change());
    assert!(!capabilities.server_supports_text_document_save());

    capabilities.text_document_sync = Some(TextDocumentSync::Kind(TextDocumentSyncKind::Full));
    assert!(capabilities.server_supports_text_document_open_close());
    assert_eq!(
        capabilities.server_text_document_sync_kind(),
        Some(TextDocumentSyncKind::Full)
    );
    assert!(capabilities.server_supports_text_document_change());
    assert!(!capabilities.server_supports_text_document_save());

    capabilities.text_document_sync = Some(TextDocumentSync::Options(TextDocumentSyncOptions {
        open_close: Some(true),
        change: Some(TextDocumentSyncKind::Full),
        save: Some(true),
    }));
    assert!(capabilities.server_supports_text_document_open_close());
    assert_eq!(
        capabilities.server_text_document_sync_kind(),
        Some(TextDocumentSyncKind::Full)
    );
    assert!(capabilities.server_supports_text_document_change());
    assert!(capabilities.server_supports_text_document_save());

    capabilities.text_document_sync = Some(TextDocumentSync::Options(TextDocumentSyncOptions {
        open_close: None,
        change: Some(TextDocumentSyncKind::Incremental),
        save: None,
    }));
    assert_eq!(
        capabilities.server_text_document_sync_kind(),
        Some(TextDocumentSyncKind::Incremental)
    );

    capabilities.text_document_sync = Some(TextDocumentSync::Options(TextDocumentSyncOptions {
        open_close: None,
        change: None,
        save: None,
    }));
    assert_eq!(capabilities.server_text_document_sync_kind(), None);
}

#[test]
fn process_text_document_lifecycle_notifications_require_server_sync_capabilities() {
    sync_kinds_are_recognized();
}

#[test]
fn document_sync_text_document_lifecycle_notifications_require_server_sync_capabilities() {
    sync_kinds_are_recognized();
}

fn file_operations_are_recognized() {
    let mut capabilities = capabilities();

    assert!(!capabilities.server_supports_workspace_did_create_files());
    assert!(!capabilities.server_supports_workspace_did_rename_files());

    capabilities.providers.did_create_files = true;
    capabilities.providers.did_rename_files = true;

    assert!(capabilities.server_supports_workspace_did_create_files());
    assert!(capabilities.server_supports_workspace_did_rename_files());
}

#[test]
fn process_workspace_file_notifications_require_server_file_operation_capabilities() {
    file_operations_are_recognized();
}

#[test]
fn protocol_workspace_file_notifications_require_server_file_operation_capabilities() {
    file_operations_are_recognized();
}

fn full_report_has_diagnostics() {
    let diagnostic = lsp_types::Diagnostic::new_simple(
        lsp_types::Range::new(
            lsp_types::Position::new(0, 0),
            lsp_types::Position::new(0, 1),
        ),
        "hello".to_string(),
    );
    let report = lsp_types::DocumentDiagnosticReportResult::Report(
        lsp_types::DocumentDiagnosticReport::Full(
            lsp_types::RelatedFullDocumentDiagnosticReport {
                related_documents: None,
                full_document_diagnostic_report: lsp_types::FullDocumentDiagnosticReport {
                    result_id: None,
                    items: vec![diagnostic.clone()],
                },
            },
        ),
    );
    let report = json(&serde_json::to_string(&report).unwrap());

    let diagnostics: Vec<lsp_types::Diagnostic> = serde_json::from_value(value(
        &diagnostics_from_document_diagnostic(&report).unwrap(),
    ))
    .unwrap();
    assert_eq!(diagnostics, vec![diagnostic]);
}

#[test]
fn process_full_document_diagnostic_report_returns_diagnostics() {
    full_report_has_diagnostics();
}

#[test]
fn protocol_full_document_diagnostic_report_returns_diagnostics() {
    full_report_has_diagnostics();
}

#[test]
fn unchanged_report_has_no_diagnostics() {
    assert!(diagnostics_from_document_diagnostic(&json(
        "{\"kind\":\"unchanged\",\"resultId\":\"1\"}"
    ))
    .is_none());
}

fn eslint_validates_vue() {
    let response = workspace_configuration_response(
        &json("{\"items\":[{\"section\":\"eslint\"}]}"),
        &path("/work"),
        None,
        None,
    );
    let response = value(&response);
    let configs = response.as_array().unwrap();
    assert!(configs[0]["validate"]
        .as_array()
        .unwrap()
        .contains(&serde_json::Value::from("vue")));
}

#[test]
fn process_workspace_configuration_includes_vue_eslint_validation() {
    eslint_validates_vue();
}

#[test]
fn configuration_workspace_configuration_includes_vue_eslint_validation() {
    eslint_validates_vue();
}

fn vtsls_has_the_vue_plugin() {
    let response = workspace_configuration_response(
        &json("{\"items\":[{\"section\":\"\"}]}"),
        &path("/work"),
        None,
        None,
    );
    let response = value(&response);
    let configs = response.as_array().unwrap();
    assert_eq!(
        configs[0]["typescript.tsdk"],
        format!("{}/node_modules/typescript/lib", "/work")
    );
    assert_eq!(
        configs[0]["vtsls"]["tsserver"]["globalPlugins"][0]["name"],
        "@vue/typescript-plugin"
    );
}

#[test]
fn process_workspace_configuration_includes_vue_typescript_plugin_for_vtsls() {
    vtsls_has_the_vue_plugin();
}

#[test]
fn configuration_workspace_configuration_includes_vue_typescript_plugin_for_vtsls() {
    vtsls_has_the_vue_plugin();
}

#[test]
fn workspace_configuration_uses_java_initialization_settings() {
    let initialization_options = json(
        "{\"settings\": {\"java\": {
            \"signatureHelp\": { \"enabled\": true },
            \"configuration\": {
                \"runtimes\": [{ \"path\": \"${workspace}/jdk\", \"name\": \"JavaSE-21\" }]
            }
        }}}",
    );
    let response = workspace_configuration_response(
        &json(
            "{\"items\":[{\"section\":\"java\"},{\"section\":\"java.signatureHelp.enabled\"},{\"section\":\"unknown\"}]}",
        ),
        &path("/tmp/java-project"),
        Some(&initialization_options),
        None,
    );
    let response = value(&response);
    let configs = response.as_array().unwrap();

    assert_eq!(configs[0]["signatureHelp"]["enabled"], true);
    assert_eq!(
        configs[0]["configuration"]["runtimes"][0]["path"],
        "/tmp/java-project/jdk"
    );
    assert_eq!(configs[1], true);
    assert_eq!(configs[2], serde_json::Value::Null);
}

#[test]
fn every_built_in_section_is_answered() {
    let languages = "[\"javascript\",\"javascriptreact\",\"typescript\",\"typescriptreact\",\"vue\"]";
    let vtsls = "{\"tsserver\":{\"globalPlugins\":[{\"name\":\"@vue/typescript-plugin\",\"location\":\"/plugin\",\"languages\":[\"vue\"],\"enableForWorkspaceTypeScriptVersions\":true}]}}";
    let directories = "[{\"mode\":\"auto\"}]";
    for (section, expected) in [
        (
            "",
            format!("{{\"typescript.tsdk\":\"/work/node_modules/typescript/lib\",\"typescript.validate.enable\":true,\"javascript.validate.enable\":true,\"vtsls\":{vtsls}}}"),
        ),
        (
            "typescript",
            "{\"tsdk\":\"/work/node_modules/typescript/lib\",\"validate\":{\"enable\":true}}".to_string(),
        ),
        ("vtsls", vtsls.to_string()),
        (
            "eslint",
            format!("{{\"enable\":true,\"run\":\"onType\",\"validate\":{languages},\"probe\":{languages},\"workingDirectories\":{directories}}}"),
        ),
        ("eslint.enable", "true".to_string()),
        ("eslint.run", "\"onType\"".to_string()),
        ("eslint.validate", languages.to_string()),
        ("eslint.probe", languages.to_string()),
        ("eslint.workingDirectories", directories.to_string()),
        ("eslint.other", "null".to_string()),
    ] {
        let items = Json::object().with(
            "items",
            Json::array().item(Json::object().with("section", Json::text(section))),
        );
        let response =
            workspace_configuration_response(&items, &path("/work"), None, Some("/plugin"));
        assert_eq!(value(&response)[0], parsed(&expected));
    }
    let response = workspace_configuration_response(
        &json("{\"items\":[{\"scopeUri\":\"file:///a\"}]}"),
        &path("/work"),
        None,
        None,
    );
    assert_eq!(value(&response), parsed("[null]"));
}

fn hint_mentions_vue_plugin() {
    let hint = hint_for_lsp_error(
        "Request textDocument/definition failed with message: Cannot find provider for definition, the feature is possibly not supported by the current TypeScript version or disabled by settings.",
    )
    .unwrap();

    assert!(hint.contains("@vue/typescript-plugin"));
}

#[test]
fn process_lsp_error_hint_mentions_vue_typescript_plugin() {
    hint_mentions_vue_plugin();
}

#[test]
fn configuration_lsp_error_hint_mentions_vue_typescript_plugin() {
    hint_mentions_vue_plugin();
}

fn hint_mentions_eslint() {
    let hint = hint_for_lsp_error(
        "Request textDocument/diagnostic failed with message: The \"path\" argument must be of type string. Received undefined",
    )
    .unwrap();

    assert!(hint.contains("ESLint"));
}

#[test]
fn process_lsp_error_hint_mentions_eslint_resolution() {
    hint_mentions_eslint();
}

#[test]
fn configuration_lsp_error_hint_mentions_eslint_resolution() {
    hint_mentions_eslint();
}

#[test]
fn other_errors_have_their_hint_or_none() {
    assert!(hint_for_lsp_error("Cannot find module 'x'")
        .unwrap()
        .contains("package or plugin"));
    assert_eq!(
        hint_for_lsp_error("Failed to load plugin"),
        hint_for_lsp_error("Cannot find module")
    );
    assert!(hint_for_lsp_error("something else").is_none());
}

#[test]
fn full_document_change_is_serialized_without_a_range() {
    let mut process = process();
    process.server_capabilities = Some(sync_capabilities(TextDocumentSyncKind::Full));

    let opened = process.text_document_did_open(
        path("/work/main.ts"),
        "typescript".to_string(),
        1,
        "const old = 1;".to_string(),
    );
    assert_eq!(only_sent(&opened)["method"], "textDocument/didOpen");
    let changed = process.text_document_did_change(
        path("/work/main.ts"),
        2,
        "const updated = 2;".to_string(),
    );

    let change = only_sent(&changed);
    assert_eq!(change["method"], "textDocument/didChange");
    let event = &change["params"]["contentChanges"][0];
    assert_eq!(change["params"]["textDocument"]["version"], 2);
    assert_eq!(event["text"], "const updated = 2;");
    assert!(event.get("range").is_none());
}

#[test]
fn incremental_changes_replace_the_previous_document_range() {
    let mut process = process();
    process.server_capabilities = Some(sync_capabilities(TextDocumentSyncKind::Incremental));
    let file = || path("/work/main.vue");

    process.text_document_did_open(file(), "vue".to_string(), 1, "a😀\r\nb".to_string());
    let first = process.text_document_did_change(file(), 2, "x\n".to_string());
    let second = process.text_document_did_change(file(), 3, "final".to_string());
    let closed = process.text_document_did_close(file());
    assert_eq!(only_sent(&closed)["method"], "textDocument/didClose");
    assert!(process
        .synchronized_documents
        .get("/work/main.vue")
        .is_none());

    assert_eq!(
        only_sent(&first)["params"]["contentChanges"][0],
        parsed(
            "{\"range\": {\"start\": { \"line\": 0, \"character\": 0 }, \"end\": { \"line\": 1, \"character\": 1 }}, \"text\": \"x\\n\"}"
        )
    );
    assert_eq!(
        only_sent(&second)["params"]["contentChanges"][0],
        parsed(
            "{\"range\": {\"start\": { \"line\": 0, \"character\": 0 }, \"end\": { \"line\": 1, \"character\": 0 }}, \"text\": \"final\"}"
        )
    );
}

#[test]
fn incremental_change_requires_an_open_document_baseline() {
    let mut process = process();
    process.server_capabilities = Some(sync_capabilities(TextDocumentSyncKind::Incremental));

    let outcome =
        process.text_document_did_change(path("/work/main.vue"), 2, "content".to_string());
    assert!(outcome.actions.is_empty());
    let error = outcome.result.unwrap_err();
    assert!(error.message().contains("before textDocument/didOpen"));
}

#[test]
fn document_end_position_handles_encodings_and_line_endings() {
    let at = |line, character| Ok(Position { line, character });
    assert_eq!(
        document_end_position("", PositionEncoding::Utf16),
        at(0, 0)
    );
    assert_eq!(
        document_end_position("a😀", PositionEncoding::Utf8),
        at(0, 5)
    );
    assert_eq!(
        document_end_position("a😀", PositionEncoding::Utf16),
        at(0, 3)
    );
    assert_eq!(
        document_end_position("a😀", PositionEncoding::Utf32),
        at(0, 2)
    );
    assert_eq!(
        document_end_position("a\n", PositionEncoding::Utf16),
        at(1, 0)
    );
    assert_eq!(
        document_end_position("a\r\nb\rc\n", PositionEncoding::Utf16),
        at(3, 0)
    );
}

#[test]
fn unknown_units_have_no_end_position() {
    assert_eq!(
        document_end_position("a", PositionEncoding::Other),
        Err(PositionError::UnknownEncoding)
    );
    assert_eq!(
        document_end_position("\u{7f}\u{80}\u{7ff}\u{800}\u{ffff}", PositionEncoding::Utf8),
        Ok(Position {
            line: 0,
            character: 1 + 2 + 2 + 3 + 3
        })
    );
    let mut process = process();
    let mut capabilities = sync_capabilities(TextDocumentSyncKind::Incremental);
    capabilities.position_encoding = Some(PositionEncoding::Other);
    process.server_capabilities = Some(capabilities);
    process.text_document_did_open(path("/a"), "x".to_string(), 1, "".to_string());
    let outcome = process.text_document_did_change(path("/a"), 2, "b".to_string());
    assert!(matches!(
        outcome.result,
        Err(SessionError::NoEnd(PositionError::UnknownEncoding))
    ));
    assert_eq!(
        outcome.result.unwrap_err().message(),
        "The server counts characters in unknown units"
    );
}

#[test]
fn text_document_did_close_is_serialized_when_supported() {
    let mut process = process();

    let unsupported = process.text_document_did_close(path("/work/Main.java"));
    assert!(unsupported.actions.is_empty());
    let mut capabilities = capabilities();
    capabilities.text_document_sync = Some(TextDocumentSync::Options(TextDocumentSyncOptions {
        open_close: Some(true),
        change: None,
        save: None,
    }));
    process.server_capabilities = Some(capabilities);
    let supported = process.text_document_did_close(path("/work/Main.java"));

    let message = only_sent(&supported);
    assert_eq!(message["method"], "textDocument/didClose");
    assert_eq!(
        message["params"]["textDocument"]["uri"],
        "file:///work/Main.java"
    );
}

fn shutdown_sends_shutdown_and_exit() {
    let mut process = process();

    let outcome = process.shutdown();
    assert!(outcome.result.is_ok());
    let messages = sent(&outcome);
    assert_eq!(messages[0]["method"], "shutdown");
    assert_eq!(messages[0]["id"], 0);
    assert_eq!(messages[1]["method"], "exit");
    assert!(messages[1].get("id").is_none());

    let outcome =
        process.handle_reply(&json("{\"jsonrpc\": \"2.0\", \"id\": 0, \"result\": null}"));
    assert!(outcome.result.is_ok());
    assert_eq!(outcome.actions.len(), 1);
    assert!(matches!(outcome.actions[0], SessionAction::Exit));
}

#[test]
fn process_initialized_shutdown_sends_shutdown_and_exit() {
    shutdown_sends_shutdown_and_exit();
}

#[test]
fn lifecycle_initialized_shutdown_sends_shutdown_and_exit() {
    shutdown_sends_shutdown_and_exit();
}

#[test]
fn shutdown_before_the_beginning_sends_nothing() {
    let mut process = process();
    process.is_initialized = false;
    let outcome = process.shutdown();
    assert!(outcome.result.is_ok());
    assert!(outcome.actions.is_empty());
}

#[test]
fn initialize_advertises_code_action_resolve_support() {
    let mut process = process();

    let message = only_sent(&process.initialize());
    assert_eq!(
        message["params"]["capabilities"]["textDocument"]["codeAction"]["dataSupport"],
        true
    );
    assert_eq!(
        message["params"]["capabilities"]["textDocument"]["codeAction"]["resolveSupport"]
            ["properties"],
        parsed("[\"edit\"]")
    );
}

#[test]
fn code_action_resolve_preserves_server_data() {
    let mut process = process();
    let mut capabilities = capabilities();
    capabilities.providers.code_action = true;
    capabilities.providers.code_action_resolve = Some(true);
    process.server_capabilities = Some(capabilities);
    let data = "{\"Identifier\": \"using System.Text.Json;\", \"$$__handler_id__$$\": \"handler\"}";

    let outcome = process.code_action_resolve(
        RequestParams {
            path: path("/work/Program.cs"),
            position: Position {
                line: 0,
                character: 18,
            },
            selection_end: Position {
                line: 0,
                character: 32,
            },
            context: ResponseContext::default(),
        },
        json(&format!(
            "{{\"title\": \"using System.Text.Json;\", \"kind\": \"quickfix\", \"data\": {data}}}"
        )),
    );
    let message = only_sent(&outcome);
    assert_eq!(message["method"], "codeAction/resolve");
    assert_eq!(message["params"]["data"], parsed(data));

    let outcome = process.handle_reply(&json(&format!(
        "{{
            \"jsonrpc\": \"2.0\",
            \"id\": 0,
            \"result\": {{
                \"title\": \"using System.Text.Json;\",
                \"kind\": \"quickfix\",
                \"edit\": {{
                    \"changes\": {{
                        \"file:///work/Program.cs\": [{{
                            \"range\": {{
                                \"start\": {{ \"line\": 0, \"character\": 0 }},
                                \"end\": {{ \"line\": 0, \"character\": 0 }}
                            }},
                            \"newText\": \"using System.Text.Json;\\n\\n\"
                        }}]
                    }}
                }},
                \"data\": {data}
            }}
        }}"
    )));
    match told(outcome) {
        LspNotification::CodeActionResolve(action) => {
            assert!(value(&action).get("edit").is_some());
            assert_eq!(value(&action)["data"], parsed(data));
        }
        _ => panic!("expected a resolved code action"),
    }
}

#[test]
fn show_message_request_is_displayed_and_cancelled() {
    let mut process = process();

    let outcome = process.handle_reply(&json(
        "{
            \"jsonrpc\": \"2.0\",
            \"id\": 7,
            \"method\": \"window/showMessageRequest\",
            \"params\": {
                \"type\": 2,
                \"message\": \"Update the Java project configuration?\",
                \"actions\": [{ \"title\": \"Update\" }]
            }
        }",
    ));
    let messages = sent(&outcome);
    assert_eq!(messages.len(), 1);
    assert_eq!(messages[0]["id"], 7);
    assert_eq!(messages[0]["result"], serde_json::Value::Null);
    match told(outcome) {
        LspNotification::ShowMessage(params) => {
            assert_eq!(value(&params)["type"], 2);
            assert_eq!(
                value(&params)["message"],
                "Update the Java project configuration?"
            );
        }
        _ => panic!("expected a message for the user"),
    }
}

#[test]
fn dynamic_capability_registration_is_rejected() {
    let mut process = process();

    let outcome = process.handle_reply(&json(
        "{\"jsonrpc\": \"2.0\", \"id\": 9, \"method\": \"client/registerCapability\", \"params\": { \"registrations\": [] }}",
    ));
    let message = only_sent(&outcome);
    assert_eq!(message["id"], 9);
    assert_eq!(message["error"]["code"], -32601);
}

#[test]
fn workspace_edit_reports_application_failure() {
    let mut process = process();

    let outcome = process.handle_reply(&json(
        "{\"jsonrpc\": \"2.0\", \"id\": 11, \"method\": \"workspace/applyEdit\", \"params\": { \"edit\": { \"changes\": {} } }}",
    ));
    let id = match told(outcome) {
        LspNotification::WorkspaceEdit {
            edit,
            respond: Some(respond),
        } => {
            assert_eq!(value(&edit), parsed("{\"changes\":{}}"));
            respond
        }
        _ => panic!("expected a workspace edit request"),
    };
    let (outcome, next) = process.process_message(LspServerProcessMessage::WorkspaceEditApplied {
        id,
        failed: Some("edit failed".to_string()),
    });
    assert!(matches!(next, Continuation::Listen));
    let message = only_sent(&outcome);
    assert_eq!(message["id"], 11);
    assert_eq!(message["result"]["applied"], false);
    assert_eq!(message["result"]["failureReason"], "edit failed");
    let (outcome, next) = process.process_message(LspServerProcessMessage::Exit);
    assert!(outcome.actions.is_empty());
    assert!(matches!(next, Continuation::Stop));
}

#[test]
fn workspace_edit_reports_success_under_a_text_id() {
    let mut process = process();
    let outcome = process.workspace_edit_applied(MessageId::Text("a".to_string()), None);
    assert_eq!(
        only_sent(&outcome),
        parsed("{\"jsonrpc\":\"2.0\",\"id\":\"a\",\"result\":{\"applied\":true}}")
    );
}

#[test]
fn initialize_matches_the_protocol_types() {
    let mut process = LspServerProcess::new(
        "test".to_string(),
        path("/work space"),
        LspDiagnosticMode::Push,
        Some(json("{\"sdk\":\"${workspace}/lib\"}")),
        None,
    );
    let outcome = process.initialize();
    is_written_as::<lsp_types::InitializeParams>(&outcome.actions[0], "initialize", Some(0));
    let message = only_sent(&outcome);
    assert_eq!(message["jsonrpc"], "2.0");
    assert_eq!(message["method"], "initialize");
    assert_eq!(message["id"], 0);
    assert_eq!(
        message["params"]["initializationOptions"]["sdk"],
        "/work space/lib"
    );
    assert_eq!(message["params"]["rootUri"], "file:///work%20space");
    assert_eq!(
        message["params"]["workspaceFolders"],
        parsed("[{\"uri\":\"file:///work%20space\",\"name\":\"root\"}]")
    );
    let params: lsp_types::InitializeParams =
        serde_json::from_value(message["params"].clone()).unwrap();
    assert_eq!(serde_json::to_value(&params).unwrap(), message["params"]);
    let document = params.capabilities.text_document.unwrap();
    let kinds = document
        .code_action
        .unwrap()
        .code_action_literal_support
        .unwrap()
        .code_action_kind
        .value_set;
    let expected: Vec<String> = [
        lsp_types::CodeActionKind::EMPTY,
        lsp_types::CodeActionKind::QUICKFIX,
        lsp_types::CodeActionKind::REFACTOR,
        lsp_types::CodeActionKind::REFACTOR_EXTRACT,
        lsp_types::CodeActionKind::REFACTOR_INLINE,
        lsp_types::CodeActionKind::REFACTOR_REWRITE,
        lsp_types::CodeActionKind::SOURCE,
        lsp_types::CodeActionKind::SOURCE_ORGANIZE_IMPORTS,
        lsp_types::CodeActionKind::SOURCE_FIX_ALL,
    ]
    .iter()
    .map(|kind| kind.as_str().to_string())
    .collect();
    assert_eq!(kinds, expected);
    assert_eq!(
        document
            .publish_diagnostics
            .unwrap()
            .tag_support
            .unwrap()
            .value_set,
        vec![
            lsp_types::DiagnosticTag::DEPRECATED,
            lsp_types::DiagnosticTag::UNNECESSARY
        ]
    );
    assert_eq!(
        document.hover.unwrap().content_format,
        Some(vec![lsp_types::MarkupKind::PlainText])
    );
    assert_eq!(document.rename.unwrap().prepare_support, Some(true));
    let workspace = params.capabilities.workspace.unwrap();
    assert_eq!(workspace.apply_edit, Some(true));
    assert_eq!(workspace.configuration, Some(true));
    assert_eq!(
        workspace.workspace_edit.unwrap().resource_operations,
        Some(vec![
            lsp_types::ResourceOperationKind::Rename,
            lsp_types::ResourceOperationKind::Create,
            lsp_types::ResourceOperationKind::Delete
        ])
    );
}

#[test]
fn session_begins_when_initialize_is_answered() {
    let mut process = LspServerProcess::new(
        "test".to_string(),
        path("/work"),
        LspDiagnosticMode::Push,
        None,
        None,
    );
    process.initialize();
    assert!(!process.is_initialized);
    let outcome = process.handle_reply(&json(
        "{\"jsonrpc\":\"2.0\",\"id\":0,\"result\":{\"capabilities\":{\"hoverProvider\":true}}}",
    ));
    assert!(process.is_initialized);
    assert_eq!(
        sent(&outcome),
        vec![parsed(
            "{\"jsonrpc\":\"2.0\",\"method\":\"initialized\",\"params\":{}}"
        )]
    );
    match outcome.actions.into_iter().last().unwrap() {
        SessionAction::Notify(LspNotification::Initialized { server_id, root }) => {
            assert_eq!(server_id, "test");
            assert_eq!(root, "/work");
        }
        _ => panic!("expected the editor to be told"),
    }
    assert!(process.server_capabilities.unwrap().providers.hover);
}

fn range_json(line: i64, character: i64, end_line: i64, end_character: i64) -> Json {
    let position = |line, character| {
        Json::object()
            .with("line", Json::integer(line))
            .with("character", Json::integer(character))
    };
    Json::object()
        .with("start", position(line, character))
        .with("end", position(end_line, end_character))
}

fn matches_protocol<P>(outcome: &Outcome, method: &str, id: u64)
where
    P: serde::de::DeserializeOwned + serde::Serialize,
{
    let message = only_sent(outcome);
    assert_eq!(message["method"], method);
    assert_eq!(message["id"], id);
    assert_eq!(message["jsonrpc"], "2.0");
    is_written_as::<P>(&outcome.actions[0], method, Some(id));
}

/// Holds the text of a message to what the types of the protocol print.
fn is_written_as<P>(action: &SessionAction<Json, String>, method: &str, id: Option<u64>)
where
    P: serde::de::DeserializeOwned + serde::Serialize,
{
    let text = match action {
        SessionAction::Send(message) => print_json(message),
        _ => panic!("expected a message"),
    };
    let params: P = serde_json::from_value(parsed(&text)["params"].clone()).unwrap();
    let request = json_rpc_types::Request::<P, String> {
        jsonrpc: json_rpc_types::Version::V2,
        method: method.to_string(),
        params: Some(params),
        id: id.map(json_rpc_types::Id::Num),
    };
    assert_eq!(text, serde_json::to_string(&request).unwrap());
}

#[test]
fn requests_match_the_protocol_types() {
    let mut process = able_process();
    matches_protocol::<lsp_types::HoverParams>(
        &process.handle_from_editor(FromEditor::TextDocumentHover(params())),
        "textDocument/hover",
        1,
    );
    matches_protocol::<lsp_types::CompletionParams>(
        &process.handle_from_editor(FromEditor::TextDocumentCompletion(params())),
        "textDocument/completion",
        2,
    );
    matches_protocol::<lsp_types::GotoDefinitionParams>(
        &process.handle_from_editor(FromEditor::TextDocumentDefinition(params())),
        "textDocument/definition",
        3,
    );
    matches_protocol::<lsp_types::ReferenceParams>(
        &process.handle_from_editor(FromEditor::TextDocumentReferences {
            params: params(),
            include_declaration: true,
        }),
        "textDocument/references",
        4,
    );
    matches_protocol::<lsp_types::GotoDefinitionParams>(
        &process.handle_from_editor(FromEditor::TextDocumentDeclaration(params())),
        "textDocument/declaration",
        5,
    );
    matches_protocol::<lsp_types::GotoDefinitionParams>(
        &process.handle_from_editor(FromEditor::TextDocumentImplementation(params())),
        "textDocument/implementation",
        6,
    );
    matches_protocol::<lsp_types::GotoDefinitionParams>(
        &process.handle_from_editor(FromEditor::TextDocumentTypeDefinition(params())),
        "textDocument/typeDefinition",
        7,
    );
    matches_protocol::<lsp_types::TextDocumentPositionParams>(
        &process.handle_from_editor(FromEditor::TextDocumentPrepareRename(params())),
        "textDocument/prepareRename",
        8,
    );
    let rename = process.handle_from_editor(FromEditor::TextDocumentRename {
        params: params(),
        new_name: "fresh".to_string(),
    });
    matches_protocol::<lsp_types::RenameParams>(&rename, "textDocument/rename", 9);
    assert_eq!(only_sent(&rename)["params"]["newName"], "fresh");
    let code_action = process.handle_from_editor(FromEditor::TextDocumentCodeAction {
        params: params(),
        diagnostics: vec![Json::object()
            .with("range", range_json(0, 0, 0, 1))
            .with("message", Json::text("m"))],
    });
    matches_protocol::<lsp_types::CodeActionParams>(&code_action, "textDocument/codeAction", 10);
    assert_eq!(
        only_sent(&code_action)["params"]["range"],
        parsed("{\"start\":{\"line\":3,\"character\":4},\"end\":{\"line\":5,\"character\":6}}")
    );
    matches_protocol::<lsp_types::SignatureHelpParams>(
        &process.handle_from_editor(FromEditor::TextDocumentSignatureHelp(params())),
        "textDocument/signatureHelp",
        11,
    );
    matches_protocol::<lsp_types::DocumentSymbolParams>(
        &process.handle_from_editor(FromEditor::TextDocumentDocumentSymbol(params())),
        "textDocument/documentSymbol",
        12,
    );
    matches_protocol::<lsp_types::WorkspaceSymbolParams>(
        &process.handle_from_editor(FromEditor::WorkspaceSymbol {
            query: "q".to_string(),
            context: ResponseContext::default(),
        }),
        "workspace/symbol",
        13,
    );
    matches_protocol::<lsp_types::ExecuteCommandParams>(
        &process.handle_from_editor(FromEditor::WorkspaceExecuteCommand {
            params: params(),
            command: Command {
                title: "t".to_string(),
                command: "c".to_string(),
                arguments: Some(vec![json("1"), json("[null]")]),
            },
        }),
        "workspace/executeCommand",
        14,
    );
    matches_protocol::<lsp_types::ExecuteCommandParams>(
        &process.handle_from_editor(FromEditor::WorkspaceExecuteCommand {
            params: params(),
            command: Command {
                title: "t".to_string(),
                command: "c".to_string(),
                arguments: None,
            },
        }),
        "workspace/executeCommand",
        15,
    );
    matches_protocol::<lsp_types::CompletionItem>(
        &process.handle_from_editor(FromEditor::CompletionItemResolve {
            completion_item: Json::object()
                .with("label", Json::text("x"))
                .with("data", json("{\"k\":1}")),
            params: params(),
        }),
        "completionItem/resolve",
        16,
    );
    matches_protocol::<lsp_types::CallHierarchyPrepareParams>(
        &process.handle_from_editor(FromEditor::TextDocumentPrepareCallHierarchy {
            params: params(),
            direction: CallHierarchyDirection::Incoming,
        }),
        "textDocument/prepareCallHierarchy",
        17,
    );
    assert_eq!(
        process.pending_response_requests[&17].method,
        RequestMethod::PrepareCallHierarchy
    );
    assert_eq!(process.next_request_id, 18);
}

#[test]
fn notifications_match_the_protocol_types() {
    let mut process = able_process();
    let opened = process.handle_from_editor(FromEditor::TextDocumentDidOpen {
        file_path: path("/work/ä.rs"),
        language_id: "rust".to_string(),
        version: 7,
        content: "fn".to_string(),
    });
    let messages = sent(&opened);
    assert_eq!(messages.len(), 2);
    is_written_as::<lsp_types::DidOpenTextDocumentParams>(
        &opened.actions[0],
        "textDocument/didOpen",
        None,
    );
    is_written_as::<lsp_types::DocumentDiagnosticParams>(
        &opened.actions[1],
        "textDocument/diagnostic",
        Some(1),
    );
    let open: lsp_types::DidOpenTextDocumentParams =
        serde_json::from_value(messages[0]["params"].clone()).unwrap();
    assert_eq!(
        serde_json::to_value(&open).unwrap(),
        messages[0]["params"]
    );
    assert_eq!(open.text_document.uri.as_str(), "file:///work/%C3%A4.rs");
    assert_eq!(open.text_document.version, 7);
    assert_eq!(messages[1]["method"], "textDocument/diagnostic");
    let diagnostic: lsp_types::DocumentDiagnosticParams =
        serde_json::from_value(messages[1]["params"].clone()).unwrap();
    assert_eq!(
        serde_json::to_value(&diagnostic).unwrap(),
        messages[1]["params"]
    );
    let changed = process.handle_from_editor(FromEditor::TextDocumentDidChange {
        file_path: path("/work/ä.rs"),
        version: -8,
        content: "fn x".to_string(),
    });
    let messages = sent(&changed);
    assert_eq!(messages.len(), 2);
    is_written_as::<lsp_types::DidChangeTextDocumentParams>(
        &changed.actions[0],
        "textDocument/didChange",
        None,
    );
    let change: lsp_types::DidChangeTextDocumentParams =
        serde_json::from_value(messages[0]["params"].clone()).unwrap();
    assert_eq!(
        serde_json::to_value(&change).unwrap(),
        messages[0]["params"]
    );
    assert_eq!(change.text_document.version, -8);
    let saved = process.handle_from_editor(FromEditor::TextDocumentDidSave {
        file_path: path("/work/ä.rs"),
    });
    let messages = sent(&saved);
    assert_eq!(messages.len(), 2);
    is_written_as::<lsp_types::DidSaveTextDocumentParams>(
        &saved.actions[0],
        "textDocument/didSave",
        None,
    );
    assert_eq!(messages[0]["method"], "textDocument/didSave");
    let save: lsp_types::DidSaveTextDocumentParams =
        serde_json::from_value(messages[0]["params"].clone()).unwrap();
    assert_eq!(
        serde_json::to_value(&save).unwrap(),
        messages[0]["params"]
    );
    let renamed = process.handle_from_editor(FromEditor::WorkspaceDidRenameFiles {
        old: path("/work/a"),
        new: path("/work/b"),
    });
    assert_eq!(
        only_sent(&renamed),
        parsed("{\"jsonrpc\":\"2.0\",\"method\":\"workspace/didRenameFiles\",\"params\":{\"files\":[{\"oldUri\":\"/work/a\",\"newUri\":\"/work/b\"}]}}")
    );
    let created = process.handle_from_editor(FromEditor::WorkspaceDidCreateFiles {
        file_path: path("/work/c"),
    });
    assert_eq!(
        only_sent(&created),
        parsed("{\"jsonrpc\":\"2.0\",\"method\":\"workspace/didCreateFiles\",\"params\":{\"files\":[{\"uri\":\"/work/c\"}]}}")
    );
}

#[test]
fn nothing_is_sent_without_capabilities() {
    let mut process = process();
    for message in [
        FromEditor::TextDocumentHover(params()),
        FromEditor::TextDocumentDidSave {
            file_path: path("/a"),
        },
        FromEditor::TextDocumentDidChange {
            file_path: path("/a"),
            version: 1,
            content: "".to_string(),
        },
        FromEditor::CompletionItemResolve {
            completion_item: json("{\"label\":\"x\"}"),
            params: params(),
        },
        FromEditor::WorkspaceDidCreateFiles {
            file_path: path("/a"),
        },
    ] {
        let outcome = process.handle_from_editor(message);
        assert!(outcome.result.is_ok());
        assert!(outcome.actions.is_empty());
    }
    assert_eq!(process.next_request_id, 0);
}

fn answer(process: &mut LspServerProcess, id: u64, result: &str) -> Outcome {
    process.handle_reply(&json(&format!(
        "{{\"jsonrpc\":\"2.0\",\"id\":{id},\"result\":{result}}}"
    )))
}

#[test]
fn completions_carry_context_and_trigger_characters() {
    let mut process = able_process();
    let mut request = params();
    request.context = ResponseContext {
        scope: Some(Scope::Global),
        description: None,
    }
    .set_description("why");
    process.text_document_completion(request);
    let outcome = answer(
        &mut process,
        1,
        "{\"isIncomplete\":false,\"items\":[{\"label\":\"x\"}]}",
    );
    match told(outcome) {
        LspNotification::Completion {
            context,
            trigger_characters,
            items,
        } => {
            assert_eq!(context.scope, Some(Scope::Global));
            assert_eq!(context.description.unwrap(), "why");
            assert_eq!(value(&trigger_characters), parsed("[\".\",\":\"]"));
            assert_eq!(value(&items), parsed("[{\"label\":\"x\"}]"));
        }
        _ => panic!("expected completions"),
    }
    process.text_document_completion(params());
    match told(answer(&mut process, 2, "[{\"label\":\"y\"}]")) {
        LspNotification::Completion { items, .. } => {
            assert_eq!(value(&items), parsed("[{\"label\":\"y\"}]"))
        }
        _ => panic!("expected completions"),
    }
    process.text_document_completion(params());
    let outcome = answer(&mut process, 3, "[]");
    assert!(matches!(told(outcome), LspNotification::Completion { .. }));
}

#[test]
fn results_reach_the_editor() {
    let location = "{\"uri\":\"file:///a\",\"range\":{\"start\":{\"line\":0,\"character\":0},\"end\":{\"line\":0,\"character\":1}}}";
    let mut process = able_process();
    process.text_document_hover(params());
    match told(answer(&mut process, 1, "{\"contents\":\"text\"}")) {
        LspNotification::Hover(hover) => {
            assert_eq!(value(&hover), parsed("{\"contents\":\"text\"}"))
        }
        _ => panic!("expected a hover"),
    }
    process.text_document_definition(params());
    match told(answer(&mut process, 2, location)) {
        LspNotification::Definition(_, definition) => {
            assert_eq!(value(&definition), parsed(location))
        }
        _ => panic!("expected a definition"),
    }
    process.text_document_references(params(), false);
    match told(answer(&mut process, 3, &format!("[{location}]"))) {
        LspNotification::References(_, locations) => {
            assert_eq!(value(&locations), parsed(&format!("[{location}]")))
        }
        _ => panic!("expected references"),
    }
    process.text_document_rename(params(), "n".to_string());
    match told(answer(&mut process, 4, "{\"changes\":{}}")) {
        LspNotification::WorkspaceEdit { edit, respond } => {
            assert_eq!(value(&edit), parsed("{\"changes\":{}}"));
            assert!(respond.is_none());
        }
        _ => panic!("expected an edit"),
    }
    process.text_document_signature_help(params());
    match told(answer(&mut process, 5, "{\"signatures\":[]}")) {
        LspNotification::SignatureHelp(help) => {
            assert_eq!(value(&help.unwrap())["signatures"], parsed("[]"))
        }
        _ => panic!("expected signature help"),
    }
    process.text_document_document_symbol(params());
    match told(answer(&mut process, 6, "[]")) {
        LspNotification::DocumentSymbols { symbols, path } => {
            assert_eq!(value(&symbols), parsed("[]"));
            assert_eq!(path, "/work/src/a b.rs");
        }
        _ => panic!("expected symbols"),
    }
    process.workspace_symbol(ResponseContext::default(), "q".to_string());
    match told(answer(&mut process, 7, "[]")) {
        LspNotification::WorkspaceSymbols { root, .. } => assert_eq!(root, "/work"),
        _ => panic!("expected symbols"),
    }
    process.text_document_code_action(params(), vec![]);
    match told(answer(
        &mut process,
        8,
        "[{\"title\":\"a\"},{\"title\":\"b\",\"command\":\"c\"}]",
    )) {
        LspNotification::CodeAction(actions) => assert_eq!(
            value(&actions),
            parsed("[{\"title\":\"a\"},{\"title\":\"b\",\"command\":\"c\"}]")
        ),
        _ => panic!("expected code actions"),
    }
    process.completion_item_resolve(params(), json("{\"label\":\"x\"}"));
    assert!(matches!(
        told(answer(&mut process, 9, "{\"label\":\"x\",\"detail\":\"d\"}")),
        LspNotification::CompletionItemResolve(_)
    ));
    process.text_document_prepare_rename(params());
    assert!(matches!(
        told(answer(
            &mut process,
            10,
            "{\"start\":{\"line\":0,\"character\":0},\"end\":{\"line\":0,\"character\":1}}"
        )),
        LspNotification::PrepareRenameResponse(_)
    ));
    process.text_document_declaration(params());
    process.text_document_implementation(params());
    process.text_document_type_definition(params());
    for id in 11..14 {
        assert!(matches!(
            told(answer(&mut process, id, &format!("[{location}]"))),
            LspNotification::Definition(_, _)
        ));
    }
    process.workspace_execute_command(
        params(),
        Command {
            title: "t".to_string(),
            command: "c".to_string(),
            arguments: None,
        },
    );
    let outcome = answer(&mut process, 14, "17");
    assert!(outcome.result.is_ok());
    assert!(outcome.actions.is_empty());
    assert!(process.pending_response_requests.is_empty());
}

#[test]
fn pulled_diagnostics_are_published_for_their_document() {
    let mut process = able_process();
    process.text_document_did_save(path("/work/a.rs"));
    let diagnostic = "{\"range\":{\"start\":{\"line\":0,\"character\":0},\"end\":{\"line\":0,\"character\":1}},\"message\":\"m\"}";
    match told(answer(
        &mut process,
        1,
        &format!("{{\"kind\":\"full\",\"items\":[{diagnostic}]}}"),
    )) {
        LspNotification::PublishDiagnostics { server_id, params } => {
            assert_eq!(server_id, "test");
            assert_eq!(
                value(&params),
                parsed(&format!(
                    "{{\"uri\":\"file:///work/a.rs\",\"diagnostics\":[{diagnostic}]}}"
                ))
            );
        }
        _ => panic!("expected diagnostics"),
    }
    process.text_document_did_save(path("/work/a.rs"));
    let outcome = answer(
        &mut process,
        2,
        "{\"kind\":\"unchanged\",\"resultId\":\"1\"}",
    );
    assert!(outcome.result.is_ok());
    assert!(outcome.actions.is_empty());
}

#[test]
fn call_hierarchy_goes_on_in_its_direction() {
    let item = "{\"name\":\"f\",\"kind\":12,\"uri\":\"file:///a\",\"range\":{\"start\":{\"line\":0,\"character\":0},\"end\":{\"line\":0,\"character\":1}},\"selectionRange\":{\"start\":{\"line\":0,\"character\":0},\"end\":{\"line\":0,\"character\":1}}}";
    let mut process = able_process();
    process.text_document_prepare_call_hierarchy(params(), CallHierarchyDirection::Outgoing);
    let outcome = answer(&mut process, 1, &format!("[{item},{item}]"));
    let message = only_sent(&outcome);
    assert_eq!(message["method"], "callHierarchy/outgoingCalls");
    assert_eq!(message["params"], parsed(&format!("{{\"item\":{item}}}")));
    is_written_as::<lsp_types::CallHierarchyOutgoingCallsParams>(
        &outcome.actions[0],
        "callHierarchy/outgoingCalls",
        Some(2),
    );
    assert!(process.pending_call_hierarchy_directions.is_empty());
    let outcome = answer(&mut process, 2, "[]");
    assert!(matches!(
        told(outcome),
        LspNotification::CallHierarchyOutgoingCalls(_, _)
    ));
    process.text_document_prepare_call_hierarchy(params(), CallHierarchyDirection::Incoming);
    let outcome = answer(&mut process, 3, &format!("[{item}]"));
    assert_eq!(
        only_sent(&outcome)["method"],
        "callHierarchy/incomingCalls"
    );
    assert!(matches!(
        told(answer(&mut process, 4, "[]")),
        LspNotification::CallHierarchyIncomingCalls(_, _)
    ));
    process.text_document_prepare_call_hierarchy(params(), CallHierarchyDirection::Outgoing);
    let outcome = answer(&mut process, 5, "[]");
    assert!(outcome.result.is_ok());
    assert!(outcome.actions.is_empty());
}

#[test]
fn answers_that_make_no_sense_are_errors() {
    let mut process = able_process();
    process.text_document_hover(params());
    let mut error = |text: &str| process.handle_reply(&json(text)).result.unwrap_err();
    assert!(matches!(
        error("{\"jsonrpc\":\"2.0\",\"result\":1}"),
        SessionError::MissingId(_)
    ));
    let text = "{\"jsonrpc\":\"2.0\",\"result\":{\"b\":1,\"a\":[2]}}";
    assert_eq!(
        error(text).message(),
        format!("Unable to obtain ID from reply: {:#?}", parsed(text))
    );
    let failed = error("{\"jsonrpc\":\"2.0\",\"id\":\"1\",\"result\":1}");
    assert!(matches!(failed, SessionError::IdNotNumber(_)));
    assert_eq!(failed.message(), "Unable to convert String(\"1\") to u64");
    let failed = error("{\"jsonrpc\":\"2.0\",\"id\":-1,\"result\":1}");
    assert!(matches!(failed, SessionError::IdNotNumber(_)));
    assert_eq!(failed.message(), "Unable to convert Number(-1) to u64");
    let unknown = error("{\"jsonrpc\":\"2.0\",\"id\":99,\"result\":1}");
    assert_eq!(
        unknown.message(),
        "Unable to get pending response requests for request ID 99"
    );
    let failed = error("{\"jsonrpc\":\"2.0\",\"id\":1,\"error\":{\"code\":-1,\"message\":\"Cannot find module x\"}}");
    assert_eq!(failed.message(), "Reply contains field `error`.");
    assert!(failed
        .report()
        .unwrap()
        .starts_with("LSP request textDocument/hover failed: Cannot find module x\nHint: "));
    let failed = error("{\"jsonrpc\":\"2.0\",\"id\":98,\"error\":{}}");
    assert_eq!(
        failed.report().unwrap(),
        "LSP request <unknown request> failed: <missing error message>"
    );
    let failed = error("{\"jsonrpc\":\"2.0\",\"id\":1,\"result\":{\"contents\":17}}");
    assert!(matches!(failed, SessionError::WrongResult(_)));
    assert!(failed.report().is_none());
    assert_eq!(
        failed.message(),
        serde_json::from_value::<Option<lsp_types::Hover>>(parsed("{\"contents\":17}"))
            .unwrap_err()
            .to_string()
    );
    assert!(matches!(
        error("{\"jsonrpc\":\"2.0\",\"id\":1,\"result\":{\"contents\":\"x\"}}"),
        SessionError::UnknownRequest(1)
    ));
}

#[test]
fn answers_without_a_result_are_no_answers() {
    let mut process = able_process();
    process.text_document_hover(params());
    let text = "{\"jsonrpc\":\"2.0\",\"id\":1}";
    let error = process.handle_reply(&json(text)).result.unwrap_err();
    assert!(matches!(error, SessionError::NotResponse(_)));
    let fault = serde_json::from_value::<
        json_rpc_types::Response<serde_json::Value, (), String>,
    >(parsed(text))
    .err()
    .unwrap();
    assert_eq!(error.message(), format!("Serde error = {fault:?}"));
    assert!(process.pending_response_requests.is_empty());
}

#[test]
fn payload_errors_are_told_and_reported() {
    let mut process = able_process();
    process.text_document_hover(params());
    let request = process.pending_response_requests.remove(&1).unwrap();
    let outcome = process.handle_payload(
        1,
        request,
        Ok(Err(("MethodNotFound".to_string(), "no".to_string()))),
    );
    assert_eq!(outcome.actions.len(), 1);
    match &outcome.actions[0] {
        SessionAction::Notify(LspNotification::Error(text)) => {
            assert_eq!(text, "LSP JSON-RPC Error: MethodNotFound: no")
        }
        _ => panic!("expected the editor to be told"),
    }
    assert_eq!(
        outcome.result.unwrap_err().message(),
        "LSP JSON-RPC Error: Code=MethodNotFound Message=no"
    );
}

#[test]
fn messages_of_the_server_are_handled() {
    let mut process = process();
    match told(process.handle_reply(&json(
        "{\"jsonrpc\":\"2.0\",\"method\":\"textDocument/publishDiagnostics\",\"params\":{\"uri\":\"file:///a\",\"diagnostics\":[]}}",
    ))) {
        LspNotification::PublishDiagnostics { server_id, params } => {
            assert_eq!(server_id, "test");
            assert_eq!(
                value(&params),
                parsed("{\"uri\":\"file:///a\",\"diagnostics\":[]}")
            );
        }
        _ => panic!("expected diagnostics"),
    }
    let outcome = process.handle_reply(&json(
        "{\"jsonrpc\":\"2.0\",\"id\":\"x\",\"method\":\"window/workDoneProgress/create\",\"params\":{\"token\":1}}",
    ));
    assert_eq!(
        only_sent(&outcome),
        parsed("{\"jsonrpc\":\"2.0\",\"id\":\"x\",\"result\":null}")
    );
    let outcome = process.handle_reply(&json(
        "{\"jsonrpc\":\"2.0\",\"id\":4,\"method\":\"workspace/configuration\",\"params\":{\"items\":[{\"section\":\"eslint.run\"},{}]}}",
    ));
    assert_eq!(
        only_sent(&outcome),
        parsed("{\"jsonrpc\":\"2.0\",\"id\":4,\"result\":[\"onType\",null]}")
    );
    assert!(matches!(
        told(process.handle_reply(&json(
            "{\"jsonrpc\":\"2.0\",\"method\":\"window/logMessage\",\"params\":{\"type\":4,\"message\":\"m\"}}"
        ))),
        LspNotification::LogMessage(_)
    ));
    for (token, name) in [("\"t\"", "t"), ("7", "7"), ("-3", "-3")] {
        match told(process.handle_reply(&json(&format!(
            "{{\"jsonrpc\":\"2.0\",\"method\":\"$/progress\",\"params\":{{\"token\":{token},\"value\":{{\"kind\":\"begin\",\"title\":\"x\"}}}}}}"
        )))) {
            LspNotification::Progress { token, value: progress } => {
                assert_eq!(token, name);
                assert_eq!(value(&progress)["title"], "x");
            }
            _ => panic!("expected progress"),
        }
    }
    let outcome = process.handle_reply(&json(
        "{\"jsonrpc\":\"2.0\",\"method\":\"telemetry/event\",\"params\":{}}",
    ));
    assert!(outcome.result.is_ok());
    assert!(outcome.actions.is_empty());
}

#[test]
fn messages_of_the_server_that_make_no_sense_are_errors() {
    let mut process = process();
    assert!(matches!(
        process
            .handle_reply(&json(
                "{\"jsonrpc\":\"2.0\",\"method\":\"window/logMessage\"}"
            ))
            .result,
        Err(SessionError::MissingParams)
    ));
    let mut error = |text: &str| process.handle_reply(&json(text)).result.unwrap_err();
    let failed = error(
        "{\"jsonrpc\":\"2.0\",\"method\":\"window/logMessage\",\"params\":{\"message\":1}}",
    );
    assert!(matches!(failed, SessionError::WrongParams(_)));
    assert_eq!(
        failed.message(),
        serde_json::from_value::<lsp_types::LogMessageParams>(parsed("{\"message\":1}"))
            .unwrap_err()
            .to_string()
    );
    let text = "{\"jsonrpc\":\"2.0\",\"method\":17}";
    let failed = error(text);
    assert!(matches!(failed, SessionError::NotRequest(_)));
    let fault = serde_json::from_value::<Request>(parsed(text)).err().unwrap();
    assert_eq!(failed.message(), format!("Serde error = {fault:?}"));
    let text = "{\"jsonrpc\":\"2.0\",\"id\":3,\"method\":\"workspace/applyEdit\"}";
    let failed = error(text);
    assert!(matches!(failed, SessionError::MissingEdit(_)));
    let request = serde_json::from_value::<Request>(parsed(text)).unwrap();
    assert_eq!(
        failed.message(),
        format!("Unable to obtain request.params from request {request:#?}")
    );
}

#[test]
fn errors_say_what_they_are_given() {
    for (error, expected) in [
        (
            SessionError::MissingId("x".to_string()),
            "Unable to obtain ID from reply: x",
        ),
        (
            SessionError::IdNotNumber("x".to_string()),
            "Unable to convert x to u64",
        ),
        (
            SessionError::NotResponse("x".to_string()),
            "Serde error = x",
        ),
        (SessionError::NotRequest("x".to_string()), "Serde error = x"),
        (SessionError::WrongResult("x".to_string()), "x"),
        (SessionError::WrongParams("x".to_string()), "x"),
        (SessionError::MissingParams, "Missing params"),
        (
            SessionError::MissingEdit("x".to_string()),
            "Unable to obtain request.params from request x",
        ),
    ] {
        assert_eq!(error.message(), expected);
        assert!(error.report().is_none());
    }
}

#[test]
fn what_the_editor_cannot_convert_is_an_error() {
    let mut process = able_process();
    let outcome = process.conversion_failed("no such file");
    assert!(outcome.actions.is_empty());
    let error = outcome.result.unwrap_err();
    assert!(matches!(error, SessionError::NotConverted(_)));
    assert_eq!(error.message(), "no such file");
}

#[test]
fn completion_items_are_held_back_before_they_are_resolved() {
    let mut process = able_process();
    let message = || FromEditor::CompletionItemResolve {
        completion_item: json("{\"label\":\"x\"}"),
        params: params(),
    };
    let (outcome, next) = process.process_message(LspServerProcessMessage::FromEditor(message()));
    assert!(outcome.actions.is_empty());
    let held = match next {
        Continuation::HoldBack(message) => message,
        _ => panic!("expected the message to be held back"),
    };
    assert_eq!(held.variant(), "CompletionItemResolve");
    let (outcome, next) = process.process_message(LspServerProcessMessage::Throttled(held));
    assert_eq!(only_sent(&outcome)["method"], "completionItem/resolve");
    assert!(matches!(next, Continuation::Listen));
    let (outcome, next) =
        process.process_message(LspServerProcessMessage::FromEditor(FromEditor::TextDocumentHover(
            params(),
        )));
    assert_eq!(only_sent(&outcome)["method"], "textDocument/hover");
    assert!(matches!(next, Continuation::Listen));
    let (outcome, next) = process.process_message(LspServerProcessMessage::Shutdown);
    assert_eq!(sent(&outcome).len(), 2);
    assert!(matches!(next, Continuation::Stop));
}

#[test]
fn requests_that_were_not_sent_wait_for_nothing() {
    let mut process = able_process();
    process.text_document_hover(params());
    let outcome =
        process.text_document_prepare_call_hierarchy(params(), CallHierarchyDirection::Outgoing);
    assert_eq!(process.pending_response_requests.len(), 2);
    process.abandon(&outcome.actions);
    assert_eq!(process.pending_response_requests.len(), 1);
    assert!(process.pending_response_requests.contains_key(&1));
    assert!(process.pending_call_hierarchy_directions.is_empty());
    assert_eq!(process.next_request_id, 3);
}

#[test]
fn requests_give_their_numbers() {
    let mut process = able_process();
    for expected in [1, 2] {
        let (id, outcome) = process.send_request(
            RequestMethod::Hover,
            ResponseContext::default(),
            None,
            Json::Null,
        );
        assert_eq!(id, expected);
        assert_eq!(only_sent(&outcome)["id"], expected);
        let message = match &outcome.actions[0] {
            SessionAction::Send(message) => message,
            _ => panic!("expected a message"),
        };
        assert!(matches!(
            process.message_written(message, Ok(())),
            Ok(Some(number)) if number == expected
        ));
        assert!(process.pending_response_requests.contains_key(&id));
        assert!(matches!(
            process.message_written(message, Err(SendError::BrokenPipe)),
            Err(SendError::BrokenPipe)
        ));
        assert!(process.pending_response_requests.is_empty());
    }
    assert!(matches!(
        process.message_written(&json("{\"id\":1,\"result\":2}"), Ok(())),
        Ok(None)
    ));
}

#[test]
fn a_session_that_the_server_was_not_told_of_has_not_begun() {
    let mut process = process();
    process.is_initialized = false;
    process.initialize();
    let outcome = answer(&mut process, 0, "{\"capabilities\":{}}");
    assert!(process.is_initialized);
    process.abandon(&outcome.actions[1..]);
    assert!(process.is_initialized);
    process.abandon(&outcome.actions);
    assert!(!process.is_initialized);
}

#[test]
fn requests_are_answered_once() {
    let mut process = able_process();
    process.text_document_hover(params());
    assert!(answer(&mut process, 1, "{\"contents\":\"x\"}").result.is_ok());
    assert!(matches!(
        answer(&mut process, 1, "{\"contents\":\"x\"}").result,
        Err(SessionError::UnknownRequest(1))
    ));
}

#[test]
fn results_of_the_wrong_shape_are_refused() {
    let methods = [
        RequestMethod::Initialize,
        RequestMethod::Completion,
        RequestMethod::Hover,
        RequestMethod::Diagnostic,
        RequestMethod::Definition,
        RequestMethod::References,
        RequestMethod::Declaration,
        RequestMethod::TypeDefinition,
        RequestMethod::Implementation,
        RequestMethod::PrepareRename,
        RequestMethod::Rename,
        RequestMethod::CodeAction,
        RequestMethod::CodeActionResolve,
        RequestMethod::SignatureHelp,
        RequestMethod::DocumentSymbol,
        RequestMethod::CompletionItemResolve,
        RequestMethod::WorkspaceSymbol,
        RequestMethod::PrepareCallHierarchy,
        RequestMethod::IncomingCalls,
        RequestMethod::OutgoingCalls,
    ];
    for method in methods {
        assert!(decode_result(method, &json("17")).is_err());
    }
    for method in [RequestMethod::Shutdown, RequestMethod::ExecuteCommand] {
        assert_eq!(value(&decode_result(method, &json("17")).unwrap()), 17);
    }
    for method in [
        RequestMethod::Completion,
        RequestMethod::Hover,
        RequestMethod::Definition,
        RequestMethod::SignatureHelp,
    ] {
        assert!(decode_result(method, &json("null")).unwrap().is_null());
    }
    for kind in [
        ParamsKind::PublishDiagnostics,
        ParamsKind::ApplyEdit,
        ParamsKind::Configuration,
        ParamsKind::LogMessage,
        ParamsKind::ShowMessage,
        ParamsKind::Progress,
    ] {
        assert!(decode_params(kind, &json("17")).is_err());
    }
}

#[test]
fn members_that_the_protocol_does_not_know_are_dropped() {
    let hover = decode_result(
        RequestMethod::Hover,
        &json("{\"contents\":\"x\",\"unknown\":1}"),
    )
    .unwrap();
    assert_eq!(value(&hover), parsed("{\"contents\":\"x\"}"));
}

#[test]
fn responses_and_requests_are_taken_apart() {
    match decode_response(&json(
        "{\"jsonrpc\":\"2.0\",\"id\":1,\"error\":{\"code\":-32601,\"message\":\"no\"}}",
    )) {
        Ok(Err((code, message))) => {
            assert_eq!(code, "MethodNotFound");
            assert_eq!(message, "no");
        }
        _ => panic!("expected an error"),
    }
    match decode_response(&json("{\"jsonrpc\":\"2.0\",\"id\":1,\"result\":[1]}")) {
        Ok(Ok(result)) => assert_eq!(value(&result), parsed("[1]")),
        _ => panic!("expected a result"),
    }
    assert!(decode_response(&json("17")).is_err());
    let request = decode_request(&json(
        "{\"jsonrpc\":\"2.0\",\"id\":3,\"method\":\"m\",\"params\":{\"a\":1}}",
    ))
    .unwrap();
    assert_eq!(request.method, "m");
    assert!(matches!(request.id, Some(MessageId::Number(3))));
    assert_eq!(value(&request.params.unwrap()), parsed("{\"a\":1}"));
}

#[test]
fn copies_of_messages_do_the_same() {
    let messages = vec![
        FromEditor::TextDocumentHover(params()),
        FromEditor::TextDocumentDidOpen {
            file_path: path("/work/a"),
            language_id: "l".to_string(),
            version: 3,
            content: "c".to_string(),
        },
        FromEditor::TextDocumentCodeAction {
            params: params(),
            diagnostics: vec![json("1")],
        },
        FromEditor::WorkspaceExecuteCommand {
            params: params(),
            command: Command {
                title: "t".to_string(),
                command: "c".to_string(),
                arguments: Some(vec![json("[2]")]),
            },
        },
        FromEditor::CodeActionResolve {
            code_action: json("{\"title\":\"t\"}"),
            params: params(),
        },
    ];
    for message in messages {
        let copy = message.copy();
        assert_eq!(copy.variant(), message.variant());
        let first = sent(&able_process().handle_from_editor(message));
        let second = sent(&able_process().handle_from_editor(copy));
        assert!(!first.is_empty());
        assert_eq!(first, second);
    }
}
