//! The messages that a session sends to a server, as JSON. The members of objects come in the order
//! in which `lsp_types` and `json_rpc_types` have them.

use crate::json::{Json, JsonSpec};
use crate::lsp::decode::id_view;
use crate::lsp::protocol::{MessageId, Position};
use vstd::prelude::*;

verus! {

/// The code of the error that a method is not known.
pub const METHOD_NOT_FOUND: i32 = -32601;

/// A place in a document.
pub open spec fn position_json(position: Position) -> JsonSpec {
    JsonSpec::object()
        .with("line"@, JsonSpec::Unsigned(position.line as u64))
        .with("character"@, JsonSpec::Unsigned(position.character as u64))
}

/// A place in a document.
pub fn make_position_json(position: Position) -> (json: Json)
    ensures
        json@ == position_json(position),
{
    Json::object()
        .with("line", Json::Unsigned(position.line as u64))
        .with("character", Json::Unsigned(position.character as u64))
}

/// What lies between two places of a document.
pub open spec fn range_json(start: Position, end: Position) -> JsonSpec {
    JsonSpec::object()
        .with("start"@, position_json(start))
        .with("end"@, position_json(end))
}

/// What lies between two places of a document.
pub fn make_range_json(start: Position, end: Position) -> (json: Json)
    ensures
        json@ == range_json(start, end),
{
    Json::object()
        .with("start", make_position_json(start))
        .with("end", make_position_json(end))
}

/// A document, by its URI.
pub open spec fn document_json(uri: Seq<char>) -> JsonSpec {
    JsonSpec::object()
        .with("uri"@, JsonSpec::Text(uri))
}

/// A document, by its URI.
pub fn make_document_json(uri: &str) -> (json: Json)
    ensures
        json@ == document_json(uri@),
{
    Json::object()
        .with("uri", Json::text(uri))
}

/// The parameters of a request about a place in a document.
pub open spec fn position_params(uri: Seq<char>, position: Position) -> JsonSpec {
    JsonSpec::object()
        .with("textDocument"@, document_json(uri))
        .with("position"@, position_json(position))
}

/// The parameters of a request about a place in a document.
pub fn make_position_params(uri: &str, position: Position) -> (json: Json)
    ensures
        json@ == position_params(uri@, position),
{
    Json::object()
        .with("textDocument", make_document_json(uri))
        .with("position", make_position_json(position))
}

/// The parameters of a message about a document.
pub open spec fn document_params(uri: Seq<char>) -> JsonSpec {
    JsonSpec::object()
        .with("textDocument"@, document_json(uri))
}

/// The parameters of a message about a document.
pub fn make_document_params(uri: &str) -> (json: Json)
    ensures
        json@ == document_params(uri@),
{
    Json::object()
        .with("textDocument", make_document_json(uri))
}

/// The parameters of `textDocument/references`.
pub open spec fn references_params(
    uri: Seq<char>,
    position: Position,
    include_declaration: bool,
) -> JsonSpec {
    JsonSpec::object()
        .with("textDocument"@, document_json(uri))
        .with("position"@, position_json(position))
        .with("context"@, JsonSpec::object()
                .with("includeDeclaration"@, JsonSpec::Bool(include_declaration)))
}

/// The parameters of `textDocument/references`.
pub fn make_references_params(
    uri: &str,
    position: Position,
    include_declaration: bool,
) -> (json: Json)
    ensures
        json@ == references_params(uri@, position, include_declaration),
{
    Json::object()
        .with("textDocument", make_document_json(uri))
        .with("position", make_position_json(position))
        .with("context", Json::object()
                .with("includeDeclaration", Json::Bool(include_declaration)))
}

/// The parameters of `textDocument/rename`.
pub open spec fn rename_params(
    uri: Seq<char>,
    position: Position,
    new_name: Seq<char>,
) -> JsonSpec {
    JsonSpec::object()
        .with("textDocument"@, document_json(uri))
        .with("position"@, position_json(position))
        .with("newName"@, JsonSpec::Text(new_name))
}

/// The parameters of `textDocument/rename`.
pub fn make_rename_params(uri: &str, position: Position, new_name: &str) -> (json: Json)
    ensures
        json@ == rename_params(uri@, position, new_name@),
{
    Json::object()
        .with("textDocument", make_document_json(uri))
        .with("position", make_position_json(position))
        .with("newName", Json::text(new_name))
}

/// The parameters of `textDocument/codeAction`.
pub open spec fn code_action_params(
    uri: Seq<char>,
    start: Position,
    end: Position,
    diagnostics: JsonSpec,
) -> JsonSpec {
    JsonSpec::object()
        .with("textDocument"@, document_json(uri))
        .with("range"@, range_json(start, end))
        .with("context"@, JsonSpec::object()
                .with("diagnostics"@, diagnostics))
}

/// The parameters of `textDocument/codeAction`.
pub fn make_code_action_params(
    uri: &str,
    start: Position,
    end: Position,
    diagnostics: Json,
) -> (json: Json)
    ensures
        json@ == code_action_params(uri@, start, end, diagnostics@),
{
    Json::object()
        .with("textDocument", make_document_json(uri))
        .with("range", make_range_json(start, end))
        .with("context", Json::object()
                .with("diagnostics", diagnostics))
}

/// The parameters of `textDocument/diagnostic`.
pub open spec fn diagnostic_params(uri: Seq<char>) -> JsonSpec {
    JsonSpec::object()
        .with("textDocument"@, document_json(uri))
        .with("identifier"@, JsonSpec::Null)
        .with("previousResultId"@, JsonSpec::Null)
}

/// The parameters of `textDocument/diagnostic`.
pub fn make_diagnostic_params(uri: &str) -> (json: Json)
    ensures
        json@ == diagnostic_params(uri@),
{
    Json::object()
        .with("textDocument", make_document_json(uri))
        .with("identifier", Json::Null)
        .with("previousResultId", Json::Null)
}

/// The parameters of `workspace/symbol`.
pub open spec fn symbol_params(query: Seq<char>) -> JsonSpec {
    JsonSpec::object()
        .with("query"@, JsonSpec::Text(query))
}

/// The parameters of `workspace/symbol`.
pub fn make_symbol_params(query: &str) -> (json: Json)
    ensures
        json@ == symbol_params(query@),
{
    Json::object()
        .with("query", Json::text(query))
}

/// The parameters of `workspace/executeCommand`.
pub open spec fn command_params(command: Seq<char>, arguments: JsonSpec) -> JsonSpec {
    JsonSpec::object()
        .with("command"@, JsonSpec::Text(command))
        .with("arguments"@, arguments)
}

/// The parameters of `workspace/executeCommand`.
pub fn make_command_params(command: &str, arguments: Json) -> (json: Json)
    ensures
        json@ == command_params(command@, arguments@),
{
    Json::object()
        .with("command", Json::text(command))
        .with("arguments", arguments)
}

/// The parameters of a request about an item of a call hierarchy.
pub open spec fn item_params(item: JsonSpec) -> JsonSpec {
    JsonSpec::object()
        .with("item"@, item)
}

/// The parameters of a request about an item of a call hierarchy.
pub fn make_item_params(item: Json) -> (json: Json)
    ensures
        json@ == item_params(item@),
{
    Json::object()
        .with("item", item)
}

/// The parameters of `textDocument/didOpen`.
pub open spec fn did_open_params(
    uri: Seq<char>,
    language_id: Seq<char>,
    version: i32,
    text: Seq<char>,
) -> JsonSpec {
    JsonSpec::object()
        .with("textDocument"@, JsonSpec::object()
                .with("uri"@, JsonSpec::Text(uri))
                .with("languageId"@, JsonSpec::Text(language_id))
                .with("version"@, JsonSpec::integer(version as int))
                .with("text"@, JsonSpec::Text(text)))
}

/// The parameters of `textDocument/didOpen`.
pub fn make_did_open_params(uri: &str, language_id: &str, version: i32, text: &str) -> (json: Json)
    ensures
        json@ == did_open_params(uri@, language_id@, version, text@),
{
    Json::object()
        .with("textDocument", Json::object()
                .with("uri", Json::text(uri))
                .with("languageId", Json::text(language_id))
                .with("version", Json::integer(version as i64))
                .with("text", Json::text(text)))
}

/// A change of a document, as its whole new text.
pub open spec fn full_change(text: Seq<char>) -> JsonSpec {
    JsonSpec::object()
        .with("text"@, JsonSpec::Text(text))
}

/// A change of a document, as its whole new text.
pub fn make_full_change(text: &str) -> (json: Json)
    ensures
        json@ == full_change(text@),
{
    Json::object()
        .with("text", Json::text(text))
}

/// A change of a document, as the new text of what lay before `end`.
pub open spec fn ranged_change(end: Position, text: Seq<char>) -> JsonSpec {
    JsonSpec::object()
        .with("range"@, JsonSpec::object()
                .with("start"@, JsonSpec::object()
                        .with("line"@, JsonSpec::Unsigned(0))
                        .with("character"@, JsonSpec::Unsigned(0)))
                .with("end"@, position_json(end)))
        .with("text"@, JsonSpec::Text(text))
}

/// A change of a document, as the new text of what lay before `end`.
pub fn make_ranged_change(end: Position, text: &str) -> (json: Json)
    ensures
        json@ == ranged_change(end, text@),
{
    Json::object()
        .with("range", Json::object()
                .with("start", Json::object()
                        .with("line", Json::Unsigned(0))
                        .with("character", Json::Unsigned(0)))
                .with("end", make_position_json(end)))
        .with("text", Json::text(text))
}

/// The parameters of `textDocument/didChange`, with one change.
pub open spec fn did_change_params(uri: Seq<char>, version: i32, change: JsonSpec) -> JsonSpec {
    JsonSpec::object()
        .with("textDocument"@, JsonSpec::object()
                .with("uri"@, JsonSpec::Text(uri))
                .with("version"@, JsonSpec::integer(version as int)))
        .with("contentChanges"@, JsonSpec::array()
                .item(change))
}

/// The parameters of `textDocument/didChange`, with one change.
pub fn make_did_change_params(uri: &str, version: i32, change: Json) -> (json: Json)
    ensures
        json@ == did_change_params(uri@, version, change@),
{
    Json::object()
        .with("textDocument", Json::object()
                .with("uri", Json::text(uri))
                .with("version", Json::integer(version as i64)))
        .with("contentChanges", Json::array()
                .item(change))
}

/// The parameters of `workspace/didRenameFiles`, with one file.
pub open spec fn did_rename_params(old: Seq<char>, new: Seq<char>) -> JsonSpec {
    JsonSpec::object()
        .with("files"@, JsonSpec::array()
                .item(JsonSpec::object()
                        .with("oldUri"@, JsonSpec::Text(old))
                        .with("newUri"@, JsonSpec::Text(new))))
}

/// The parameters of `workspace/didRenameFiles`, with one file.
pub fn make_did_rename_params(old: &str, new: &str) -> (json: Json)
    ensures
        json@ == did_rename_params(old@, new@),
{
    Json::object()
        .with("files", Json::array()
                .item(Json::object()
                        .with("oldUri", Json::text(old))
                        .with("newUri", Json::text(new))))
}

/// The parameters of `workspace/didCreateFiles`, with one file.
pub open spec fn did_create_params(file: Seq<char>) -> JsonSpec {
    JsonSpec::object()
        .with("files"@, JsonSpec::array()
                .item(JsonSpec::object()
                        .with("uri"@, JsonSpec::Text(file))))
}

/// The parameters of `workspace/didCreateFiles`, with one file.
pub fn make_did_create_params(file: &str) -> (json: Json)
    ensures
        json@ == did_create_params(file@),
{
    Json::object()
        .with("files", Json::array()
                .item(Json::object()
                        .with("uri", Json::text(file))))
}

/// The diagnostics of a document.
pub open spec fn diagnostics_of(uri: Seq<char>, diagnostics: JsonSpec) -> JsonSpec {
    JsonSpec::object()
        .with("uri"@, JsonSpec::Text(uri))
        .with("diagnostics"@, diagnostics)
}

/// The diagnostics of a document.
pub fn make_diagnostics_of(uri: &str, diagnostics: Json) -> (json: Json)
    ensures
        json@ == diagnostics_of(uri@, diagnostics@),
{
    Json::object()
        .with("uri", Json::text(uri))
        .with("diagnostics", diagnostics)
}

/// A request to a server.
pub open spec fn request(method: Seq<char>, params: JsonSpec, id: u64) -> JsonSpec {
    JsonSpec::object()
        .with("jsonrpc"@, JsonSpec::Text("2.0"@))
        .with("method"@, JsonSpec::Text(method))
        .with("params"@, params)
        .with("id"@, JsonSpec::Unsigned(id as u64))
}

/// A request to a server.
pub fn make_request(method: &str, params: Json, id: u64) -> (json: Json)
    ensures
        json@ == request(method@, params@, id),
{
    Json::object()
        .with("jsonrpc", Json::text("2.0"))
        .with("method", Json::text(method))
        .with("params", params)
        .with("id", Json::Unsigned(id as u64))
}

/// A message to a server that wants no answer.
pub open spec fn notification(method: Seq<char>, params: JsonSpec) -> JsonSpec {
    JsonSpec::object()
        .with("jsonrpc"@, JsonSpec::Text("2.0"@))
        .with("method"@, JsonSpec::Text(method))
        .with("params"@, params)
}

/// A message to a server that wants no answer.
pub fn make_notification(method: &str, params: Json) -> (json: Json)
    ensures
        json@ == notification(method@, params@),
{
    Json::object()
        .with("jsonrpc", Json::text("2.0"))
        .with("method", Json::text(method))
        .with("params", params)
}

/// An answer to a request of a server.
pub open spec fn reply(id: JsonSpec, result: JsonSpec) -> JsonSpec {
    JsonSpec::object()
        .with("jsonrpc"@, JsonSpec::Text("2.0"@))
        .with("id"@, id)
        .with("result"@, result)
}

/// An answer to a request of a server.
pub fn make_reply(id: Json, result: Json) -> (json: Json)
    ensures
        json@ == reply(id@, result@),
{
    Json::object()
        .with("jsonrpc", Json::text("2.0"))
        .with("id", id)
        .with("result", result)
}

/// The refusal of a request of a server.
pub open spec fn error_reply(id: JsonSpec, code: i32, message: Seq<char>) -> JsonSpec {
    JsonSpec::object()
        .with("jsonrpc"@, JsonSpec::Text("2.0"@))
        .with("id"@, id)
        .with("error"@, JsonSpec::object()
                .with("code"@, JsonSpec::integer(code as int))
                .with("message"@, JsonSpec::Text(message)))
}

/// The refusal of a request of a server.
pub fn make_error_reply(id: Json, code: i32, message: &str) -> (json: Json)
    ensures
        json@ == error_reply(id@, code, message@),
{
    Json::object()
        .with("jsonrpc", Json::text("2.0"))
        .with("id", id)
        .with("error", Json::object()
                .with("code", Json::integer(code as i64))
                .with("message", Json::text(message)))
}

/// The answer to a request to apply an edit, where it was applied.
pub open spec fn edit_applied() -> JsonSpec {
    JsonSpec::object()
        .with("applied"@, JsonSpec::Bool(true))
}

/// The answer to a request to apply an edit, where it was applied.
pub fn make_edit_applied() -> (json: Json)
    ensures
        json@ == edit_applied(),
{
    Json::object()
        .with("applied", Json::Bool(true))
}

/// The answer to a request to apply an edit, where that failed.
pub open spec fn edit_failed(reason: Seq<char>) -> JsonSpec {
    JsonSpec::object()
        .with("applied"@, JsonSpec::Bool(false))
        .with("failureReason"@, JsonSpec::Text(reason))
}

/// The answer to a request to apply an edit, where that failed.
pub fn make_edit_failed(reason: &str) -> (json: Json)
    ensures
        json@ == edit_failed(reason@),
{
    Json::object()
        .with("applied", Json::Bool(false))
        .with("failureReason", Json::text(reason))
}

/// What the editor can do for a workspace.
pub open spec fn workspace_abilities() -> JsonSpec {
    JsonSpec::object()
        .with("applyEdit"@, JsonSpec::Bool(true))
        .with("workspaceEdit"@, JsonSpec::object()
                .with("documentChanges"@, JsonSpec::Bool(true))
                .with("resourceOperations"@, JsonSpec::array()
                        .item(JsonSpec::Text("rename"@))
                        .item(JsonSpec::Text("create"@))
                        .item(JsonSpec::Text("delete"@))))
        .with("symbol"@, JsonSpec::object())
        .with("executeCommand"@, JsonSpec::object())
        .with("configuration"@, JsonSpec::Bool(true))
        .with("fileOperations"@, JsonSpec::object()
                .with("didCreate"@, JsonSpec::Bool(true))
                .with("didRename"@, JsonSpec::Bool(true)))
}

/// What the editor can do for a workspace.
pub fn make_workspace_abilities() -> (json: Json)
    ensures
        json@ == workspace_abilities(),
{
    Json::object()
        .with("applyEdit", Json::Bool(true))
        .with("workspaceEdit", Json::object()
                .with("documentChanges", Json::Bool(true))
                .with("resourceOperations", Json::array()
                        .item(Json::text("rename"))
                        .item(Json::text("create"))
                        .item(Json::text("delete"))))
        .with("symbol", Json::object())
        .with("executeCommand", Json::object())
        .with("configuration", Json::Bool(true))
        .with("fileOperations", Json::object()
                .with("didCreate", Json::Bool(true))
                .with("didRename", Json::Bool(true)))
}

/// What diagnostics the editor takes.
pub open spec fn diagnostics_abilities() -> JsonSpec {
    JsonSpec::object()
        .with("relatedInformation"@, JsonSpec::Bool(true))
        .with("tagSupport"@, JsonSpec::object()
                .with("valueSet"@, JsonSpec::array()
                        .item(JsonSpec::Unsigned(2))
                        .item(JsonSpec::Unsigned(1))))
        .with("codeDescriptionSupport"@, JsonSpec::Bool(true))
}

/// What diagnostics the editor takes.
pub fn make_diagnostics_abilities() -> (json: Json)
    ensures
        json@ == diagnostics_abilities(),
{
    Json::object()
        .with("relatedInformation", Json::Bool(true))
        .with("tagSupport", Json::object()
                .with("valueSet", Json::array()
                        .item(Json::Unsigned(2))
                        .item(Json::Unsigned(1))))
        .with("codeDescriptionSupport", Json::Bool(true))
}

/// What completions the editor takes.
pub open spec fn completion_abilities() -> JsonSpec {
    JsonSpec::object()
        .with("completionItem"@, JsonSpec::object()
                .with("resolveSupport"@, JsonSpec::object()
                        .with("properties"@, JsonSpec::array()
                                .item(JsonSpec::Text("textEdit"@))
                                .item(JsonSpec::Text("additionalTextEdits"@)))))
        .with("completionItemKind"@, JsonSpec::object())
}

/// What completions the editor takes.
pub fn make_completion_abilities() -> (json: Json)
    ensures
        json@ == completion_abilities(),
{
    Json::object()
        .with("completionItem", Json::object()
                .with("resolveSupport", Json::object()
                        .with("properties", Json::array()
                                .item(Json::text("textEdit"))
                                .item(Json::text("additionalTextEdits")))))
        .with("completionItemKind", Json::object())
}

/// What code actions the editor takes.
pub open spec fn code_action_abilities() -> JsonSpec {
    JsonSpec::object()
        .with("codeActionLiteralSupport"@, JsonSpec::object()
                .with("codeActionKind"@, JsonSpec::object()
                        .with("valueSet"@, JsonSpec::array()
                                .item(JsonSpec::Text(""@))
                                .item(JsonSpec::Text("quickfix"@))
                                .item(JsonSpec::Text("refactor"@))
                                .item(JsonSpec::Text("refactor.extract"@))
                                .item(JsonSpec::Text("refactor.inline"@))
                                .item(JsonSpec::Text("refactor.rewrite"@))
                                .item(JsonSpec::Text("source"@))
                                .item(JsonSpec::Text("source.organizeImports"@))
                                .item(JsonSpec::Text("source.fixAll"@)))))
        .with("dataSupport"@, JsonSpec::Bool(true))
        .with("resolveSupport"@, JsonSpec::object()
                .with("properties"@, JsonSpec::array()
                        .item(JsonSpec::Text("edit"@))))
}

/// What code actions the editor takes.
pub fn make_code_action_abilities() -> (json: Json)
    ensures
        json@ == code_action_abilities(),
{
    Json::object()
        .with("codeActionLiteralSupport", Json::object()
                .with("codeActionKind", Json::object()
                        .with("valueSet", Json::array()
                                .item(Json::text(""))
                                .item(Json::text("quickfix"))
                                .item(Json::text("refactor"))
                                .item(Json::text("refactor.extract"))
                                .item(Json::text("refactor.inline"))
                                .item(Json::text("refactor.rewrite"))
                                .item(Json::text("source"))
                                .item(Json::text("source.organizeImports"))
                                .item(Json::text("source.fixAll")))))
        .with("dataSupport", Json::Bool(true))
        .with("resolveSupport", Json::object()
                .with("properties", Json::array()
                        .item(Json::text("edit"))))
}

/// What signatures the editor takes.
pub open spec fn signature_abilities() -> JsonSpec {
    JsonSpec::object()
        .with("signatureInformation"@, JsonSpec::object()
                .with("documentationFormat"@, JsonSpec::array()
                        .item(JsonSpec::Text("plaintext"@)))
                .with("parameterInformation"@, JsonSpec::object()
                        .with("labelOffsetSupport"@, JsonSpec::Bool(true)))
                .with("activeParameterSupport"@, JsonSpec::Bool(true)))
}

/// What signatures the editor takes.
pub fn make_signature_abilities() -> (json: Json)
    ensures
        json@ == signature_abilities(),
{
    Json::object()
        .with("signatureInformation", Json::object()
                .with("documentationFormat", Json::array()
                        .item(Json::text("plaintext")))
                .with("parameterInformation", Json::object()
                        .with("labelOffsetSupport", Json::Bool(true)))
                .with("activeParameterSupport", Json::Bool(true)))
}

/// What the editor can do for a document.
pub open spec fn document_abilities() -> JsonSpec {
    JsonSpec::object()
        .with("completion"@, completion_abilities())
        .with("hover"@, JsonSpec::object()
                .with("contentFormat"@, JsonSpec::array()
                        .item(JsonSpec::Text("plaintext"@))))
        .with("signatureHelp"@, signature_abilities())
        .with("declaration"@, JsonSpec::object()
                .with("dynamicRegistration"@, JsonSpec::Bool(true)))
        .with("codeAction"@, code_action_abilities())
        .with("rename"@, JsonSpec::object()
                .with("prepareSupport"@, JsonSpec::Bool(true)))
        .with("publishDiagnostics"@, diagnostics_abilities())
        .with("callHierarchy"@, JsonSpec::object()
                .with("dynamicRegistration"@, JsonSpec::Bool(true)))
        .with("diagnostic"@, JsonSpec::object()
                .with("dynamicRegistration"@, JsonSpec::Bool(false))
                .with("relatedDocumentSupport"@, JsonSpec::Bool(false)))
}

/// What the editor can do for a document.
pub fn make_document_abilities() -> (json: Json)
    ensures
        json@ == document_abilities(),
{
    Json::object()
        .with("completion", make_completion_abilities())
        .with("hover", Json::object()
                .with("contentFormat", Json::array()
                        .item(Json::text("plaintext"))))
        .with("signatureHelp", make_signature_abilities())
        .with("declaration", Json::object()
                .with("dynamicRegistration", Json::Bool(true)))
        .with("codeAction", make_code_action_abilities())
        .with("rename", Json::object()
                .with("prepareSupport", Json::Bool(true)))
        .with("publishDiagnostics", make_diagnostics_abilities())
        .with("callHierarchy", Json::object()
                .with("dynamicRegistration", Json::Bool(true)))
        .with("diagnostic", Json::object()
                .with("dynamicRegistration", Json::Bool(false))
                .with("relatedDocumentSupport", Json::Bool(false)))
}

/// What the editor can do.
pub open spec fn client_abilities() -> JsonSpec {
    JsonSpec::object()
        .with("workspace"@, workspace_abilities())
        .with("textDocument"@, document_abilities())
        .with("window"@, JsonSpec::object()
                .with("workDoneProgress"@, JsonSpec::Bool(true)))
}

/// What the editor can do.
pub fn make_client_abilities() -> (json: Json)
    ensures
        json@ == client_abilities(),
{
    Json::object()
        .with("workspace", make_workspace_abilities())
        .with("textDocument", make_document_abilities())
        .with("window", Json::object()
                .with("workDoneProgress", Json::Bool(true)))
}

/// The parameters of `initialize`, for the workspace whose root has the URI `root`.
pub open spec fn initialize_params(root: Seq<char>, options: Option<JsonSpec>) -> JsonSpec {
    JsonSpec::object()
        .with("processId"@, JsonSpec::Null)
        .with("rootUri"@, JsonSpec::Text(root))
        .with_some("initializationOptions"@, options)
        .with("capabilities"@, client_abilities())
        .with("workspaceFolders"@, JsonSpec::array()
                .item(JsonSpec::object()
                        .with("uri"@, JsonSpec::Text(root))
                        .with("name"@, JsonSpec::Text("root"@))))
}

/// The parameters of `initialize`, for the workspace whose root has the URI `root`.
pub fn make_initialize_params(root: &str, options: Option<Json>) -> (json: Json)
    ensures
        json@ == initialize_params(
            root@,
            match options {
                Some(options) => Some(options@),
                None => None,
            },
        ),
{
    Json::object()
        .with("processId", Json::Null)
        .with("rootUri", Json::text(root))
        .with_some("initializationOptions", options)
        .with("capabilities", make_client_abilities())
        .with("workspaceFolders", Json::array()
                .item(Json::object()
                        .with("uri", Json::text(root))
                        .with("name", Json::text("root"))))
}

/// A place in a document, with its members in the order of the protocol.
pub open spec fn ordered_position(position: JsonSpec) -> JsonSpec {
    JsonSpec::object()
        .with_some("line"@, position.get("line"@))
        .with_some("character"@, position.get("character"@))
}

fn make_ordered_position(position: &Json) -> (json: Json)
    ensures
        json@ == ordered_position(position@),
{
    Json::object()
        .with_some("line", position.get_copy("line"))
        .with_some("character", position.get_copy("character"))
}

/// What lies between two places of a document, with its members in the order of the protocol.
pub open spec fn ordered_range(range: JsonSpec) -> JsonSpec {
    JsonSpec::object()
        .with_some(
            "start"@,
            match range.get("start"@) {
                Some(start) => Some(ordered_position(start)),
                None => None,
            },
        )
        .with_some(
            "end"@,
            match range.get("end"@) {
                Some(end) => Some(ordered_position(end)),
                None => None,
            },
        )
}

fn make_ordered_range(range: &Json) -> (json: Json)
    ensures
        json@ == ordered_range(range@),
{
    let start = match range.get("start") {
        Some(start) => Some(make_ordered_position(start)),
        None => None,
    };
    let end = match range.get("end") {
        Some(end) => Some(make_ordered_position(end)),
        None => None,
    };
    Json::object()
        .with_some("start", start)
        .with_some("end", end)
}

/// An item of a call hierarchy, with its members in the order of the protocol.
pub open spec fn ordered_call_item(item: JsonSpec) -> JsonSpec {
    JsonSpec::object()
        .with_some("name"@, item.get("name"@))
        .with_some("kind"@, item.get("kind"@))
        .with_some("tags"@, item.get("tags"@))
        .with_some("detail"@, item.get("detail"@))
        .with_some("uri"@, item.get("uri"@))
        .with_some(
            "range"@,
            match item.get("range"@) {
                Some(range) => Some(ordered_range(range)),
                None => None,
            },
        )
        .with_some(
            "selectionRange"@,
            match item.get("selectionRange"@) {
                Some(range) => Some(ordered_range(range)),
                None => None,
            },
        )
        .with_some("data"@, item.get("data"@))
}

/// An item of a call hierarchy, with its members in the order of the protocol.
pub fn make_ordered_call_item(item: &Json) -> (json: Json)
    ensures
        json@ == ordered_call_item(item@),
{
    let range = match item.get("range") {
        Some(range) => Some(make_ordered_range(range)),
        None => None,
    };
    let selection_range = match item.get("selectionRange") {
        Some(range) => Some(make_ordered_range(range)),
        None => None,
    };
    Json::object()
        .with_some("name", item.get_copy("name"))
        .with_some("kind", item.get_copy("kind"))
        .with_some("tags", item.get_copy("tags"))
        .with_some("detail", item.get_copy("detail"))
        .with_some("uri", item.get_copy("uri"))
        .with_some("range", range)
        .with_some("selectionRange", selection_range)
        .with_some("data", item.get_copy("data"))
}

/// How a request of a server is named in its answer.
pub open spec fn id_json(id: Option<MessageId<Seq<char>>>) -> JsonSpec {
    match id {
        Some(MessageId::Number(number)) => JsonSpec::Unsigned(number),
        Some(MessageId::Text(text)) => JsonSpec::Text(text),
        None => JsonSpec::Null,
    }
}

/// How a request of a server is named in its answer.
pub fn make_id_json(id: Option<MessageId<String>>) -> (json: Json)
    ensures
        json@ == id_json(id_view(id)),
{
    match id {
        Some(MessageId::Number(number)) => Json::Unsigned(number),
        Some(MessageId::Text(text)) => Json::Text(text),
        None => Json::Null,
    }
}

} // verus!
