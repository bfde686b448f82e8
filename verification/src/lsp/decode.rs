//! The messages of a server, checked against the types of the protocol.
//!
//! `lsp_types` and `json_rpc_types` say which JSON has the shape that the protocol asks for. What
//! has it comes back as JSON, written the way those crates write it: members that are absent or
//! unknown to the protocol are left out.

use crate::json::{by_name, json_from_value, json_to_value, value_content, Json, JsonSpec};
use crate::lsp::protocol::{MessageId, RequestMethod};
use vstd::prelude::*;

verus! {

/// A request or a notification of a server. `J` is how JSON is held and `T` how texts are.
pub struct RpcRequest<J, T> {
    pub method: T,
    pub params: Option<J>,
    pub id: Option<MessageId<T>>,
}

/// What `lsp_types` makes of a value as the result of `initialize`, or what is wrong with its
/// shape.
pub uninterp spec fn decoded_initialize(content: JsonSpec) -> Result<JsonSpec, Seq<char>>;

/// What `lsp_types` makes of a value as the result of `textDocument/completion`, or what is wrong
/// with its shape.
pub uninterp spec fn decoded_completion(content: JsonSpec) -> Result<JsonSpec, Seq<char>>;

/// What `lsp_types` makes of a value as the result of `textDocument/hover`, or what is wrong with
/// its shape.
pub uninterp spec fn decoded_hover(content: JsonSpec) -> Result<JsonSpec, Seq<char>>;

/// What `lsp_types` makes of a value as the result of `textDocument/diagnostic`, or what is wrong
/// with its shape.
pub uninterp spec fn decoded_diagnostic(content: JsonSpec) -> Result<JsonSpec, Seq<char>>;

/// What `lsp_types` makes of a value as the result of `textDocument/definition` and of the requests
/// like it, or what is wrong with its shape.
pub uninterp spec fn decoded_definition(content: JsonSpec) -> Result<JsonSpec, Seq<char>>;

/// What `lsp_types` makes of a value as the result of `textDocument/references`, or what is wrong
/// with its shape.
pub uninterp spec fn decoded_locations(content: JsonSpec) -> Result<JsonSpec, Seq<char>>;

/// What `lsp_types` makes of a value as the result of `textDocument/prepareRename`, or what is
/// wrong with its shape.
pub uninterp spec fn decoded_prepare_rename(content: JsonSpec) -> Result<JsonSpec, Seq<char>>;

/// What `lsp_types` makes of a value as the result of `textDocument/rename`, or what is wrong with
/// its shape.
pub uninterp spec fn decoded_edit(content: JsonSpec) -> Result<JsonSpec, Seq<char>>;

/// What `lsp_types` makes of a value as the result of `textDocument/codeAction`, or what is wrong
/// with its shape.
pub uninterp spec fn decoded_code_actions(content: JsonSpec) -> Result<JsonSpec, Seq<char>>;

/// What `lsp_types` makes of a value as the result of `codeAction/resolve`, or what is wrong with
/// its shape.
pub uninterp spec fn decoded_code_action(content: JsonSpec) -> Result<JsonSpec, Seq<char>>;

/// What `lsp_types` makes of a value as the result of `textDocument/signatureHelp`, or what is
/// wrong with its shape.
pub uninterp spec fn decoded_signature_help(content: JsonSpec) -> Result<JsonSpec, Seq<char>>;

/// What `lsp_types` makes of a value as the result of `textDocument/documentSymbol`, or what is
/// wrong with its shape.
pub uninterp spec fn decoded_document_symbols(content: JsonSpec) -> Result<JsonSpec, Seq<char>>;

/// What `lsp_types` makes of a value as the result of `completionItem/resolve`, or what is wrong
/// with its shape.
pub uninterp spec fn decoded_completion_item(content: JsonSpec) -> Result<JsonSpec, Seq<char>>;

/// What `lsp_types` makes of a value as the result of `workspace/symbol`, or what is wrong with its
/// shape.
pub uninterp spec fn decoded_workspace_symbols(content: JsonSpec) -> Result<JsonSpec, Seq<char>>;

/// What `lsp_types` makes of a value as the result of `textDocument/prepareCallHierarchy`, or what
/// is wrong with its shape.
pub uninterp spec fn decoded_call_items(content: JsonSpec) -> Result<JsonSpec, Seq<char>>;

/// What `lsp_types` makes of a value as the result of `callHierarchy/incomingCalls`, or what is
/// wrong with its shape.
pub uninterp spec fn decoded_incoming_calls(content: JsonSpec) -> Result<JsonSpec, Seq<char>>;

/// What `lsp_types` makes of a value as the result of `callHierarchy/outgoingCalls`, or what is
/// wrong with its shape.
pub uninterp spec fn decoded_outgoing_calls(content: JsonSpec) -> Result<JsonSpec, Seq<char>>;

/// What `lsp_types` makes of a value as the parameters of `textDocument/publishDiagnostics`, or
/// what is wrong with its shape.
pub uninterp spec fn decoded_published_diagnostics(content: JsonSpec) -> Result<JsonSpec, Seq<char>>;

/// What `lsp_types` makes of a value as the parameters of `workspace/applyEdit`, or what is wrong
/// with its shape.
pub uninterp spec fn decoded_apply_edit(content: JsonSpec) -> Result<JsonSpec, Seq<char>>;

/// What `lsp_types` makes of a value as the parameters of `workspace/configuration`, or what is
/// wrong with its shape.
pub uninterp spec fn decoded_configuration(content: JsonSpec) -> Result<JsonSpec, Seq<char>>;

/// What `lsp_types` makes of a value as the parameters of `window/logMessage`, or what is wrong
/// with its shape.
pub uninterp spec fn decoded_log_message(content: JsonSpec) -> Result<JsonSpec, Seq<char>>;

/// What `lsp_types` makes of a value as the parameters of `window/showMessageRequest`, or what is
/// wrong with its shape.
pub uninterp spec fn decoded_show_message(content: JsonSpec) -> Result<JsonSpec, Seq<char>>;

/// What `lsp_types` makes of a value as the parameters of `$/progress`, or what is wrong with its
/// shape.
pub uninterp spec fn decoded_progress(content: JsonSpec) -> Result<JsonSpec, Seq<char>>;

/// What `json_rpc_types` makes of a value as a response: its result, or the code and the message of
/// its error. Else what is wrong with it.
pub uninterp spec fn rpc_payload(content: JsonSpec) -> Result<
    Result<JsonSpec, (Seq<char>, Seq<char>)>,
    Seq<char>,
>;

/// What `json_rpc_types` makes of a value as a request, or what is wrong with it.
pub uninterp spec fn rpc_request(content: JsonSpec) -> Result<
    RpcRequest<JsonSpec, Seq<char>>,
    Seq<char>,
>;

/// What `json_rpc_types` shows of a value as a request for debugging, on several lines.
pub uninterp spec fn shown_request(content: JsonSpec) -> Seq<char>;

/// The meaning of what was read: a value, or what is wrong.
pub open spec fn decoded_view(result: Result<serde_json::Value, String>) -> Result<
    JsonSpec,
    Seq<char>,
> {
    match result {
        Ok(value) => Ok(value_content(value)),
        Err(fault) => Err(fault@),
    }
}

/// Calls `serde_json::from_value` for `InitializeResult` of `lsp_types`, and `serde_json::to_value`
/// on what came out: the result of `initialize`. Where the value has another shape, the text of the
/// error.
#[verifier::external_body]
fn read_initialize(
    value: serde_json::Value,
) -> (result: Result<serde_json::Value, String>)
    ensures
        decoded_view(result) == decoded_initialize(value_content(value)),
{
    serde_json::from_value::<lsp_types::InitializeResult>(value)
        .and_then(serde_json::to_value)
        .map_err(|error| error.to_string())
}

/// Calls `serde_json::from_value` for `Option<CompletionResponse>` of `lsp_types`, and
/// `serde_json::to_value` on what came out: the result of `textDocument/completion`. Where the
/// value has another shape, the text of the error.
#[verifier::external_body]
fn read_completion(
    value: serde_json::Value,
) -> (result: Result<serde_json::Value, String>)
    ensures
        decoded_view(result) == decoded_completion(value_content(value)),
{
    serde_json::from_value::<Option<lsp_types::CompletionResponse>>(value)
        .and_then(serde_json::to_value)
        .map_err(|error| error.to_string())
}

/// Calls `serde_json::from_value` for `Option<Hover>` of `lsp_types`, and `serde_json::to_value` on
/// what came out: the result of `textDocument/hover`. Where the value has another shape, the text
/// of the error.
#[verifier::external_body]
fn read_hover(value: serde_json::Value) -> (result: Result<serde_json::Value, String>)
    ensures
        decoded_view(result) == decoded_hover(value_content(value)),
{
    serde_json::from_value::<Option<lsp_types::Hover>>(value)
        .and_then(serde_json::to_value)
        .map_err(|error| error.to_string())
}

/// Calls `serde_json::from_value` for `DocumentDiagnosticReportResult` of `lsp_types`, and
/// `serde_json::to_value` on what came out: the result of `textDocument/diagnostic`. Where the
/// value has another shape, the text of the error.
#[verifier::external_body]
fn read_diagnostic(
    value: serde_json::Value,
) -> (result: Result<serde_json::Value, String>)
    ensures
        decoded_view(result) == decoded_diagnostic(value_content(value)),
{
    serde_json::from_value::<lsp_types::DocumentDiagnosticReportResult>(value)
        .and_then(serde_json::to_value)
        .map_err(|error| error.to_string())
}

/// Calls `serde_json::from_value` for `Option<GotoDefinitionResponse>` of `lsp_types`, and
/// `serde_json::to_value` on what came out: the result of `textDocument/definition` and of the
/// requests like it. Where the value has another shape, the text of the error.
#[verifier::external_body]
fn read_definition(
    value: serde_json::Value,
) -> (result: Result<serde_json::Value, String>)
    ensures
        decoded_view(result) == decoded_definition(value_content(value)),
{
    serde_json::from_value::<Option<lsp_types::GotoDefinitionResponse>>(value)
        .and_then(serde_json::to_value)
        .map_err(|error| error.to_string())
}

/// Calls `serde_json::from_value` for `Option<Vec<Location>>` of `lsp_types`, and
/// `serde_json::to_value` on what came out: the result of `textDocument/references`. Where the
/// value has another shape, the text of the error.
#[verifier::external_body]
fn read_locations(
    value: serde_json::Value,
) -> (result: Result<serde_json::Value, String>)
    ensures
        decoded_view(result) == decoded_locations(value_content(value)),
{
    serde_json::from_value::<Option<Vec<lsp_types::Location>>>(value)
        .and_then(serde_json::to_value)
        .map_err(|error| error.to_string())
}

/// Calls `serde_json::from_value` for `Option<PrepareRenameResponse>` of `lsp_types`, and
/// `serde_json::to_value` on what came out: the result of `textDocument/prepareRename`. Where the
/// value has another shape, the text of the error.
#[verifier::external_body]
fn read_prepare_rename(
    value: serde_json::Value,
) -> (result: Result<serde_json::Value, String>)
    ensures
        decoded_view(result) == decoded_prepare_rename(value_content(value)),
{
    serde_json::from_value::<Option<lsp_types::PrepareRenameResponse>>(value)
        .and_then(serde_json::to_value)
        .map_err(|error| error.to_string())
}

/// Calls `serde_json::from_value` for `Option<WorkspaceEdit>` of `lsp_types`, and
/// `serde_json::to_value` on what came out: the result of `textDocument/rename`. Where the value
/// has another shape, the text of the error.
#[verifier::external_body]
fn read_edit(value: serde_json::Value) -> (result: Result<serde_json::Value, String>)
    ensures
        decoded_view(result) == decoded_edit(value_content(value)),
{
    serde_json::from_value::<Option<lsp_types::WorkspaceEdit>>(value)
        .and_then(serde_json::to_value)
        .map_err(|error| error.to_string())
}

/// Calls `serde_json::from_value` for `Option<CodeActionResponse>` of `lsp_types`, and
/// `serde_json::to_value` on what came out: the result of `textDocument/codeAction`. Where the
/// value has another shape, the text of the error.
#[verifier::external_body]
fn read_code_actions(
    value: serde_json::Value,
) -> (result: Result<serde_json::Value, String>)
    ensures
        decoded_view(result) == decoded_code_actions(value_content(value)),
{
    serde_json::from_value::<Option<lsp_types::CodeActionResponse>>(value)
        .and_then(serde_json::to_value)
        .map_err(|error| error.to_string())
}

/// Calls `serde_json::from_value` for `CodeAction` of `lsp_types`, and `serde_json::to_value` on
/// what came out: the result of `codeAction/resolve`. Where the value has another shape, the text
/// of the error.
#[verifier::external_body]
fn read_code_action(
    value: serde_json::Value,
) -> (result: Result<serde_json::Value, String>)
    ensures
        decoded_view(result) == decoded_code_action(value_content(value)),
{
    serde_json::from_value::<lsp_types::CodeAction>(value)
        .and_then(serde_json::to_value)
        .map_err(|error| error.to_string())
}

/// Calls `serde_json::from_value` for `Option<SignatureHelp>` of `lsp_types`, and
/// `serde_json::to_value` on what came out: the result of `textDocument/signatureHelp`. Where the
/// value has another shape, the text of the error.
#[verifier::external_body]
fn read_signature_help(
    value: serde_json::Value,
) -> (result: Result<serde_json::Value, String>)
    ensures
        decoded_view(result) == decoded_signature_help(value_content(value)),
{
    serde_json::from_value::<Option<lsp_types::SignatureHelp>>(value)
        .and_then(serde_json::to_value)
        .map_err(|error| error.to_string())
}

/// Calls `serde_json::from_value` for `Option<DocumentSymbolResponse>` of `lsp_types`, and
/// `serde_json::to_value` on what came out: the result of `textDocument/documentSymbol`. Where the
/// value has another shape, the text of the error.
#[verifier::external_body]
fn read_document_symbols(
    value: serde_json::Value,
) -> (result: Result<serde_json::Value, String>)
    ensures
        decoded_view(result) == decoded_document_symbols(value_content(value)),
{
    serde_json::from_value::<Option<lsp_types::DocumentSymbolResponse>>(value)
        .and_then(serde_json::to_value)
        .map_err(|error| error.to_string())
}

/// Calls `serde_json::from_value` for `CompletionItem` of `lsp_types`, and `serde_json::to_value`
/// on what came out: the result of `completionItem/resolve`. Where the value has another shape, the
/// text of the error.
#[verifier::external_body]
fn read_completion_item(
    value: serde_json::Value,
) -> (result: Result<serde_json::Value, String>)
    ensures
        decoded_view(result) == decoded_completion_item(value_content(value)),
{
    serde_json::from_value::<lsp_types::CompletionItem>(value)
        .and_then(serde_json::to_value)
        .map_err(|error| error.to_string())
}

/// Calls `serde_json::from_value` for `Option<WorkspaceSymbolResponse>` of `lsp_types`, and
/// `serde_json::to_value` on what came out: the result of `workspace/symbol`. Where the value has
/// another shape, the text of the error.
#[verifier::external_body]
fn read_workspace_symbols(
    value: serde_json::Value,
) -> (result: Result<serde_json::Value, String>)
    ensures
        decoded_view(result) == decoded_workspace_symbols(value_content(value)),
{
    serde_json::from_value::<Option<lsp_types::WorkspaceSymbolResponse>>(value)
        .and_then(serde_json::to_value)
        .map_err(|error| error.to_string())
}

/// Calls `serde_json::from_value` for `Option<Vec<CallHierarchyItem>>` of `lsp_types`, and
/// `serde_json::to_value` on what came out: the result of `textDocument/prepareCallHierarchy`.
/// Where the value has another shape, the text of the error.
#[verifier::external_body]
fn read_call_items(
    value: serde_json::Value,
) -> (result: Result<serde_json::Value, String>)
    ensures
        decoded_view(result) == decoded_call_items(value_content(value)),
{
    serde_json::from_value::<Option<Vec<lsp_types::CallHierarchyItem>>>(value)
        .and_then(serde_json::to_value)
        .map_err(|error| error.to_string())
}

/// Calls `serde_json::from_value` for `Option<Vec<CallHierarchyIncomingCall>>` of `lsp_types`, and
/// `serde_json::to_value` on what came out: the result of `callHierarchy/incomingCalls`. Where the
/// value has another shape, the text of the error.
#[verifier::external_body]
fn read_incoming_calls(
    value: serde_json::Value,
) -> (result: Result<serde_json::Value, String>)
    ensures
        decoded_view(result) == decoded_incoming_calls(value_content(value)),
{
    serde_json::from_value::<Option<Vec<lsp_types::CallHierarchyIncomingCall>>>(value)
        .and_then(serde_json::to_value)
        .map_err(|error| error.to_string())
}

/// Calls `serde_json::from_value` for `Option<Vec<CallHierarchyOutgoingCall>>` of `lsp_types`, and
/// `serde_json::to_value` on what came out: the result of `callHierarchy/outgoingCalls`. Where the
/// value has another shape, the text of the error.
#[verifier::external_body]
fn read_outgoing_calls(
    value: serde_json::Value,
) -> (result: Result<serde_json::Value, String>)
    ensures
        decoded_view(result) == decoded_outgoing_calls(value_content(value)),
{
    serde_json::from_value::<Option<Vec<lsp_types::CallHierarchyOutgoingCall>>>(value)
        .and_then(serde_json::to_value)
        .map_err(|error| error.to_string())
}

/// Calls `serde_json::from_value` for `PublishDiagnosticsParams` of `lsp_types`, and
/// `serde_json::to_value` on what came out: the parameters of `textDocument/publishDiagnostics`.
/// Where the value has another shape, the text of the error.
#[verifier::external_body]
fn read_published_diagnostics(
    value: serde_json::Value,
) -> (result: Result<serde_json::Value, String>)
    ensures
        decoded_view(result) == decoded_published_diagnostics(value_content(value)),
{
    serde_json::from_value::<lsp_types::PublishDiagnosticsParams>(value)
        .and_then(serde_json::to_value)
        .map_err(|error| error.to_string())
}

/// Calls `serde_json::from_value` for `ApplyWorkspaceEditParams` of `lsp_types`, and
/// `serde_json::to_value` on what came out: the parameters of `workspace/applyEdit`. Where the
/// value has another shape, the text of the error.
#[verifier::external_body]
fn read_apply_edit(
    value: serde_json::Value,
) -> (result: Result<serde_json::Value, String>)
    ensures
        decoded_view(result) == decoded_apply_edit(value_content(value)),
{
    serde_json::from_value::<lsp_types::ApplyWorkspaceEditParams>(value)
        .and_then(serde_json::to_value)
        .map_err(|error| error.to_string())
}

/// Calls `serde_json::from_value` for `ConfigurationParams` of `lsp_types`, and
/// `serde_json::to_value` on what came out: the parameters of `workspace/configuration`. Where the
/// value has another shape, the text of the error.
#[verifier::external_body]
fn read_configuration(
    value: serde_json::Value,
) -> (result: Result<serde_json::Value, String>)
    ensures
        decoded_view(result) == decoded_configuration(value_content(value)),
{
    serde_json::from_value::<lsp_types::ConfigurationParams>(value)
        .and_then(serde_json::to_value)
        .map_err(|error| error.to_string())
}

/// Calls `serde_json::from_value` for `LogMessageParams` of `lsp_types`, and `serde_json::to_value`
/// on what came out: the parameters of `window/logMessage`. Where the value has another shape, the
/// text of the error.
#[verifier::external_body]
fn read_log_message(
    value: serde_json::Value,
) -> (result: Result<serde_json::Value, String>)
    ensures
        decoded_view(result) == decoded_log_message(value_content(value)),
{
    serde_json::from_value::<lsp_types::LogMessageParams>(value)
        .and_then(serde_json::to_value)
        .map_err(|error| error.to_string())
}

/// Calls `serde_json::from_value` for `ShowMessageRequestParams` of `lsp_types`, and
/// `serde_json::to_value` on what came out: the parameters of `window/showMessageRequest`. Where
/// the value has another shape, the text of the error.
#[verifier::external_body]
fn read_show_message(
    value: serde_json::Value,
) -> (result: Result<serde_json::Value, String>)
    ensures
        decoded_view(result) == decoded_show_message(value_content(value)),
{
    serde_json::from_value::<lsp_types::ShowMessageRequestParams>(value)
        .and_then(serde_json::to_value)
        .map_err(|error| error.to_string())
}

/// Calls `serde_json::from_value` for `ProgressParams` of `lsp_types`, and `serde_json::to_value`
/// on what came out: the parameters of `$/progress`. Where the value has another shape, the text of
/// the error.
#[verifier::external_body]
fn read_progress(value: serde_json::Value) -> (result: Result<serde_json::Value, String>)
    ensures
        decoded_view(result) == decoded_progress(value_content(value)),
{
    serde_json::from_value::<lsp_types::ProgressParams>(value)
        .and_then(serde_json::to_value)
        .map_err(|error| error.to_string())
}

/// The meaning of a payload of a response.
pub open spec fn payload_view(payload: Result<serde_json::Value, (String, String)>) -> Result<
    JsonSpec,
    (Seq<char>, Seq<char>),
> {
    match payload {
        Ok(value) => Ok(value_content(value)),
        Err((code, message)) => Err((code@, message@)),
    }
}

/// The name of a request as text.
pub open spec fn id_view(id: Option<MessageId<String>>) -> Option<MessageId<Seq<char>>> {
    match id {
        Some(MessageId::Number(number)) => Some(MessageId::Number(number)),
        Some(MessageId::Text(text)) => Some(MessageId::Text(text@)),
        None => None,
    }
}

/// Calls `serde_json::from_value` for `json_rpc_types::Response`: the payload of a response, or the
/// `Debug` form of the error.
#[verifier::external_body]
fn read_rpc_response(value: serde_json::Value) -> (payload: Result<
    Result<serde_json::Value, (String, String)>,
    String,
>)
    ensures
        match payload {
            Ok(payload) => rpc_payload(value_content(value)) == Ok::<
                Result<JsonSpec, (Seq<char>, Seq<char>)>,
                Seq<char>,
            >(payload_view(payload)),
            Err(fault) => rpc_payload(value_content(value)) == Err::<
                Result<JsonSpec, (Seq<char>, Seq<char>)>,
                Seq<char>,
            >(fault@),
        },
{
    serde_json::from_value::<json_rpc_types::Response<serde_json::Value, (), String>>(value)
        .map(|response| {
            response.payload.map_err(|error| (format!("{:?}", error.code), error.message))
        })
        .map_err(|error| format!("{error:?}"))
}

/// The meaning of the parts of a request.
pub open spec fn parts_view(request: RpcRequest<serde_json::Value, String>) -> RpcRequest<
    JsonSpec,
    Seq<char>,
> {
    RpcRequest {
        method: request.method@,
        params: match request.params {
            Some(params) => Some(value_content(params)),
            None => None,
        },
        id: id_view(request.id),
    }
}

/// Calls `serde_json::from_value` for `json_rpc_types::Request`: the parts of a request, or the
/// `Debug` form of the error.
#[verifier::external_body]
fn read_rpc_request(value: serde_json::Value) -> (request: Result<
    RpcRequest<serde_json::Value, String>,
    String,
>)
    ensures
        match request {
            Ok(request) => rpc_request(value_content(value)) == Ok::<
                RpcRequest<JsonSpec, Seq<char>>,
                Seq<char>,
            >(parts_view(request)),
            Err(fault) => rpc_request(value_content(value)) == Err::<
                RpcRequest<JsonSpec, Seq<char>>,
                Seq<char>,
            >(fault@),
        },
{
    serde_json::from_value::<json_rpc_types::Request<serde_json::Value, String>>(value)
        .map(|request| RpcRequest {
            method: request.method,
            params: request.params,
            id: request.id.map(|id| match id {
                json_rpc_types::Id::Num(number) => MessageId::Number(number),
                json_rpc_types::Id::Str(text) => MessageId::Text(text.to_string()),
            }),
        })
        .map_err(|error| format!("{error:?}"))
}

/// Calls `serde_json::from_value` for `json_rpc_types::Request` and prints the request for
/// debugging, on several lines, or the error where the value is no request.
#[verifier::external_body]
fn show_rpc_request(value: serde_json::Value) -> (shown: String)
    ensures
        shown@ == shown_request(value_content(value)),
{
    match serde_json::from_value::<json_rpc_types::Request<serde_json::Value, String>>(value) {
        Ok(request) => format!("{request:#?}"),
        Err(error) => format!("{error:#?}"),
    }
}

/// What is shown of a request for debugging.
pub fn show_request(message: &Json) -> (shown: String)
    ensures
        shown@ == shown_request(by_name(message@)),
{
    show_rpc_request(json_to_value(message))
}

/// The messages of a server that come with parameters.
#[derive(Clone, Copy, Debug, PartialEq, Eq, Structural)]
pub enum ParamsKind {
    PublishDiagnostics,
    ApplyEdit,
    Configuration,
    LogMessage,
    ShowMessage,
    Progress,
}

/// What the protocol makes of the result of a request, or what is wrong with its shape. Where a
/// result is of no interest it is taken as it is.
pub open spec fn decoded_result(method: RequestMethod, content: JsonSpec) -> Result<
    JsonSpec,
    Seq<char>,
> {
    let content = by_name(content);
    match method {
        RequestMethod::Initialize => decoded_initialize(content),
        RequestMethod::Shutdown => Ok(content),
        RequestMethod::Completion => decoded_completion(content),
        RequestMethod::Hover => decoded_hover(content),
        RequestMethod::Diagnostic => decoded_diagnostic(content),
        RequestMethod::Definition => decoded_definition(content),
        RequestMethod::References => decoded_locations(content),
        RequestMethod::Declaration => decoded_definition(content),
        RequestMethod::TypeDefinition => decoded_definition(content),
        RequestMethod::Implementation => decoded_definition(content),
        RequestMethod::PrepareRename => decoded_prepare_rename(content),
        RequestMethod::Rename => decoded_edit(content),
        RequestMethod::CodeAction => decoded_code_actions(content),
        RequestMethod::CodeActionResolve => decoded_code_action(content),
        RequestMethod::SignatureHelp => decoded_signature_help(content),
        RequestMethod::DocumentSymbol => decoded_document_symbols(content),
        RequestMethod::CompletionItemResolve => decoded_completion_item(content),
        RequestMethod::WorkspaceSymbol => decoded_workspace_symbols(content),
        RequestMethod::ExecuteCommand => Ok(content),
        RequestMethod::PrepareCallHierarchy => decoded_call_items(content),
        RequestMethod::IncomingCalls => decoded_incoming_calls(content),
        RequestMethod::OutgoingCalls => decoded_outgoing_calls(content),
    }
}

/// What the protocol makes of the parameters of a message, or what is wrong with their shape.
pub open spec fn decoded_params(kind: ParamsKind, content: JsonSpec) -> Result<
    JsonSpec,
    Seq<char>,
> {
    let content = by_name(content);
    match kind {
        ParamsKind::PublishDiagnostics => decoded_published_diagnostics(content),
        ParamsKind::ApplyEdit => decoded_apply_edit(content),
        ParamsKind::Configuration => decoded_configuration(content),
        ParamsKind::LogMessage => decoded_log_message(content),
        ParamsKind::ShowMessage => decoded_show_message(content),
        ParamsKind::Progress => decoded_progress(content),
    }
}

/// The meaning of what the protocol makes of a value.
pub open spec fn json_view(decoded: Result<Json, String>) -> Result<JsonSpec, Seq<char>> {
    match decoded {
        Ok(json) => Ok(json@),
        Err(fault) => Err(fault@),
    }
}

/// What the protocol makes of the result of a request, or what is wrong with its shape.
pub fn decode_result(method: RequestMethod, result: &Json) -> (decoded: Result<Json, String>)
    ensures
        json_view(decoded) == decoded_result(method, result@),
{
    let value = json_to_value(result);
    let decoded = match method {
        RequestMethod::Initialize => read_initialize(value),
        RequestMethod::Shutdown => Ok(value),
        RequestMethod::Completion => read_completion(value),
        RequestMethod::Hover => read_hover(value),
        RequestMethod::Diagnostic => read_diagnostic(value),
        RequestMethod::Definition => read_definition(value),
        RequestMethod::References => read_locations(value),
        RequestMethod::Declaration => read_definition(value),
        RequestMethod::TypeDefinition => read_definition(value),
        RequestMethod::Implementation => read_definition(value),
        RequestMethod::PrepareRename => read_prepare_rename(value),
        RequestMethod::Rename => read_edit(value),
        RequestMethod::CodeAction => read_code_actions(value),
        RequestMethod::CodeActionResolve => read_code_action(value),
        RequestMethod::SignatureHelp => read_signature_help(value),
        RequestMethod::DocumentSymbol => read_document_symbols(value),
        RequestMethod::CompletionItemResolve => read_completion_item(value),
        RequestMethod::WorkspaceSymbol => read_workspace_symbols(value),
        RequestMethod::ExecuteCommand => Ok(value),
        RequestMethod::PrepareCallHierarchy => read_call_items(value),
        RequestMethod::IncomingCalls => read_incoming_calls(value),
        RequestMethod::OutgoingCalls => read_outgoing_calls(value),
    };
    match decoded {
        Ok(value) => Ok(json_from_value(value)),
        Err(fault) => Err(fault),
    }
}

/// What the protocol makes of the parameters of a message, or what is wrong with their shape.
pub fn decode_params(kind: ParamsKind, params: &Json) -> (decoded: Result<Json, String>)
    ensures
        json_view(decoded) == decoded_params(kind, params@),
{
    let value = json_to_value(params);
    let decoded = match kind {
        ParamsKind::PublishDiagnostics => read_published_diagnostics(value),
        ParamsKind::ApplyEdit => read_apply_edit(value),
        ParamsKind::Configuration => read_configuration(value),
        ParamsKind::LogMessage => read_log_message(value),
        ParamsKind::ShowMessage => read_show_message(value),
        ParamsKind::Progress => read_progress(value),
    };
    match decoded {
        Ok(value) => Ok(json_from_value(value)),
        Err(fault) => Err(fault),
    }
}

/// The payload of a response: its result, or the code and the message of its error. An error where
/// the message is no response.
pub fn decode_response(message: &Json) -> (payload: Result<Result<Json, (String, String)>, String>)
    ensures
        response_view(payload) == rpc_payload(by_name(message@)),
{
    match read_rpc_response(json_to_value(message)) {
        Ok(Ok(value)) => Ok(Ok(json_from_value(value))),
        Ok(Err(error)) => Ok(Err(error)),
        Err(fault) => Err(fault),
    }
}

/// The meaning of a response.
pub open spec fn response_view(
    payload: Result<Result<Json, (String, String)>, String>,
) -> Result<Result<JsonSpec, (Seq<char>, Seq<char>)>, Seq<char>> {
    match payload {
        Ok(Ok(result)) => Ok(Ok(result@)),
        Ok(Err((code, text))) => Ok(Err((code@, text@))),
        Err(fault) => Err(fault@),
    }
}

/// The meaning of a request.
pub open spec fn request_view(request: RpcRequest<Json, String>) -> RpcRequest<
    JsonSpec,
    Seq<char>,
> {
    RpcRequest {
        method: request.method@,
        params: match request.params {
            Some(params) => Some(params@),
            None => None,
        },
        id: id_view(request.id),
    }
}

/// The parts of a request, or what is wrong where the message is none.
pub fn decode_request(message: &Json) -> (request: Result<RpcRequest<Json, String>, String>)
    ensures
        match request {
            Ok(request) => rpc_request(by_name(message@)) == Ok::<
                RpcRequest<JsonSpec, Seq<char>>,
                Seq<char>,
            >(request_view(request)),
            Err(fault) => rpc_request(by_name(message@)) == Err::<
                RpcRequest<JsonSpec, Seq<char>>,
                Seq<char>,
            >(fault@),
        },
{
    match read_rpc_request(json_to_value(message)) {
        Ok(request) => {
            let params = match request.params {
                Some(value) => Some(json_from_value(value)),
                None => None,
            };
            Ok(RpcRequest { method: request.method, params, id: request.id })
        },
        Err(fault) => Err(fault),
    }
}

} // verus!
