//! What a session with a language server is, and what it does step by step.

use crate::decimal::{decimal, signed_decimal};
use crate::json::{by_name, items_view, shown_json, Json, JsonSpec};
use crate::lsp::capabilities::{capabilities_of, CapabilitiesSpec, TextDocumentSyncKind};
use crate::lsp::configuration::{configuration_response, hint_text};
use crate::lsp::decode::{
    decoded_params, decoded_result, rpc_payload, rpc_request, shown_request, ParamsKind, RpcRequest,
};
use crate::lsp::messages::{
    code_action_params, command_params, diagnostic_params, diagnostics_of, did_change_params,
    did_create_params, did_open_params, did_rename_params, document_params, edit_applied,
    edit_failed, error_reply, full_change, id_json, initialize_params, item_params, notification,
    ordered_call_item, position_params, ranged_change, references_params, rename_params, reply,
    request, symbol_params, METHOD_NOT_FOUND,
};
use crate::lsp::positions::{end_position, PositionError};
use crate::lsp::protocol::{
    CallHierarchyDirection, FromEditor, LspNotification, MessageId, PendingResponseRequest,
    RequestMethod, RequestParams, ResponseContext, SessionAction,
};
use crate::lsp::server_config::{option_value, LspDiagnosticMode};
use crate::lsp::uri::file_uri;
use crate::path::AbsolutePath;
use vstd::prelude::*;

verus! {

/// What a session knows.
#[verifier::ext_equal]
pub struct Session {
    /// The name of the server in the configuration.
    pub server_id: Seq<char>,
    /// The root of the workspace.
    pub root: Seq<char>,
    pub diagnostic_mode: LspDiagnosticMode,
    /// The options of the server, as they are configured.
    pub options: Option<JsonSpec>,
    /// Where the TypeScript plugin for Vue is, if it is there.
    pub plugin: Option<Seq<char>>,
    /// What the server says that it can do, once it did.
    pub capabilities: Option<CapabilitiesSpec>,
    /// The documents that are open, with the text that the server knows of.
    pub documents: Map<Seq<char>, Seq<char>>,
    pub next_request_id: u64,
    /// The requests that wait for their answers.
    pub pending: Map<u64, PendingResponseRequest>,
    /// Which calls are asked for by the requests that prepare a call hierarchy.
    pub directions: Map<u64, CallHierarchyDirection>,
    pub is_initialized: bool,
}

/// What makes a step of a session fail. `T` is how texts are held.
#[derive(Debug)]
pub enum SessionError<T> {
    /// A document changed that was not opened.
    NotOpen(T),
    /// Where the document ended cannot be told.
    NoEnd(PositionError),
    /// A server reports an error.
    ErrorField { method: T, message: T, hint: Option<T> },
    /// An answer does not name its request. It is shown.
    MissingId(T),
    /// An answer names its request by something else than a number, which is shown.
    IdNotNumber(T),
    /// An answer names a request that waits for none.
    UnknownRequest(u64),
    /// An answer is none by the rules of JSON-RPC, and why.
    NotResponse(T),
    /// A request was answered with an error.
    Rpc { code: T, message: T },
    /// The result of a request has the wrong shape, and why.
    WrongResult(T),
    /// A message is no request by the rules of JSON-RPC, and why.
    NotRequest(T),
    MissingParams,
    /// A request to apply an edit, which is shown, comes without one.
    MissingEdit(T),
    /// The parameters of a message have the wrong shape, and why.
    WrongParams(T),
    /// The editor cannot make its own what it is told, and why.
    NotConverted(T),
}

/// An action of a session, in terms of what it means.
pub type ActionSpec = SessionAction<JsonSpec, Seq<char>>;

/// An error of a session, in terms of what it means.
pub type ErrorSpec = SessionError<Seq<char>>;

/// What a step of a session comes to.
#[verifier::ext_equal]
pub struct OutcomeSpec {
    /// What is to be done, in this order.
    pub actions: Seq<ActionSpec>,
    pub result: Result<(), ErrorSpec>,
}

/// The state of a session after a step, and what the step comes to.
pub type Step = (Session, OutcomeSpec);

/// A step that comes to nothing.
pub open spec fn nothing() -> OutcomeSpec {
    OutcomeSpec { actions: Seq::empty(), result: Ok(()) }
}

/// A step that comes to one action.
pub open spec fn one(action: ActionSpec) -> OutcomeSpec {
    OutcomeSpec { actions: seq![action], result: Ok(()) }
}

/// A step that comes to two actions.
pub open spec fn two(first: ActionSpec, second: ActionSpec) -> OutcomeSpec {
    OutcomeSpec { actions: seq![first, second], result: Ok(()) }
}

/// A step that fails.
pub open spec fn failure(error: ErrorSpec) -> OutcomeSpec {
    OutcomeSpec { actions: Seq::empty(), result: Err(error) }
}

/// A step that tells the editor something.
pub open spec fn told(notification: LspNotification<JsonSpec, Seq<char>>) -> OutcomeSpec {
    one(SessionAction::Notify(notification))
}

/// A step that sends a message to the server.
pub open spec fn sent(message: JsonSpec) -> OutcomeSpec {
    one(SessionAction::Send(message))
}

/// `next`, after an action.
pub open spec fn after(action: ActionSpec, next: OutcomeSpec) -> OutcomeSpec {
    OutcomeSpec { actions: seq![action] + next.actions, result: next.result }
}

/// Sends a request. It gets the next free number, and waits for its answer under that number.
pub open spec fn request_step(
    session: Session,
    method: RequestMethod,
    context: ResponseContext,
    path: Option<AbsolutePath>,
    params: JsonSpec,
) -> Step {
    let id = session.next_request_id;
    (
        Session {
            next_request_id: (id + 1) as u64,
            pending: session.pending.insert(id, PendingResponseRequest { method, context, path }),
            ..session
        },
        sent(request(method.spec_name(), params, id)),
    )
}

/// The number of a request, where a message is one.
pub open spec fn request_number(message: JsonSpec) -> Option<u64> {
    match (message.get("method"@), message.get("id"@)) {
        (Some(_), Some(JsonSpec::Unsigned(id))) => Some(id),
        _ => None,
    }
}

/// The session after a message of it could not be written. A request waits for no answer then, and
/// where the server was not told that the session begins, it has not begun.
pub open spec fn unwritten_step(session: Session, message: JsonSpec) -> Session {
    match request_number(message) {
        Some(id) => Session {
            pending: session.pending.remove(id),
            directions: session.directions.remove(id),
            ..session
        },
        None => if message.get("method"@) == Some(JsonSpec::Text("initialized"@)) && message.get(
            "id"@,
        ) is None {
            Session { is_initialized: false, ..session }
        } else {
            session
        },
    }
}

/// The session after some actions of it were not done: none of their messages was written.
pub open spec fn abandoned_step(session: Session, actions: Seq<ActionSpec>) -> Session
    decreases actions.len(),
{
    if actions.len() == 0 {
        session
    } else {
        let before = abandoned_step(session, actions.drop_last());
        match actions.last() {
            SessionAction::Send(message) => unwritten_step(before, message),
            _ => before,
        }
    }
}

/// Sends a request, where the server answers such requests.
pub open spec fn asked(
    session: Session,
    supported: bool,
    method: RequestMethod,
    context: ResponseContext,
    path: Option<AbsolutePath>,
    params: JsonSpec,
) -> Step {
    if supported {
        request_step(session, method, context, path, params)
    } else {
        (session, nothing())
    }
}

/// Sends a request about a place in a document, where the server answers such requests.
pub open spec fn asked_at(
    session: Session,
    supported: bool,
    method: RequestMethod,
    params: RequestParams,
) -> Step {
    asked(
        session,
        supported,
        method,
        params.context,
        Some(params.path),
        position_params(file_uri(params.path@), params.position),
    )
}

/// The context of a request of the session's own.
pub open spec fn no_context() -> ResponseContext {
    ResponseContext { scope: None, description: None }
}

impl Session {
    /// Whether the server wants to hear of documents that are opened and closed.
    pub open spec fn supports_open_close(self) -> bool {
        self.capabilities is Some && self.capabilities->0.spec_supports_open_close()
    }

    /// How the server wants to hear of changes, where it wants to at all.
    pub open spec fn sync_kind(self) -> Option<TextDocumentSyncKind> {
        match self.capabilities {
            Some(capabilities) => capabilities.spec_sync_kind(),
            None => None,
        }
    }

    /// Whether the server wants to hear of documents that are saved.
    pub open spec fn supports_save(self) -> bool {
        self.capabilities is Some && self.capabilities->0.spec_supports_save()
    }

    /// Whether the server is to be asked for diagnostics, and answers that.
    pub open spec fn supports_pull_diagnostics(self) -> bool {
        !(self.diagnostic_mode is Push) && self.capabilities is Some
            && self.capabilities->0.providers.diagnostic
    }

    /// The characters that ask for completion.
    pub open spec fn trigger_characters(self) -> Seq<Seq<char>> {
        match self.capabilities {
            Some(capabilities) => match capabilities.trigger_characters {
                Some(list) => list,
                None => Seq::empty(),
            },
            None => Seq::empty(),
        }
    }
}

/// Asks for the diagnostics of a document, where the server is to be asked for them.
pub open spec fn diagnostics_step(session: Session, path: AbsolutePath) -> Step {
    asked(
        session,
        session.supports_pull_diagnostics(),
        RequestMethod::Diagnostic,
        no_context(),
        Some(path),
        diagnostic_params(file_uri(path@)),
    )
}

/// Sends a notification about a document and then asks for the document's diagnostics.
pub open spec fn document_step(session: Session, path: AbsolutePath, message: JsonSpec) -> Step {
    let (next, outcome) = diagnostics_step(session, path);
    (next, after(SessionAction::Send(message), outcome))
}

/// Tells the server of a document that is open now, where it wants to hear of that.
pub open spec fn did_open_step(
    session: Session,
    path: AbsolutePath,
    language_id: Seq<char>,
    version: usize,
    content: Seq<char>,
) -> Step {
    if session.supports_open_close() {
        document_step(
            Session { documents: session.documents.insert(path@, content), ..session },
            path,
            notification(
                "textDocument/didOpen"@,
                did_open_params(file_uri(path@), language_id, version as i32, content),
            ),
        )
    } else {
        (session, nothing())
    }
}

/// The message that a document has the text `content` now.
pub open spec fn did_change_message(
    path: AbsolutePath,
    version: i32,
    change: JsonSpec,
) -> JsonSpec {
    notification("textDocument/didChange"@, did_change_params(file_uri(path@), version, change))
}

/// Tells the server that a document has the text `content` now, in the way in which the server
/// wants to hear of that. A server that wants to hear of ranges is told that all of the text that
/// it knows of gave way to the new text.
pub open spec fn did_change_step(
    session: Session,
    path: AbsolutePath,
    version: i32,
    content: Seq<char>,
) -> Step {
    let next = Session { documents: session.documents.insert(path@, content), ..session };
    match session.sync_kind() {
        None => (session, nothing()),
        Some(TextDocumentSyncKind::Incremental) => if !session.documents.dom().contains(path@) {
            (session, failure(SessionError::NotOpen(path@)))
        } else {
            match end_position(
                session.documents[path@],
                session.capabilities->0.spec_encoding(),
            ) {
                Err(error) => (session, failure(SessionError::NoEnd(error))),
                Ok(end) => document_step(
                    next,
                    path,
                    did_change_message(path, version, ranged_change(end, content)),
                ),
            }
        },
        Some(_) => document_step(
            next,
            path,
            did_change_message(path, version, full_change(content)),
        ),
    }
}

/// Tells the server of a document that is no longer open, where it wants to hear of that.
pub open spec fn did_close_step(session: Session, path: AbsolutePath) -> Step {
    let next = Session { documents: session.documents.remove(path@), ..session };
    if session.supports_open_close() {
        (
            next,
            sent(
                notification("textDocument/didClose"@, document_params(file_uri(path@))),
            ),
        )
    } else {
        (next, nothing())
    }
}

/// Tells the server of a document that was saved, where it wants to hear of that.
pub open spec fn did_save_step(session: Session, path: AbsolutePath) -> Step {
    if session.supports_save() {
        document_step(
            session,
            path,
            notification("textDocument/didSave"@, document_params(file_uri(path@))),
        )
    } else {
        (session, nothing())
    }
}

/// Tells the server something, where it wants to hear of that.
pub open spec fn notified(
    session: Session,
    supported: bool,
    method: Seq<char>,
    params: JsonSpec,
) -> Step {
    if supported {
        (session, sent(notification(method, params)))
    } else {
        (session, nothing())
    }
}

/// The arguments of a command.
pub open spec fn command_arguments(arguments: Option<Vec<Json>>) -> JsonSpec {
    match arguments {
        Some(arguments) => JsonSpec::Array(items_view(arguments@)),
        None => JsonSpec::array(),
    }
}

/// Asks for what a call hierarchy starts from, where the server answers that, and keeps in mind
/// which calls are asked for.
pub open spec fn call_hierarchy_step(
    session: Session,
    supported: bool,
    params: RequestParams,
    direction: CallHierarchyDirection,
) -> Step {
    let (next, outcome) = asked_at(session, supported, RequestMethod::PrepareCallHierarchy, params);
    if supported {
        (
            Session {
                directions: next.directions.insert(session.next_request_id, direction),
                ..next
            },
            outcome,
        )
    } else {
        (next, outcome)
    }
}

/// What a session does upon a message of the editor.
pub open spec fn editor_step(session: Session, message: FromEditor) -> Step {
    let known = session.capabilities is Some;
    let providers = session.capabilities->0.providers;
    match message {
        FromEditor::TextDocumentHover(params) => asked_at(
            session,
            known && providers.hover,
            RequestMethod::Hover,
            params,
        ),
        FromEditor::TextDocumentCompletion(params) => asked_at(
            session,
            known && providers.completion,
            RequestMethod::Completion,
            params,
        ),
        FromEditor::TextDocumentDefinition(params) => asked_at(
            session,
            known && providers.definition,
            RequestMethod::Definition,
            params,
        ),
        FromEditor::TextDocumentReferences { params, include_declaration } => asked(
            session,
            known && providers.references,
            RequestMethod::References,
            params.context,
            Some(params.path),
            references_params(file_uri(params.path@), params.position, include_declaration),
        ),
        FromEditor::TextDocumentDidOpen { file_path, language_id, version, content } =>
            did_open_step(session, file_path, language_id@, version, content@),
        FromEditor::TextDocumentDidChange { file_path, version, content } => did_change_step(
            session,
            file_path,
            version,
            content@,
        ),
        FromEditor::TextDocumentDidClose { file_path } => did_close_step(session, file_path),
        FromEditor::TextDocumentDidSave { file_path } => did_save_step(session, file_path),
        FromEditor::TextDocumentPrepareRename(params) => asked_at(
            session,
            known && providers.rename,
            RequestMethod::PrepareRename,
            params,
        ),
        FromEditor::TextDocumentRename { params, new_name } => asked(
            session,
            known && providers.rename,
            RequestMethod::Rename,
            params.context,
            Some(params.path),
            rename_params(file_uri(params.path@), params.position, new_name@),
        ),
        FromEditor::TextDocumentCodeAction { params, diagnostics } => asked(
            session,
            known && providers.code_action,
            RequestMethod::CodeAction,
            params.context,
            Some(params.path),
            code_action_params(
                file_uri(params.path@),
                params.position,
                params.selection_end,
                JsonSpec::Array(items_view(diagnostics@)),
            ),
        ),
        FromEditor::TextDocumentSignatureHelp(params) => asked_at(
            session,
            known && providers.signature_help,
            RequestMethod::SignatureHelp,
            params,
        ),
        FromEditor::TextDocumentDeclaration(params) => asked_at(
            session,
            known && providers.declaration,
            RequestMethod::Declaration,
            params,
        ),
        FromEditor::TextDocumentImplementation(params) => asked_at(
            session,
            known && providers.implementation,
            RequestMethod::Implementation,
            params,
        ),
        FromEditor::TextDocumentTypeDefinition(params) => asked_at(
            session,
            known && providers.type_definition,
            RequestMethod::TypeDefinition,
            params,
        ),
        FromEditor::TextDocumentDocumentSymbol(params) => asked(
            session,
            known && providers.document_symbol,
            RequestMethod::DocumentSymbol,
            params.context,
            Some(params.path),
            document_params(file_uri(params.path@)),
        ),
        FromEditor::WorkspaceSymbol { query, context } => asked(
            session,
            known && providers.workspace_symbol,
            RequestMethod::WorkspaceSymbol,
            context,
            None,
            symbol_params(query@),
        ),
        FromEditor::WorkspaceDidRenameFiles { old, new } => notified(
            session,
            known && providers.did_rename_files,
            "workspace/didRenameFiles"@,
            did_rename_params(old@, new@),
        ),
        FromEditor::WorkspaceDidCreateFiles { file_path } => notified(
            session,
            known && providers.did_create_files,
            "workspace/didCreateFiles"@,
            did_create_params(file_path@),
        ),
        FromEditor::WorkspaceExecuteCommand { params, command } => asked(
            session,
            known && providers.execute_command,
            RequestMethod::ExecuteCommand,
            params.context,
            Some(params.path),
            command_params(command.command@, command_arguments(command.arguments)),
        ),
        FromEditor::CompletionItemResolve { completion_item, params } => asked(
            session,
            known && providers.completion && providers.completion_resolve == Some(true),
            RequestMethod::CompletionItemResolve,
            params.context,
            Some(params.path),
            completion_item@,
        ),
        FromEditor::CodeActionResolve { code_action, params } => asked(
            session,
            known && providers.code_action && providers.code_action_resolve == Some(true),
            RequestMethod::CodeActionResolve,
            params.context,
            Some(params.path),
            code_action@,
        ),
        FromEditor::TextDocumentPrepareCallHierarchy { params, direction } => call_hierarchy_step(
            session,
            known && providers.call_hierarchy,
            params,
            direction,
        ),
    }
}

/// Starts a session: tells the server of the workspace and of what the editor can do.
pub open spec fn initialize_step(session: Session) -> Step {
    request_step(
        session,
        RequestMethod::Initialize,
        no_context(),
        None,
        initialize_params(
            file_uri(session.root),
            match session.options {
                Some(options) => Some(option_value(options, session.root, session.plugin)),
                None => None,
            },
        ),
    )
}

/// Ends a session that has begun: asks the server to shut down, and tells it to exit.
pub open spec fn shutdown_step(session: Session) -> Step {
    if session.is_initialized {
        let (next, outcome) = request_step(
            session,
            RequestMethod::Shutdown,
            no_context(),
            None,
            JsonSpec::Null,
        );
        (
            next,
            two(outcome.actions[0], SessionAction::Send(notification("exit"@, JsonSpec::Null))),
        )
    } else {
        (session, nothing())
    }
}

/// What an error of a server says.
pub open spec fn error_message(error: JsonSpec) -> Seq<char> {
    match error.get("message"@) {
        Some(JsonSpec::Text(text)) => text,
        _ => "<missing error message>"@,
    }
}

/// The method of the request that a message answers.
pub open spec fn answered_method(session: Session, message: JsonSpec) -> Seq<char> {
    match message.get("id"@) {
        Some(JsonSpec::Unsigned(id)) => if session.pending.dom().contains(id) {
            session.pending[id].method.spec_name()
        } else {
            "<unknown request>"@
        },
        _ => "<unknown request>"@,
    }
}

/// The items of a list of completions, which comes with or without more about the list.
pub open spec fn completion_items(value: JsonSpec) -> JsonSpec {
    match value {
        JsonSpec::Array(_) => value,
        _ => match value.get("items"@) {
            Some(items) => items,
            None => JsonSpec::array(),
        },
    }
}

/// The diagnostics of a report, where it is a full one.
pub open spec fn full_report(value: JsonSpec) -> Option<JsonSpec> {
    match value.get("kind"@) {
        Some(JsonSpec::Text(kind)) => if kind == "full"@ {
            value.get("items"@)
        } else {
            None
        },
        _ => None,
    }
}

/// Tells the editor something, unless the result was `null`.
pub open spec fn told_of(
    session: Session,
    value: JsonSpec,
    notification: LspNotification<JsonSpec, Seq<char>>,
) -> Step {
    if value is Null {
        (session, nothing())
    } else {
        (session, told(notification))
    }
}

/// Asks for the calls of the first of the items that a call hierarchy starts from.
pub open spec fn calls_step(
    session: Session,
    id: u64,
    context: ResponseContext,
    value: JsonSpec,
) -> Step {
    match value {
        JsonSpec::Array(items) => if items.len() > 0 {
            let next = Session { directions: session.directions.remove(id), ..session };
            let outgoing = session.directions.dom().contains(id) && session.directions[id]
                is Outgoing;
            request_step(
                next,
                if outgoing {
                    RequestMethod::OutgoingCalls
                } else {
                    RequestMethod::IncomingCalls
                },
                context,
                None,
                item_params(ordered_call_item(items[0])),
            )
        } else {
            (session, nothing())
        },
        _ => (session, nothing()),
    }
}

/// What the server says that it can do, in its answer to `initialize`.
pub open spec fn announced_capabilities(value: JsonSpec) -> CapabilitiesSpec {
    match value.get("capabilities"@) {
        Some(capabilities) => capabilities_of(capabilities),
        None => capabilities_of(JsonSpec::Null),
    }
}

/// What a session does with the result of a request, once it is read. `id` is the number of the
/// request. What the editor is told is what the protocol holds; where the editor cannot make it its
/// own, see [`conversion_step`].
pub open spec fn result_step(
    session: Session,
    id: u64,
    request: PendingResponseRequest,
    value: JsonSpec,
) -> Step {
    let context = request.context;
    match request.method {
        RequestMethod::Initialize => (
            Session {
                capabilities: Some(announced_capabilities(value)),
                is_initialized: true,
                ..session
            },
            two(
                SessionAction::Send(notification("initialized"@, JsonSpec::object())),
                SessionAction::Notify(
                    LspNotification::Initialized {
                        server_id: session.server_id,
                        root: session.root,
                    },
                ),
            ),
        ),
        RequestMethod::Shutdown => (session, one(SessionAction::Exit)),
        RequestMethod::Completion => told_of(
            session,
            value,
            LspNotification::Completion {
                context,
                trigger_characters: JsonSpec::texts(session.trigger_characters()),
                items: completion_items(value),
            },
        ),
        RequestMethod::Hover => told_of(session, value, LspNotification::Hover(value)),
        RequestMethod::Diagnostic => match (request.path, full_report(value)) {
            (Some(path), Some(diagnostics)) => (
                session,
                told(
                    LspNotification::PublishDiagnostics {
                        server_id: session.server_id,
                        params: diagnostics_of(file_uri(path@), diagnostics),
                    },
                ),
            ),
            _ => (session, nothing()),
        },
        RequestMethod::Definition
        | RequestMethod::Declaration
        | RequestMethod::TypeDefinition
        | RequestMethod::Implementation => told_of(
            session,
            value,
            LspNotification::Definition(context, value),
        ),
        RequestMethod::References => told_of(
            session,
            value,
            LspNotification::References(context, value),
        ),
        RequestMethod::PrepareRename => told_of(
            session,
            value,
            LspNotification::PrepareRenameResponse(value),
        ),
        RequestMethod::Rename => told_of(
            session,
            value,
            LspNotification::WorkspaceEdit { edit: value, respond: None },
        ),
        RequestMethod::CodeAction => told_of(session, value, LspNotification::CodeAction(value)),
        RequestMethod::CodeActionResolve => (
            session,
            told(LspNotification::CodeActionResolve(value)),
        ),
        RequestMethod::SignatureHelp => (
            session,
            told(
                LspNotification::SignatureHelp(
                    if value is Null {
                        None
                    } else {
                        Some(value)
                    },
                ),
            ),
        ),
        RequestMethod::DocumentSymbol => match request.path {
            Some(path) => told_of(
                session,
                value,
                LspNotification::DocumentSymbols { symbols: value, path: path@ },
            ),
            None => (session, nothing()),
        },
        RequestMethod::CompletionItemResolve => (
            session,
            told(LspNotification::CompletionItemResolve(value)),
        ),
        RequestMethod::WorkspaceSymbol => told_of(
            session,
            value,
            LspNotification::WorkspaceSymbols { symbols: value, root: session.root },
        ),
        RequestMethod::ExecuteCommand => (session, nothing()),
        RequestMethod::PrepareCallHierarchy => calls_step(session, id, context, value),
        RequestMethod::IncomingCalls => told_of(
            session,
            value,
            LspNotification::CallHierarchyIncomingCalls(context, value),
        ),
        RequestMethod::OutgoingCalls => told_of(
            session,
            value,
            LspNotification::CallHierarchyOutgoingCalls(context, value),
        ),
    }
}

/// What a session does with the payload of an answer, once it is read: an error where the answer is
/// none.
pub open spec fn payload_step(
    session: Session,
    id: u64,
    request: PendingResponseRequest,
    payload: Result<Result<JsonSpec, (Seq<char>, Seq<char>)>, Seq<char>>,
) -> Step {
    match payload {
        Err(fault) => (session, failure(SessionError::NotResponse(fault))),
        Ok(Err((code, message))) => (
            session,
            OutcomeSpec {
                actions: seq![
                    SessionAction::Notify(
                        LspNotification::Error(
                            "LSP JSON-RPC Error: "@ + code + ": "@ + message,
                        ),
                    ),
                ],
                result: Err(SessionError::Rpc { code, message }),
            },
        ),
        Ok(Ok(result)) => match decoded_result(request.method, result) {
            Err(fault) => (session, failure(SessionError::WrongResult(fault))),
            Ok(value) => result_step(session, id, request, value),
        },
    }
}

/// What a session does upon an answer to one of its requests. The request no longer waits then.
pub open spec fn response_step(session: Session, message: JsonSpec) -> Step {
    match message.get("id"@) {
        None => (session, failure(SessionError::MissingId(shown_json(by_name(message))))),
        Some(JsonSpec::Unsigned(id)) => if session.pending.dom().contains(id) {
            let request = session.pending[id];
            let next = Session { pending: session.pending.remove(id), ..session };
            if request.method is Shutdown {
                (next, one(SessionAction::Exit))
            } else {
                payload_step(next, id, request, rpc_payload(by_name(message)))
            }
        } else {
            (session, failure(SessionError::UnknownRequest(id)))
        },
        Some(id) => (session, failure(SessionError::IdNotNumber(shown_json(by_name(id))))),
    }
}

/// The name of the work that a report of progress is about: a text, or a number in decimal
/// notation.
pub open spec fn progress_token(params: JsonSpec) -> Seq<char> {
    match params.get("token"@) {
        Some(JsonSpec::Text(token)) => token,
        Some(JsonSpec::Unsigned(number)) => decimal(number as nat),
        Some(JsonSpec::Negative(number)) => signed_decimal(number as int),
        _ => Seq::empty(),
    }
}

/// What a session does with the parameters of a message of the server, once they are read. `id` is
/// the name of the message, where it wants an answer.
pub open spec fn params_step(
    session: Session,
    kind: ParamsKind,
    id: Option<MessageId<Seq<char>>>,
    params: JsonSpec,
) -> Step {
    match kind {
        ParamsKind::PublishDiagnostics => (
            session,
            told(LspNotification::PublishDiagnostics { server_id: session.server_id, params }),
        ),
        ParamsKind::ApplyEdit => (
            session,
            told(
                LspNotification::WorkspaceEdit {
                    edit: match params.get("edit"@) {
                        Some(edit) => edit,
                        None => JsonSpec::Null,
                    },
                    respond: id,
                },
            ),
        ),
        ParamsKind::Configuration => (
            session,
            sent(
                reply(
                    id_json(id),
                    configuration_response(
                        params,
                        session.root,
                        session.options,
                        session.plugin,
                    ),
                ),
            ),
        ),
        ParamsKind::ShowMessage => (
            session,
            two(
                SessionAction::Notify(LspNotification::ShowMessage(params)),
                SessionAction::Send(reply(id_json(id), JsonSpec::Null)),
            ),
        ),
        ParamsKind::LogMessage => (session, told(LspNotification::LogMessage(params))),
        ParamsKind::Progress => (
            session,
            told(
                LspNotification::Progress {
                    token: progress_token(params),
                    value: match params.get("value"@) {
                        Some(value) => value,
                        None => JsonSpec::Null,
                    },
                },
            ),
        ),
    }
}

/// The parameters that a message of the server comes with, where it comes with any that matter.
pub open spec fn params_kind(method: Seq<char>) -> Option<ParamsKind> {
    if method == "textDocument/publishDiagnostics"@ {
        Some(ParamsKind::PublishDiagnostics)
    } else if method == "workspace/applyEdit"@ {
        Some(ParamsKind::ApplyEdit)
    } else if method == "workspace/configuration"@ {
        Some(ParamsKind::Configuration)
    } else if method == "window/showMessageRequest"@ {
        Some(ParamsKind::ShowMessage)
    } else if method == "window/logMessage"@ {
        Some(ParamsKind::LogMessage)
    } else if method == "$/progress"@ {
        Some(ParamsKind::Progress)
    } else {
        None
    }
}

/// What a session does upon a message that the server sends of its own accord, once it is read.
/// `raw` is the message as it came.
pub open spec fn server_step(
    session: Session,
    message: RpcRequest<JsonSpec, Seq<char>>,
    raw: JsonSpec,
) -> Step {
    match params_kind(message.method) {
        Some(kind) => match message.params {
            None => (
                session,
                failure(
                    if kind is ApplyEdit {
                        SessionError::MissingEdit(shown_request(by_name(raw)))
                    } else {
                        SessionError::MissingParams
                    },
                ),
            ),
            Some(params) => match decoded_params(kind, params) {
                Err(fault) => (session, failure(SessionError::WrongParams(fault))),
                Ok(params) => params_step(session, kind, message.id, params),
            },
        },
        None => if message.method == "window/workDoneProgress/create"@ {
            (session, sent(reply(id_json(message.id), JsonSpec::Null)))
        } else if message.method == "client/registerCapability"@ {
            (
                session,
                sent(
                    error_reply(
                        id_json(message.id),
                        METHOD_NOT_FOUND,
                        "Dynamic capability registration is not supported"@,
                    ),
                ),
            )
        } else {
            (session, nothing())
        },
    }
}

/// What a session does upon a message of the server. Only a message that the server sends of its
/// own accord names a method.
pub open spec fn reply_step(session: Session, message: JsonSpec) -> Step {
    match message.get("error"@) {
        Some(error) => (
            session,
            failure(
                SessionError::ErrorField {
                    method: answered_method(session, message),
                    message: error_message(error),
                    hint: hint_text(error_message(error)),
                },
            ),
        ),
        None => match message.get("method"@) {
            None => response_step(session, message),
            Some(_) => match rpc_request(by_name(message)) {
                Err(fault) => (session, failure(SessionError::NotRequest(fault))),
                Ok(request) => server_step(session, request, message),
            },
        },
    }
}

/// What a session does when the editor cannot make its own what it was told: the message that the
/// editor was told of fails.
pub open spec fn conversion_step(session: Session, fault: Seq<char>) -> Step {
    (session, failure(SessionError::NotConverted(fault)))
}

/// Answers a request to apply an edit.
pub open spec fn edit_step(
    session: Session,
    id: MessageId<Seq<char>>,
    failed: Option<Seq<char>>,
) -> Step {
    (
        session,
        sent(
            reply(
                id_json(Some(id)),
                match failed {
                    None => edit_applied(),
                    Some(reason) => edit_failed(reason),
                },
            ),
        ),
    )
}

} // verus!
