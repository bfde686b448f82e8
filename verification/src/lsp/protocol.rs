//! What passes between the editor and a language server session.

use crate::json::{copy_list, items_view, Json};
use crate::path::AbsolutePath;
use vstd::prelude::*;

verus! {

/// How far a request looks.
#[derive(Clone, Copy, Debug, PartialEq, Eq, Structural)]
pub enum Scope {
    Local,
    Global,
}

/// What the editor wants to find again in the answer to a request.
#[derive(Debug)]
pub struct ResponseContext {
    pub scope: Option<Scope>,
    pub description: Option<String>,
}

impl Default for ResponseContext {
    fn default() -> (context: ResponseContext)
        ensures
            context == (ResponseContext { scope: None, description: None }),
    {
        ResponseContext { scope: None, description: None }
    }
}

impl ResponseContext {
    /// The context with another description.
    pub fn set_description(self, description: &str) -> (context: ResponseContext)
        ensures
            context.scope == self.scope,
            context.description is Some,
            context.description->0@ == description@,
    {
        ResponseContext { scope: self.scope, description: Some(description.to_owned()) }
    }

    /// The same context.
    pub fn copy(&self) -> (copy: ResponseContext)
        ensures
            copy == *self,
    {
        let description = match &self.description {
            Some(description) => Some(description.clone()),
            None => None,
        };
        ResponseContext { scope: self.scope, description }
    }
}

/// A place in a document.
#[derive(Clone, Copy, Debug, PartialEq, Eq, Structural)]
pub struct Position {
    pub line: u32,
    pub character: u32,
}

/// What most requests are made of.
#[derive(Debug)]
pub struct RequestParams {
    pub path: AbsolutePath,
    pub position: Position,
    pub selection_end: Position,
    pub context: ResponseContext,
}

impl RequestParams {
    /// The same parameters.
    pub fn copy(&self) -> (copy: RequestParams)
        ensures
            copy == *self,
    {
        RequestParams {
            path: self.path.copy(),
            position: self.position,
            selection_end: self.selection_end,
            context: self.context.copy(),
        }
    }
}

/// Which calls of a call hierarchy are asked for.
#[derive(Clone, Copy, Debug, PartialEq, Eq, Structural)]
pub enum CallHierarchyDirection {
    Incoming,
    Outgoing,
}

/// A command that a server offers to run.
#[derive(Debug)]
pub struct Command {
    pub title: String,
    pub command: String,
    pub arguments: Option<Vec<Json>>,
}

impl Command {
    /// The same command.
    pub fn copy(&self) -> (copy: Command)
        ensures
            same_command(copy, *self),
    {
        let arguments = match &self.arguments {
            Some(arguments) => Some(copy_list(arguments)),
            None => None,
        };
        Command { title: self.title.clone(), command: self.command.clone(), arguments }
    }
}

/// Whether two commands are the same, for whoever reads them.
pub open spec fn same_command(left: Command, right: Command) -> bool {
    &&& left.title@ == right.title@
    &&& left.command@ == right.command@
    &&& match (left.arguments, right.arguments) {
        (Some(left), Some(right)) => items_view(left@) == items_view(right@),
        (None, None) => true,
        _ => false,
    }
}

/// What the editor asks of a language server, or tells it.
#[allow(inconsistent_fields)]
#[derive(Debug)]
pub enum FromEditor {
    TextDocumentHover(RequestParams),
    TextDocumentCompletion(RequestParams),
    TextDocumentDefinition(RequestParams),
    TextDocumentReferences { params: RequestParams, include_declaration: bool },
    TextDocumentDidOpen {
        file_path: AbsolutePath,
        language_id: String,
        version: usize,
        content: String,
    },
    TextDocumentDidChange { file_path: AbsolutePath, version: i32, content: String },
    TextDocumentDidClose { file_path: AbsolutePath },
    TextDocumentDidSave { file_path: AbsolutePath },
    TextDocumentPrepareRename(RequestParams),
    TextDocumentRename { params: RequestParams, new_name: String },
    /// The diagnostics are written as they are, with their members in the order in which they have
    /// them.
    TextDocumentCodeAction { params: RequestParams, diagnostics: Vec<Json> },
    TextDocumentSignatureHelp(RequestParams),
    TextDocumentDeclaration(RequestParams),
    TextDocumentImplementation(RequestParams),
    TextDocumentTypeDefinition(RequestParams),
    TextDocumentDocumentSymbol(RequestParams),
    WorkspaceSymbol { query: String, context: ResponseContext },
    WorkspaceDidRenameFiles { old: AbsolutePath, new: AbsolutePath },
    WorkspaceDidCreateFiles { file_path: AbsolutePath },
    WorkspaceExecuteCommand { params: RequestParams, command: Command },
    /// The item is written as it is.
    CompletionItemResolve { completion_item: Json, params: RequestParams },
    /// The action is written as it is.
    CodeActionResolve { code_action: Json, params: RequestParams },
    TextDocumentPrepareCallHierarchy { params: RequestParams, direction: CallHierarchyDirection },
}

/// Whether two messages are the same, for whoever reads them.
pub open spec fn same_message(left: FromEditor, right: FromEditor) -> bool {
    match (left, right) {
        (
            FromEditor::TextDocumentCodeAction { params, diagnostics },
            FromEditor::TextDocumentCodeAction { params: others, diagnostics: other_diagnostics },
        ) => params == others && items_view(diagnostics@) == items_view(other_diagnostics@),
        (
            FromEditor::WorkspaceExecuteCommand { params, command },
            FromEditor::WorkspaceExecuteCommand { params: others, command: other },
        ) => params == others && same_command(command, other),
        (
            FromEditor::CompletionItemResolve { completion_item, params },
            FromEditor::CompletionItemResolve { completion_item: other, params: others },
        ) => params == others && completion_item@ == other@,
        (
            FromEditor::CodeActionResolve { code_action, params },
            FromEditor::CodeActionResolve { code_action: other, params: others },
        ) => params == others && code_action@ == other@,
        _ => left == right,
    }
}

impl FromEditor {
    /// The same message.
    pub fn copy(&self) -> (copy: FromEditor)
        ensures
            same_message(copy, *self),
    {
        match self {
            FromEditor::TextDocumentHover(params) => FromEditor::TextDocumentHover(params.copy()),
            FromEditor::TextDocumentCompletion(params) => FromEditor::TextDocumentCompletion(
                params.copy(),
            ),
            FromEditor::TextDocumentDefinition(params) => FromEditor::TextDocumentDefinition(
                params.copy(),
            ),
            FromEditor::TextDocumentReferences { params, include_declaration } =>
                FromEditor::TextDocumentReferences {
                params: params.copy(),
                include_declaration: *include_declaration,
            },
            FromEditor::TextDocumentDidOpen { file_path, language_id, version, content } =>
                FromEditor::TextDocumentDidOpen {
                file_path: file_path.copy(),
                language_id: language_id.clone(),
                version: *version,
                content: content.clone(),
            },
            FromEditor::TextDocumentDidChange { file_path, version, content } =>
                FromEditor::TextDocumentDidChange {
                file_path: file_path.copy(),
                version: *version,
                content: content.clone(),
            },
            FromEditor::TextDocumentDidClose { file_path } => FromEditor::TextDocumentDidClose {
                file_path: file_path.copy(),
            },
            FromEditor::TextDocumentDidSave { file_path } => FromEditor::TextDocumentDidSave {
                file_path: file_path.copy(),
            },
            FromEditor::TextDocumentPrepareRename(params) => FromEditor::TextDocumentPrepareRename(
                params.copy(),
            ),
            FromEditor::TextDocumentRename { params, new_name } => FromEditor::TextDocumentRename {
                params: params.copy(),
                new_name: new_name.clone(),
            },
            FromEditor::TextDocumentCodeAction { params, diagnostics } =>
                FromEditor::TextDocumentCodeAction {
                params: params.copy(),
                diagnostics: copy_list(diagnostics),
            },
            FromEditor::TextDocumentSignatureHelp(params) => FromEditor::TextDocumentSignatureHelp(
                params.copy(),
            ),
            FromEditor::TextDocumentDeclaration(params) => FromEditor::TextDocumentDeclaration(
                params.copy(),
            ),
            FromEditor::TextDocumentImplementation(params) =>
                FromEditor::TextDocumentImplementation(params.copy()),
            FromEditor::TextDocumentTypeDefinition(params) =>
                FromEditor::TextDocumentTypeDefinition(params.copy()),
            FromEditor::TextDocumentDocumentSymbol(params) =>
                FromEditor::TextDocumentDocumentSymbol(params.copy()),
            FromEditor::WorkspaceSymbol { query, context } => FromEditor::WorkspaceSymbol {
                query: query.clone(),
                context: context.copy(),
            },
            FromEditor::WorkspaceDidRenameFiles { old: old_path, new: new_path } =>
                FromEditor::WorkspaceDidRenameFiles {
                old: old_path.copy(),
                new: new_path.copy(),
            },
            FromEditor::WorkspaceDidCreateFiles { file_path } =>
                FromEditor::WorkspaceDidCreateFiles { file_path: file_path.copy() },
            FromEditor::WorkspaceExecuteCommand { params, command } =>
                FromEditor::WorkspaceExecuteCommand {
                params: params.copy(),
                command: command.copy(),
            },
            FromEditor::CompletionItemResolve { completion_item, params } =>
                FromEditor::CompletionItemResolve {
                completion_item: completion_item.copy(),
                params: params.copy(),
            },
            FromEditor::CodeActionResolve { code_action, params } =>
                FromEditor::CodeActionResolve {
                code_action: code_action.copy(),
                params: params.copy(),
            },
            FromEditor::TextDocumentPrepareCallHierarchy { params, direction } =>
                FromEditor::TextDocumentPrepareCallHierarchy {
                params: params.copy(),
                direction: *direction,
            },
        }
    }

    /// The name of the message's kind.
    pub open spec fn spec_variant(self) -> Seq<char> {
        match self {
            FromEditor::TextDocumentHover(_) => "TextDocumentHover"@,
            FromEditor::TextDocumentCompletion(_) => "TextDocumentCompletion"@,
            FromEditor::TextDocumentDefinition(_) => "TextDocumentDefinition"@,
            FromEditor::TextDocumentReferences { .. } => "TextDocumentReferences"@,
            FromEditor::TextDocumentDidOpen { .. } => "TextDocumentDidOpen"@,
            FromEditor::TextDocumentDidChange { .. } => "TextDocumentDidChange"@,
            FromEditor::TextDocumentDidClose { .. } => "TextDocumentDidClose"@,
            FromEditor::TextDocumentDidSave { .. } => "TextDocumentDidSave"@,
            FromEditor::TextDocumentPrepareRename(_) => "TextDocumentPrepareRename"@,
            FromEditor::TextDocumentRename { .. } => "TextDocumentRename"@,
            FromEditor::TextDocumentCodeAction { .. } => "TextDocumentCodeAction"@,
            FromEditor::TextDocumentSignatureHelp(_) => "TextDocumentSignatureHelp"@,
            FromEditor::TextDocumentDeclaration(_) => "TextDocumentDeclaration"@,
            FromEditor::TextDocumentImplementation(_) => "TextDocumentImplementation"@,
            FromEditor::TextDocumentTypeDefinition(_) => "TextDocumentTypeDefinition"@,
            FromEditor::TextDocumentDocumentSymbol(_) => "TextDocumentDocumentSymbol"@,
            FromEditor::WorkspaceSymbol { .. } => "WorkspaceSymbol"@,
            FromEditor::WorkspaceDidRenameFiles { .. } => "WorkspaceDidRenameFiles"@,
            FromEditor::WorkspaceDidCreateFiles { .. } => "WorkspaceDidCreateFiles"@,
            FromEditor::WorkspaceExecuteCommand { .. } => "WorkspaceExecuteCommand"@,
            FromEditor::CompletionItemResolve { .. } => "CompletionItemResolve"@,
            FromEditor::CodeActionResolve { .. } => "CodeActionResolve"@,
            FromEditor::TextDocumentPrepareCallHierarchy { .. } =>
                "TextDocumentPrepareCallHierarchy"@,
        }
    }

    /// The name of the message's kind.
    pub fn variant(&self) -> (name: &'static str)
        ensures
            name@ == self.spec_variant(),
    {
        match self {
            FromEditor::TextDocumentHover(_) => "TextDocumentHover",
            FromEditor::TextDocumentCompletion(_) => "TextDocumentCompletion",
            FromEditor::TextDocumentDefinition(_) => "TextDocumentDefinition",
            FromEditor::TextDocumentReferences { .. } => "TextDocumentReferences",
            FromEditor::TextDocumentDidOpen { .. } => "TextDocumentDidOpen",
            FromEditor::TextDocumentDidChange { .. } => "TextDocumentDidChange",
            FromEditor::TextDocumentDidClose { .. } => "TextDocumentDidClose",
            FromEditor::TextDocumentDidSave { .. } => "TextDocumentDidSave",
            FromEditor::TextDocumentPrepareRename(_) => "TextDocumentPrepareRename",
            FromEditor::TextDocumentRename { .. } => "TextDocumentRename",
            FromEditor::TextDocumentCodeAction { .. } => "TextDocumentCodeAction",
            FromEditor::TextDocumentSignatureHelp(_) => "TextDocumentSignatureHelp",
            FromEditor::TextDocumentDeclaration(_) => "TextDocumentDeclaration",
            FromEditor::TextDocumentImplementation(_) => "TextDocumentImplementation",
            FromEditor::TextDocumentTypeDefinition(_) => "TextDocumentTypeDefinition",
            FromEditor::TextDocumentDocumentSymbol(_) => "TextDocumentDocumentSymbol",
            FromEditor::WorkspaceSymbol { .. } => "WorkspaceSymbol",
            FromEditor::WorkspaceDidRenameFiles { .. } => "WorkspaceDidRenameFiles",
            FromEditor::WorkspaceDidCreateFiles { .. } => "WorkspaceDidCreateFiles",
            FromEditor::WorkspaceExecuteCommand { .. } => "WorkspaceExecuteCommand",
            FromEditor::CompletionItemResolve { .. } => "CompletionItemResolve",
            FromEditor::CodeActionResolve { .. } => "CodeActionResolve",
            FromEditor::TextDocumentPrepareCallHierarchy { .. } =>
                "TextDocumentPrepareCallHierarchy",
        }
    }

    /// Whether the message tells of the life of a document or a file. Such a message goes to every
    /// server of a language, and its loss is no error.
    pub open spec fn spec_is_lifecycle(self) -> bool {
        ||| self is TextDocumentDidOpen
        ||| self is TextDocumentDidChange
        ||| self is TextDocumentDidClose
        ||| self is TextDocumentDidSave
        ||| self is WorkspaceDidRenameFiles
        ||| self is WorkspaceDidCreateFiles
    }

    /// Whether the message tells of the life of a document or a file.
    pub fn is_lifecycle(&self) -> (lifecycle: bool)
        ensures
            lifecycle == self.spec_is_lifecycle(),
    {
        matches!(
            self,
            FromEditor::TextDocumentDidOpen { .. }
            | FromEditor::TextDocumentDidChange { .. }
            | FromEditor::TextDocumentDidClose { .. }
            | FromEditor::TextDocumentDidSave { .. }
            | FromEditor::WorkspaceDidRenameFiles { .. }
            | FromEditor::WorkspaceDidCreateFiles { .. }
        )
    }
}

/// The requests that a session sends.
#[derive(Clone, Copy, Debug, PartialEq, Eq, Structural)]
pub enum RequestMethod {
    Initialize,
    Shutdown,
    Completion,
    Hover,
    Diagnostic,
    Definition,
    References,
    Declaration,
    TypeDefinition,
    Implementation,
    PrepareRename,
    Rename,
    CodeAction,
    CodeActionResolve,
    SignatureHelp,
    DocumentSymbol,
    CompletionItemResolve,
    WorkspaceSymbol,
    ExecuteCommand,
    PrepareCallHierarchy,
    IncomingCalls,
    OutgoingCalls,
}

impl RequestMethod {
    /// The method's name in the protocol.
    pub open spec fn spec_name(self) -> Seq<char> {
        match self {
            RequestMethod::Initialize => "initialize"@,
            RequestMethod::Shutdown => "shutdown"@,
            RequestMethod::Completion => "textDocument/completion"@,
            RequestMethod::Hover => "textDocument/hover"@,
            RequestMethod::Diagnostic => "textDocument/diagnostic"@,
            RequestMethod::Definition => "textDocument/definition"@,
            RequestMethod::References => "textDocument/references"@,
            RequestMethod::Declaration => "textDocument/declaration"@,
            RequestMethod::TypeDefinition => "textDocument/typeDefinition"@,
            RequestMethod::Implementation => "textDocument/implementation"@,
            RequestMethod::PrepareRename => "textDocument/prepareRename"@,
            RequestMethod::Rename => "textDocument/rename"@,
            RequestMethod::CodeAction => "textDocument/codeAction"@,
            RequestMethod::CodeActionResolve => "codeAction/resolve"@,
            RequestMethod::SignatureHelp => "textDocument/signatureHelp"@,
            RequestMethod::DocumentSymbol => "textDocument/documentSymbol"@,
            RequestMethod::CompletionItemResolve => "completionItem/resolve"@,
            RequestMethod::WorkspaceSymbol => "workspace/symbol"@,
            RequestMethod::ExecuteCommand => "workspace/executeCommand"@,
            RequestMethod::PrepareCallHierarchy => "textDocument/prepareCallHierarchy"@,
            RequestMethod::IncomingCalls => "callHierarchy/incomingCalls"@,
            RequestMethod::OutgoingCalls => "callHierarchy/outgoingCalls"@,
        }
    }

    /// The method's name in the protocol.
    pub fn name(self) -> (name: &'static str)
        ensures
            name@ == self.spec_name(),
    {
        match self {
            RequestMethod::Initialize => "initialize",
            RequestMethod::Shutdown => "shutdown",
            RequestMethod::Completion => "textDocument/completion",
            RequestMethod::Hover => "textDocument/hover",
            RequestMethod::Diagnostic => "textDocument/diagnostic",
            RequestMethod::Definition => "textDocument/definition",
            RequestMethod::References => "textDocument/references",
            RequestMethod::Declaration => "textDocument/declaration",
            RequestMethod::TypeDefinition => "textDocument/typeDefinition",
            RequestMethod::Implementation => "textDocument/implementation",
            RequestMethod::PrepareRename => "textDocument/prepareRename",
            RequestMethod::Rename => "textDocument/rename",
            RequestMethod::CodeAction => "textDocument/codeAction",
            RequestMethod::CodeActionResolve => "codeAction/resolve",
            RequestMethod::SignatureHelp => "textDocument/signatureHelp",
            RequestMethod::DocumentSymbol => "textDocument/documentSymbol",
            RequestMethod::CompletionItemResolve => "completionItem/resolve",
            RequestMethod::WorkspaceSymbol => "workspace/symbol",
            RequestMethod::ExecuteCommand => "workspace/executeCommand",
            RequestMethod::PrepareCallHierarchy => "textDocument/prepareCallHierarchy",
            RequestMethod::IncomingCalls => "callHierarchy/incomingCalls",
            RequestMethod::OutgoingCalls => "callHierarchy/outgoingCalls",
        }
    }
}

/// A request that waits for its answer.
#[derive(Debug)]
pub struct PendingResponseRequest {
    pub method: RequestMethod,
    pub context: ResponseContext,
    pub path: Option<AbsolutePath>,
}

/// How a server names a request of its own. `T` is how texts are held.
#[derive(Debug)]
pub enum MessageId<T> {
    Number(u64),
    Text(T),
}

/// What the editor learns from a server. `J` is how JSON is held and `T` how texts are.
#[derive(Debug)]
pub enum LspNotification<J, T> {
    Initialized { server_id: T, root: T },
    PublishDiagnostics { server_id: T, params: J },
    Completion { context: ResponseContext, trigger_characters: J, items: J },
    Hover(J),
    Definition(ResponseContext, J),
    References(ResponseContext, J),
    PrepareRenameResponse(J),
    Error(T),
    /// An edit. Where the server asked for it, the name of that request, which is to be answered.
    WorkspaceEdit { edit: J, respond: Option<MessageId<T>> },
    CodeAction(J),
    CodeActionResolve(J),
    SignatureHelp(Option<J>),
    DocumentSymbols { symbols: J, path: T },
    WorkspaceSymbols { symbols: J, root: T },
    CompletionItemResolve(J),
    ShowMessage(J),
    LogMessage(J),
    /// How far some work of the server is, under the name of that work.
    Progress { token: T, value: J },
    CallHierarchyIncomingCalls(ResponseContext, J),
    CallHierarchyOutgoingCalls(ResponseContext, J),
}

/// What is to be done for a session. `J` is how JSON is held and `T` how texts are.
#[derive(Debug)]
pub enum SessionAction<J, T> {
    /// Send a message to the server.
    Send(J),
    /// Tell the editor.
    Notify(LspNotification<J, T>),
    /// End the session.
    Exit,
}

/// A message tells of the life of a document or a file if it says that one was opened, changed,
/// saved or closed, got a new name, or was created. A question is none.
pub proof fn law_questions_tell_of_no_life(message: FromEditor)
    ensures
        match message {
            FromEditor::TextDocumentDidOpen { .. }
            | FromEditor::TextDocumentDidChange { .. }
            | FromEditor::TextDocumentDidClose { .. }
            | FromEditor::TextDocumentDidSave { .. }
            | FromEditor::WorkspaceDidRenameFiles { .. }
            | FromEditor::WorkspaceDidCreateFiles { .. } => message.spec_is_lifecycle(),
            _ => !message.spec_is_lifecycle(),
        },
{
}

} // verus!
