//! A session with a language server.
//!
//! The session holds no process and no pipe: it is told what happens, and says what is to be done.

use crate::decimal::{print_number, print_signed};
use crate::json::{show_json, Json, JsonSpec};
use crate::lsp::channel::SendError;
use crate::lsp::capabilities::{
    read_capabilities, PositionEncoding, ServerCapabilities, TextDocumentSyncKind,
};
use crate::lsp::configuration::{hint_for_lsp_error, hint_text, workspace_configuration_response};
use crate::lsp::decode::{
    decode_params, decode_request, decode_response, decode_result, id_view, request_view,
    response_view, show_request, ParamsKind, RpcRequest,
};
use crate::lsp::messages::{
    diagnostics_of, make_code_action_params, make_command_params, make_diagnostic_params,
    make_diagnostics_of, make_did_change_params, make_did_create_params, make_did_open_params,
    make_did_rename_params, make_document_params, make_edit_applied, make_edit_failed,
    make_error_reply, make_full_change, make_id_json, make_initialize_params, make_item_params,
    make_notification, make_ordered_call_item, make_position_params, make_ranged_change,
    make_references_params, make_rename_params, make_reply, make_request, make_symbol_params,
    notification, METHOD_NOT_FOUND,
};
use crate::lsp::outcome::{action_view, Outcome};
use crate::lsp::positions::document_end_position;
use crate::lsp::protocol::{
    CallHierarchyDirection, Command, FromEditor, LspNotification, MessageId, PendingResponseRequest,
    RequestMethod, RequestParams, ResponseContext, SessionAction,
};
use crate::lsp::server_config::{resolve_initialization_options, LspDiagnosticMode};
use crate::lsp::session::{
    abandoned_step, announced_capabilities, answered_method, asked_at, calls_step, completion_items,
    conversion_step, diagnostics_step, edit_step, editor_step, error_message, failure, full_report,
    initialize_step, nothing, params_kind, params_step, payload_step, progress_token, reply_step,
    request_number, request_step, response_step, result_step, server_step, shutdown_step, told, two,
    unwritten_step, OutcomeSpec, Session, SessionError, Step,
};
use crate::lsp::uri::{file_uri, path_buf_to_url};
use crate::path::AbsolutePath;
use crate::table::TextTable;
use crate::text::{str_eq, str_of, text_of};
use std::collections::HashMap;
use vstd::prelude::*;

verus! {

broadcast use vstd::std_specs::hash::group_hash_axioms;

/// A session with a language server.
pub struct LspServerProcess {
    /// The name of the server in the configuration.
    pub server_id: String,
    /// The root of the workspace.
    pub current_working_directory: AbsolutePath,
    pub diagnostic_mode: LspDiagnosticMode,
    /// The options of the server, as they are configured.
    pub initialization_options: Option<Json>,
    /// Where the TypeScript plugin for Vue is, if it is there.
    pub vue_typescript_plugin: Option<String>,
    /// What the server says that it can do, once it did.
    pub server_capabilities: Option<ServerCapabilities>,
    /// The documents that are open, with the text that the server knows of.
    pub synchronized_documents: TextTable,
    pub next_request_id: u64,
    /// The requests that wait for their answers.
    pub pending_response_requests: HashMap<u64, PendingResponseRequest>,
    /// Which calls are asked for by the requests that prepare a call hierarchy.
    pub pending_call_hierarchy_directions: HashMap<u64, CallHierarchyDirection>,
    pub is_initialized: bool,
}

impl View for LspServerProcess {
    type V = Session;

    open spec fn view(&self) -> Session {
        Session {
            server_id: self.server_id@,
            root: self.current_working_directory@,
            diagnostic_mode: self.diagnostic_mode,
            options: match self.initialization_options {
                Some(options) => Some(options@),
                None => None,
            },
            plugin: match self.vue_typescript_plugin {
                Some(plugin) => Some(plugin@),
                None => None,
            },
            capabilities: match self.server_capabilities {
                Some(capabilities) => Some(capabilities@),
                None => None,
            },
            documents: self.synchronized_documents@,
            next_request_id: self.next_request_id,
            pending: self.pending_response_requests@,
            directions: self.pending_call_hierarchy_directions@,
            is_initialized: self.is_initialized,
        }
    }
}

impl LspServerProcess {
    /// A session that has not begun.
    pub fn new(
        server_id: String,
        root: AbsolutePath,
        diagnostic_mode: LspDiagnosticMode,
        initialization_options: Option<Json>,
        vue_typescript_plugin: Option<String>,
    ) -> (process: LspServerProcess)
        ensures
            process@ == (Session {
                server_id: server_id@,
                root: root@,
                diagnostic_mode,
                options: match initialization_options {
                    Some(options) => Some(options@),
                    None => None,
                },
                plugin: match vue_typescript_plugin {
                    Some(plugin) => Some(plugin@),
                    None => None,
                },
                capabilities: None,
                documents: Map::empty(),
                next_request_id: 0,
                pending: Map::empty(),
                directions: Map::empty(),
                is_initialized: false,
            }),
    {
        LspServerProcess {
            server_id,
            current_working_directory: root,
            diagnostic_mode,
            initialization_options,
            vue_typescript_plugin,
            server_capabilities: None,
            synchronized_documents: TextTable::new(),
            next_request_id: 0,
            pending_response_requests: HashMap::new(),
            pending_call_hierarchy_directions: HashMap::new(),
            is_initialized: false,
        }
    }

    /// Sends a request, and keeps in mind that it waits for its answer. Gives the number under
    /// which the answer will come.
    pub fn send_request(
        &mut self,
        method: RequestMethod,
        context: ResponseContext,
        path: Option<AbsolutePath>,
        params: Json,
    ) -> (sent: (u64, Outcome))
        requires
            old(self)@.next_request_id < u64::MAX,
        ensures
            sent.0 == old(self)@.next_request_id,
            (final(self)@, sent.1@) == request_step(old(self)@, method, context, path, params@),
    {
        let id = self.next_request_id;
        self.next_request_id = id + 1;
        let message = make_request(method.name(), params, id);
        self.pending_response_requests.insert(id, PendingResponseRequest { method, context, path });
        (id, Outcome::sent(message))
    }

    /// Sends a request, and leaves its number to the session.
    fn ask(
        &mut self,
        method: RequestMethod,
        context: ResponseContext,
        path: Option<AbsolutePath>,
        params: Json,
    ) -> (outcome: Outcome)
        requires
            old(self)@.next_request_id < u64::MAX,
        ensures
            (final(self)@, outcome@) == request_step(old(self)@, method, context, path, params@),
    {
        self.send_request(method, context, path, params).1
    }

    /// Sends a request about a place in a document.
    fn ask_at(&mut self, method: RequestMethod, params: RequestParams) -> (outcome: Outcome)
        requires
            old(self)@.next_request_id < u64::MAX,
        ensures
            (final(self)@, outcome@) == asked_at(old(self)@, true, method, params),
    {
        let uri = path_buf_to_url(&params.path);
        let json = make_position_params(uri.as_str(), params.position);
        self.ask(method, params.context, Some(params.path), json)
    }

    fn server_supports_pull_diagnostics(&self) -> (supports: bool)
        ensures
            supports == self@.supports_pull_diagnostics(),
    {
        match self.diagnostic_mode {
            LspDiagnosticMode::Push => false,
            _ => match &self.server_capabilities {
                Some(capabilities) => capabilities.providers.diagnostic,
                None => false,
            },
        }
    }

    fn request_document_diagnostics(&mut self, file_path: AbsolutePath) -> (outcome: Outcome)
        requires
            old(self)@.next_request_id < u64::MAX,
        ensures
            (final(self)@, outcome@) == diagnostics_step(old(self)@, file_path),
    {
        if !self.server_supports_pull_diagnostics() {
            return Outcome::nothing();
        }
        let uri = path_buf_to_url(&file_path);
        let json = make_diagnostic_params(uri.as_str());
        self.ask(
            RequestMethod::Diagnostic,
            ResponseContext::default(),
            Some(file_path),
            json,
        )
    }

    /// Sends `textDocument/hover`, where the server answers it.
    pub fn text_document_hover(&mut self, params: RequestParams) -> (outcome: Outcome)
        requires
            old(self)@.next_request_id < u64::MAX,
        ensures
            (final(self)@, outcome@) == editor_step(
                old(self)@,
                FromEditor::TextDocumentHover(params),
            ),
    {
        let supported = match &self.server_capabilities {
            Some(capabilities) => capabilities.providers.hover,
            None => false,
        };
        if !supported {
            return Outcome::nothing();
        }
        self.ask_at(RequestMethod::Hover, params)
    }

    /// Sends `textDocument/completion`, where the server answers it.
    pub fn text_document_completion(&mut self, params: RequestParams) -> (outcome: Outcome)
        requires
            old(self)@.next_request_id < u64::MAX,
        ensures
            (final(self)@, outcome@) == editor_step(
                old(self)@,
                FromEditor::TextDocumentCompletion(params),
            ),
    {
        let supported = match &self.server_capabilities {
            Some(capabilities) => capabilities.providers.completion,
            None => false,
        };
        if !supported {
            return Outcome::nothing();
        }
        self.ask_at(RequestMethod::Completion, params)
    }

    /// Sends `textDocument/definition`, where the server answers it.
    pub fn text_document_definition(&mut self, params: RequestParams) -> (outcome: Outcome)
        requires
            old(self)@.next_request_id < u64::MAX,
        ensures
            (final(self)@, outcome@) == editor_step(
                old(self)@,
                FromEditor::TextDocumentDefinition(params),
            ),
    {
        let supported = match &self.server_capabilities {
            Some(capabilities) => capabilities.providers.definition,
            None => false,
        };
        if !supported {
            return Outcome::nothing();
        }
        self.ask_at(RequestMethod::Definition, params)
    }

    /// Sends `textDocument/declaration`, where the server answers it.
    pub fn text_document_declaration(&mut self, params: RequestParams) -> (outcome: Outcome)
        requires
            old(self)@.next_request_id < u64::MAX,
        ensures
            (final(self)@, outcome@) == editor_step(
                old(self)@,
                FromEditor::TextDocumentDeclaration(params),
            ),
    {
        let supported = match &self.server_capabilities {
            Some(capabilities) => capabilities.providers.declaration,
            None => false,
        };
        if !supported {
            return Outcome::nothing();
        }
        self.ask_at(RequestMethod::Declaration, params)
    }

    /// Sends `textDocument/implementation`, where the server answers it.
    pub fn text_document_implementation(&mut self, params: RequestParams) -> (outcome: Outcome)
        requires
            old(self)@.next_request_id < u64::MAX,
        ensures
            (final(self)@, outcome@) == editor_step(
                old(self)@,
                FromEditor::TextDocumentImplementation(params),
            ),
    {
        let supported = match &self.server_capabilities {
            Some(capabilities) => capabilities.providers.implementation,
            None => false,
        };
        if !supported {
            return Outcome::nothing();
        }
        self.ask_at(RequestMethod::Implementation, params)
    }

    /// Sends `textDocument/typeDefinition`, where the server answers it.
    pub fn text_document_type_definition(&mut self, params: RequestParams) -> (outcome: Outcome)
        requires
            old(self)@.next_request_id < u64::MAX,
        ensures
            (final(self)@, outcome@) == editor_step(
                old(self)@,
                FromEditor::TextDocumentTypeDefinition(params),
            ),
    {
        let supported = match &self.server_capabilities {
            Some(capabilities) => capabilities.providers.type_definition,
            None => false,
        };
        if !supported {
            return Outcome::nothing();
        }
        self.ask_at(RequestMethod::TypeDefinition, params)
    }

    /// Sends `textDocument/prepareRename`, where the server answers it.
    pub fn text_document_prepare_rename(&mut self, params: RequestParams) -> (outcome: Outcome)
        requires
            old(self)@.next_request_id < u64::MAX,
        ensures
            (final(self)@, outcome@) == editor_step(
                old(self)@,
                FromEditor::TextDocumentPrepareRename(params),
            ),
    {
        let supported = match &self.server_capabilities {
            Some(capabilities) => capabilities.providers.rename,
            None => false,
        };
        if !supported {
            return Outcome::nothing();
        }
        self.ask_at(RequestMethod::PrepareRename, params)
    }

    /// Sends `textDocument/signatureHelp`, where the server answers it.
    pub fn text_document_signature_help(&mut self, params: RequestParams) -> (outcome: Outcome)
        requires
            old(self)@.next_request_id < u64::MAX,
        ensures
            (final(self)@, outcome@) == editor_step(
                old(self)@,
                FromEditor::TextDocumentSignatureHelp(params),
            ),
    {
        let supported = match &self.server_capabilities {
            Some(capabilities) => capabilities.providers.signature_help,
            None => false,
        };
        if !supported {
            return Outcome::nothing();
        }
        self.ask_at(RequestMethod::SignatureHelp, params)
    }

    /// Sends `textDocument/references`, where the server answers it.
    pub fn text_document_references(
        &mut self,
        params: RequestParams,
        include_declaration: bool,
    ) -> (outcome: Outcome)
        requires
            old(self)@.next_request_id < u64::MAX,
        ensures
            (final(self)@, outcome@) == editor_step(
                old(self)@,
                FromEditor::TextDocumentReferences { params, include_declaration },
            ),
    {
        let supported = match &self.server_capabilities {
            Some(capabilities) => capabilities.providers.references,
            None => false,
        };
        if !supported {
            return Outcome::nothing();
        }
        let uri = path_buf_to_url(&params.path);
        let json = make_references_params(uri.as_str(), params.position, include_declaration);
        self.ask(RequestMethod::References, params.context, Some(params.path), json)
    }

    /// Sends `textDocument/rename`, where the server answers it.
    pub fn text_document_rename(
        &mut self,
        params: RequestParams,
        new_name: String,
    ) -> (outcome: Outcome)
        requires
            old(self)@.next_request_id < u64::MAX,
        ensures
            (final(self)@, outcome@) == editor_step(
                old(self)@,
                FromEditor::TextDocumentRename { params, new_name },
            ),
    {
        let supported = match &self.server_capabilities {
            Some(capabilities) => capabilities.providers.rename,
            None => false,
        };
        if !supported {
            return Outcome::nothing();
        }
        let uri = path_buf_to_url(&params.path);
        let json = make_rename_params(uri.as_str(), params.position, new_name.as_str());
        self.ask(RequestMethod::Rename, params.context, Some(params.path), json)
    }

    /// Sends `textDocument/codeAction`, where the server answers it.
    pub fn text_document_code_action(
        &mut self,
        params: RequestParams,
        diagnostics: Vec<Json>,
    ) -> (outcome: Outcome)
        requires
            old(self)@.next_request_id < u64::MAX,
        ensures
            (final(self)@, outcome@) == editor_step(
                old(self)@,
                FromEditor::TextDocumentCodeAction { params, diagnostics },
            ),
    {
        let supported = match &self.server_capabilities {
            Some(capabilities) => capabilities.providers.code_action,
            None => false,
        };
        if !supported {
            return Outcome::nothing();
        }
        let uri = path_buf_to_url(&params.path);
        let json = make_code_action_params(
            uri.as_str(),
            params.position,
            params.selection_end,
            Json::list(diagnostics),
        );
        self.ask(RequestMethod::CodeAction, params.context, Some(params.path), json)
    }

    /// Sends `textDocument/documentSymbol`, where the server answers it.
    pub fn text_document_document_symbol(&mut self, params: RequestParams) -> (outcome: Outcome)
        requires
            old(self)@.next_request_id < u64::MAX,
        ensures
            (final(self)@, outcome@) == editor_step(
                old(self)@,
                FromEditor::TextDocumentDocumentSymbol(params),
            ),
    {
        let supported = match &self.server_capabilities {
            Some(capabilities) => capabilities.providers.document_symbol,
            None => false,
        };
        if !supported {
            return Outcome::nothing();
        }
        let uri = path_buf_to_url(&params.path);
        let json = make_document_params(uri.as_str());
        self.ask(RequestMethod::DocumentSymbol, params.context, Some(params.path), json)
    }

    /// Sends `workspace/symbol`, where the server answers it.
    pub fn workspace_symbol(
        &mut self,
        context: ResponseContext,
        query: String,
    ) -> (outcome: Outcome)
        requires
            old(self)@.next_request_id < u64::MAX,
        ensures
            (final(self)@, outcome@) == editor_step(
                old(self)@,
                FromEditor::WorkspaceSymbol { query, context },
            ),
    {
        let supported = match &self.server_capabilities {
            Some(capabilities) => capabilities.providers.workspace_symbol,
            None => false,
        };
        if !supported {
            return Outcome::nothing();
        }
        let json = make_symbol_params(query.as_str());
        self.ask(RequestMethod::WorkspaceSymbol, context, None, json)
    }

    /// Sends `workspace/executeCommand`, where the server answers it.
    pub fn workspace_execute_command(
        &mut self,
        params: RequestParams,
        command: Command,
    ) -> (outcome: Outcome)
        requires
            old(self)@.next_request_id < u64::MAX,
        ensures
            (final(self)@, outcome@) == editor_step(
                old(self)@,
                FromEditor::WorkspaceExecuteCommand { params, command },
            ),
    {
        let supported = match &self.server_capabilities {
            Some(capabilities) => capabilities.providers.execute_command,
            None => false,
        };
        if !supported {
            return Outcome::nothing();
        }
        let arguments = match command.arguments {
            Some(arguments) => Json::list(arguments),
            None => Json::array(),
        };
        let json = make_command_params(command.command.as_str(), arguments);
        self.ask(RequestMethod::ExecuteCommand, params.context, Some(params.path), json)
    }

    /// Sends `completionItem/resolve`, where the server answers it.
    pub fn completion_item_resolve(
        &mut self,
        params: RequestParams,
        completion_item: Json,
    ) -> (outcome: Outcome)
        requires
            old(self)@.next_request_id < u64::MAX,
        ensures
            (final(self)@, outcome@) == editor_step(
                old(self)@,
                FromEditor::CompletionItemResolve { completion_item, params },
            ),
    {
        let supported = match &self.server_capabilities {
            Some(capabilities) => capabilities.providers.completion && match capabilities.providers.completion_resolve {
                Some(resolves) => resolves,
                None => false,
            },
            None => false,
        };
        if !supported {
            return Outcome::nothing();
        }
        self.ask(
            RequestMethod::CompletionItemResolve,
            params.context,
            Some(params.path),
            completion_item,
        )
    }

    /// Sends `codeAction/resolve`, where the server answers it.
    pub fn code_action_resolve(
        &mut self,
        params: RequestParams,
        code_action: Json,
    ) -> (outcome: Outcome)
        requires
            old(self)@.next_request_id < u64::MAX,
        ensures
            (final(self)@, outcome@) == editor_step(
                old(self)@,
                FromEditor::CodeActionResolve { code_action, params },
            ),
    {
        let supported = match &self.server_capabilities {
            Some(capabilities) => capabilities.providers.code_action && match capabilities.providers.code_action_resolve {
                Some(resolves) => resolves,
                None => false,
            },
            None => false,
        };
        if !supported {
            return Outcome::nothing();
        }
        self.ask(
            RequestMethod::CodeActionResolve,
            params.context,
            Some(params.path),
            code_action,
        )
    }

    /// Sends `textDocument/prepareCallHierarchy`, where the server answers it.
    pub fn text_document_prepare_call_hierarchy(
        &mut self,
        params: RequestParams,
        direction: CallHierarchyDirection,
    ) -> (outcome: Outcome)
        requires
            old(self)@.next_request_id < u64::MAX,
        ensures
            (final(self)@, outcome@) == editor_step(
                old(self)@,
                FromEditor::TextDocumentPrepareCallHierarchy { params, direction },
            ),
    {
        let supported = match &self.server_capabilities {
            Some(capabilities) => capabilities.providers.call_hierarchy,
            None => false,
        };
        if !supported {
            return Outcome::nothing();
        }
        let uri = path_buf_to_url(&params.path);
        let json = make_position_params(uri.as_str(), params.position);
        let (id, outcome) = self.send_request(
            RequestMethod::PrepareCallHierarchy,
            params.context,
            Some(params.path),
            json,
        );
        self.pending_call_hierarchy_directions.insert(id, direction);
        outcome
    }

    /// Tells of a file that was renamed, where the server wants to hear of that.
    pub fn workspace_did_rename_files(
        &mut self,
        old_path: AbsolutePath,
        new_path: AbsolutePath,
    ) -> (outcome: Outcome)
        requires
            old(self)@.next_request_id < u64::MAX,
        ensures
            (final(self)@, outcome@) == editor_step(
                old(self)@,
                FromEditor::WorkspaceDidRenameFiles { old: old_path, new: new_path },
            ),
    {
        let supported = match &self.server_capabilities {
            Some(capabilities) => capabilities.providers.did_rename_files,
            None => false,
        };
        if !supported {
            return Outcome::nothing();
        }
        let json = make_did_rename_params(old_path.as_str(), new_path.as_str());
        Outcome::sent(make_notification("workspace/didRenameFiles", json))
    }

    /// Tells of a file that was created, where the server wants to hear of that.
    pub fn workspace_did_create_files(&mut self, file_path: AbsolutePath) -> (outcome: Outcome)
        requires
            old(self)@.next_request_id < u64::MAX,
        ensures
            (final(self)@, outcome@) == editor_step(
                old(self)@,
                FromEditor::WorkspaceDidCreateFiles { file_path },
            ),
    {
        let supported = match &self.server_capabilities {
            Some(capabilities) => capabilities.providers.did_create_files,
            None => false,
        };
        if !supported {
            return Outcome::nothing();
        }
        let json = make_did_create_params(file_path.as_str());
        Outcome::sent(make_notification("workspace/didCreateFiles", json))
    }

    /// Tells of a document that is open now, where the server wants to hear of that.
    pub fn text_document_did_open(
        &mut self,
        file_path: AbsolutePath,
        language_id: String,
        version: usize,
        content: String,
    ) -> (outcome: Outcome)
        requires
            old(self)@.next_request_id < u64::MAX,
        ensures
            (final(self)@, outcome@) == editor_step(
                old(self)@,
                FromEditor::TextDocumentDidOpen { file_path, language_id, version, content },
            ),
    {
        let supported = match &self.server_capabilities {
            Some(capabilities) => capabilities.server_supports_text_document_open_close(),
            None => false,
        };
        if !supported {
            return Outcome::nothing();
        }
        let uri = path_buf_to_url(&file_path);
        let json = make_did_open_params(
            uri.as_str(),
            language_id.as_str(),
            #[verifier::truncate]
            (version as i32),
            content.as_str(),
        );
        self.synchronized_documents.insert(file_path.as_str(), content.as_str());
        let message = make_notification("textDocument/didOpen", json);
        self.request_document_diagnostics(file_path).preceded(SessionAction::Send(message))
    }

    /// Tells that a document has the text `content` now, where the server wants to hear of that.
    pub fn text_document_did_change(
        &mut self,
        file_path: AbsolutePath,
        version: i32,
        content: String,
    ) -> (outcome: Outcome)
        requires
            old(self)@.next_request_id < u64::MAX,
        ensures
            (final(self)@, outcome@) == editor_step(
                old(self)@,
                FromEditor::TextDocumentDidChange { file_path, version, content },
            ),
    {
        let (kind, encoding) = match &self.server_capabilities {
            Some(capabilities) => (
                capabilities.server_text_document_sync_kind(),
                capabilities.encoding(),
            ),
            None => (None, PositionEncoding::Utf16),
        };
        let kind = match kind {
            Some(kind) => kind,
            None => {
                return Outcome::nothing();
            },
        };
        let change = if kind == TextDocumentSyncKind::Incremental {
            let end = match self.synchronized_documents.get(file_path.as_str()) {
                Some(previous) => document_end_position(previous, encoding),
                None => {
                    return Outcome::failure(SessionError::NotOpen(file_path.display_absolute()));
                },
            };
            match end {
                Ok(end) => make_ranged_change(end, content.as_str()),
                Err(error) => {
                    return Outcome::failure(SessionError::NoEnd(error));
                },
            }
        } else {
            make_full_change(content.as_str())
        };
        let uri = path_buf_to_url(&file_path);
        let json = make_did_change_params(uri.as_str(), version, change);
        self.synchronized_documents.insert(file_path.as_str(), content.as_str());
        let message = make_notification("textDocument/didChange", json);
        self.request_document_diagnostics(file_path).preceded(SessionAction::Send(message))
    }

    /// Tells of a document that is no longer open, where the server wants to hear of that.
    pub fn text_document_did_close(&mut self, file_path: AbsolutePath) -> (outcome: Outcome)
        requires
            old(self)@.next_request_id < u64::MAX,
        ensures
            (final(self)@, outcome@) == editor_step(
                old(self)@,
                FromEditor::TextDocumentDidClose { file_path },
            ),
    {
        self.synchronized_documents.remove(file_path.as_str());
        let supported = match &self.server_capabilities {
            Some(capabilities) => capabilities.server_supports_text_document_open_close(),
            None => false,
        };
        if !supported {
            return Outcome::nothing();
        }
        let uri = path_buf_to_url(&file_path);
        let json = make_document_params(uri.as_str());
        Outcome::sent(make_notification("textDocument/didClose", json))
    }

    /// Tells of a document that was saved, where the server wants to hear of that.
    pub fn text_document_did_save(&mut self, file_path: AbsolutePath) -> (outcome: Outcome)
        requires
            old(self)@.next_request_id < u64::MAX,
        ensures
            (final(self)@, outcome@) == editor_step(
                old(self)@,
                FromEditor::TextDocumentDidSave { file_path },
            ),
    {
        let supported = match &self.server_capabilities {
            Some(capabilities) => capabilities.server_supports_text_document_save(),
            None => false,
        };
        if !supported {
            return Outcome::nothing();
        }
        let uri = path_buf_to_url(&file_path);
        let json = make_document_params(uri.as_str());
        let message = make_notification("textDocument/didSave", json);
        self.request_document_diagnostics(file_path).preceded(SessionAction::Send(message))
    }

    /// What the session does upon a message of the editor. See [`editor_step`].
    pub fn handle_from_editor(&mut self, message: FromEditor) -> (outcome: Outcome)
        requires
            old(self)@.next_request_id < u64::MAX,
        ensures
            (final(self)@, outcome@) == editor_step(old(self)@, message),
    {
        match message {
            FromEditor::TextDocumentHover(params) => self.text_document_hover(params),
            FromEditor::TextDocumentCompletion(params) => self.text_document_completion(params),
            FromEditor::TextDocumentDefinition(params) => self.text_document_definition(params),
            FromEditor::TextDocumentReferences { params, include_declaration } =>
                self.text_document_references(params, include_declaration),
            FromEditor::TextDocumentDidOpen { file_path, language_id, version, content } =>
                self.text_document_did_open(file_path, language_id, version, content),
            FromEditor::TextDocumentDidChange { file_path, version, content } =>
                self.text_document_did_change(file_path, version, content),
            FromEditor::TextDocumentDidClose { file_path } => self.text_document_did_close(
                file_path,
            ),
            FromEditor::TextDocumentDidSave { file_path } => self.text_document_did_save(
                file_path,
            ),
            FromEditor::TextDocumentPrepareRename(params) => self.text_document_prepare_rename(
                params,
            ),
            FromEditor::TextDocumentRename { params, new_name } => self.text_document_rename(
                params,
                new_name,
            ),
            FromEditor::TextDocumentCodeAction { params, diagnostics } =>
                self.text_document_code_action(params, diagnostics),
            FromEditor::TextDocumentSignatureHelp(params) => self.text_document_signature_help(
                params,
            ),
            FromEditor::TextDocumentDeclaration(params) => self.text_document_declaration(params),
            FromEditor::TextDocumentImplementation(params) => self.text_document_implementation(
                params,
            ),
            FromEditor::TextDocumentTypeDefinition(params) => self.text_document_type_definition(
                params,
            ),
            FromEditor::TextDocumentDocumentSymbol(params) => self.text_document_document_symbol(
                params,
            ),
            FromEditor::WorkspaceSymbol { query, context } => self.workspace_symbol(
                context,
                query,
            ),
            FromEditor::WorkspaceDidRenameFiles { old: old_path, new: new_path } =>
                self.workspace_did_rename_files(old_path, new_path),
            FromEditor::WorkspaceDidCreateFiles { file_path } => self.workspace_did_create_files(
                file_path,
            ),
            FromEditor::WorkspaceExecuteCommand { params, command } =>
                self.workspace_execute_command(params, command),
            FromEditor::CompletionItemResolve { completion_item, params } =>
                self.completion_item_resolve(params, completion_item),
            FromEditor::CodeActionResolve { code_action, params } => self.code_action_resolve(
                params,
                code_action,
            ),
            FromEditor::TextDocumentPrepareCallHierarchy { params, direction } =>
                self.text_document_prepare_call_hierarchy(params, direction),
        }
    }

    /// Begins the session. See [`initialize_step`].
    pub fn initialize(&mut self) -> (outcome: Outcome)
        requires
            old(self)@.next_request_id < u64::MAX,
        ensures
            (final(self)@, outcome@) == initialize_step(old(self)@),
    {
        let uri = path_buf_to_url(&self.current_working_directory);
        let options = resolve_initialization_options(
            self.initialization_options.as_ref(),
            &self.current_working_directory,
            str_of(&self.vue_typescript_plugin),
        );
        let params = make_initialize_params(uri.as_str(), options);
        self.ask(RequestMethod::Initialize, ResponseContext::default(), None, params)
    }

    /// Ends the session, if it has begun. See [`shutdown_step`].
    pub fn shutdown(&mut self) -> (outcome: Outcome)
        requires
            old(self)@.next_request_id < u64::MAX,
        ensures
            (final(self)@, outcome@) == shutdown_step(old(self)@),
    {
        if !self.is_initialized {
            return Outcome::nothing();
        }
        let request = self.ask(
            RequestMethod::Shutdown,
            ResponseContext::default(),
            None,
            Json::Null,
        );
        let outcome = request.followed(SessionAction::Send(make_notification("exit", Json::Null)));
        assert(outcome@ =~= shutdown_step(old(self)@).1);
        outcome
    }

    /// The characters that ask for completion.
    fn trigger_characters(&self) -> (characters: Json)
        ensures
            characters@ == JsonSpec::texts(self@.trigger_characters()),
    {
        if let Some(capabilities) = &self.server_capabilities {
            if let Some(list) = &capabilities.trigger_characters {
                return Json::texts(list.as_slice());
            }
        }
        let characters = Json::array();
        assert(characters@->Array_0 =~= JsonSpec::texts(self@.trigger_characters())->Array_0);
        characters
    }

    fn call_hierarchy_calls(&mut self, id: u64, context: ResponseContext, value: Json) -> (outcome:
        Outcome)
        requires
            old(self)@.next_request_id < u64::MAX,
        ensures
            (final(self)@, outcome@) == calls_step(old(self)@, id, context, value@),
    {
        if let Json::Array(items) = &value {
            if items.len() > 0 {
                let direction = self.pending_call_hierarchy_directions.remove(&id);
                let method = match direction {
                    Some(CallHierarchyDirection::Outgoing) => RequestMethod::OutgoingCalls,
                    _ => RequestMethod::IncomingCalls,
                };
                let params = make_item_params(make_ordered_call_item(&items[0]));
                return self.ask(method, context, None, params);
            }
        }
        Outcome::nothing()
    }

    fn diagnostics_outcome(&self, path: &AbsolutePath, diagnostics: Json) -> (outcome: Outcome)
        ensures
            outcome@ == told(
                LspNotification::PublishDiagnostics {
                    server_id: self@.server_id,
                    params: diagnostics_of(file_uri(path@), diagnostics@),
                },
            ),
    {
        let uri = path_buf_to_url(path);
        Outcome::told(
            LspNotification::PublishDiagnostics {
                server_id: self.server_id.clone(),
                params: make_diagnostics_of(uri.as_str(), diagnostics),
            },
        )
    }

    fn begin(&mut self, value: &Json) -> (outcome: Outcome)
        ensures
            (final(self)@, outcome@) == (
                Session {
                    capabilities: Some(announced_capabilities(value@)),
                    is_initialized: true,
                    ..old(self)@
                },
                two(
                    SessionAction::Send(notification("initialized"@, JsonSpec::object())),
                    SessionAction::Notify(
                        LspNotification::Initialized {
                            server_id: old(self)@.server_id,
                            root: old(self)@.root,
                        },
                    ),
                ),
            ),
    {
        let capabilities = match value.get("capabilities") {
            Some(capabilities) => read_capabilities(capabilities),
            None => read_capabilities(&Json::Null),
        };
        self.server_capabilities = Some(capabilities);
        self.is_initialized = true;
        Outcome::two(
            SessionAction::Send(make_notification("initialized", Json::object())),
            SessionAction::Notify(
                LspNotification::Initialized {
                    server_id: self.server_id.clone(),
                    root: self.current_working_directory.display_absolute(),
                },
            ),
        )
    }

    /// What the session does with the result of a request, once it is read. See [`result_step`].
    pub fn handle_result(&mut self, id: u64, request: PendingResponseRequest, value: Json) -> (
    outcome: Outcome)
        requires
            old(self)@.next_request_id < u64::MAX,
        ensures
            (final(self)@, outcome@) == result_step(old(self)@, id, request, value@),
    {
        let PendingResponseRequest { method, context, path } = request;
        let null = value.is_null();
        match method {
            RequestMethod::Initialize => self.begin(&value),
            RequestMethod::Shutdown => Outcome::one(SessionAction::Exit),
            RequestMethod::Diagnostic => {
                if let Some(path) = path {
                    if let Some(diagnostics) = diagnostics_from_document_diagnostic(&value) {
                        return self.diagnostics_outcome(&path, diagnostics);
                    }
                }
                Outcome::nothing()
            },
            RequestMethod::CodeActionResolve => Outcome::told(
                LspNotification::CodeActionResolve(value),
            ),
            RequestMethod::CompletionItemResolve => Outcome::told(
                LspNotification::CompletionItemResolve(value),
            ),
            RequestMethod::SignatureHelp => {
                let help = if null {
                    None
                } else {
                    Some(value)
                };
                Outcome::told(LspNotification::SignatureHelp(help))
            },
            RequestMethod::ExecuteCommand => Outcome::nothing(),
            RequestMethod::PrepareCallHierarchy => self.call_hierarchy_calls(id, context, value),
            _ => {
                if null {
                    return Outcome::nothing();
                }
                match method {
                    RequestMethod::Completion => {
                        let trigger_characters = self.trigger_characters();
                        let items = items_of_completion(value);
                        Outcome::told(
                            LspNotification::Completion { context, trigger_characters, items },
                        )
                    },
                    RequestMethod::Hover => Outcome::told(LspNotification::Hover(value)),
                    RequestMethod::References => Outcome::told(
                        LspNotification::References(context, value),
                    ),
                    RequestMethod::PrepareRename => Outcome::told(
                        LspNotification::PrepareRenameResponse(value),
                    ),
                    RequestMethod::Rename => Outcome::told(
                        LspNotification::WorkspaceEdit { edit: value, respond: None },
                    ),
                    RequestMethod::CodeAction => Outcome::told(LspNotification::CodeAction(value)),
                    RequestMethod::DocumentSymbol => match path {
                        Some(path) => Outcome::told(
                            LspNotification::DocumentSymbols {
                                symbols: value,
                                path: path.display_absolute(),
                            },
                        ),
                        None => Outcome::nothing(),
                    },
                    RequestMethod::WorkspaceSymbol => Outcome::told(
                        LspNotification::WorkspaceSymbols {
                            symbols: value,
                            root: self.current_working_directory.display_absolute(),
                        },
                    ),
                    RequestMethod::IncomingCalls => Outcome::told(
                        LspNotification::CallHierarchyIncomingCalls(context, value),
                    ),
                    RequestMethod::OutgoingCalls => Outcome::told(
                        LspNotification::CallHierarchyOutgoingCalls(context, value),
                    ),
                    _ => Outcome::told(LspNotification::Definition(context, value)),
                }
            },
        }
    }

    /// What the session does with the payload of an answer, once it is read. See [`payload_step`].
    pub fn handle_payload(
        &mut self,
        id: u64,
        request: PendingResponseRequest,
        payload: Result<Result<Json, (String, String)>, String>,
    ) -> (outcome: Outcome)
        requires
            old(self)@.next_request_id < u64::MAX,
        ensures
            (final(self)@, outcome@) == payload_step(
                old(self)@,
                id,
                request,
                response_view(payload),
            ),
    {
        let result = match payload {
            Err(fault) => {
                return Outcome::failure(SessionError::NotResponse(fault));
            },
            Ok(Err((code, message))) => {
                return rpc_failure(code, message);
            },
            Ok(Ok(result)) => result,
        };
        match decode_result(request.method, &result) {
            Err(fault) => Outcome::failure(SessionError::WrongResult(fault)),
            Ok(value) => self.handle_result(id, request, value),
        }
    }

    /// What the session does upon an answer to one of its requests. See [`response_step`].
    fn handle_response(&mut self, message: &Json) -> (outcome: Outcome)
        requires
            old(self)@.next_request_id < u64::MAX,
        ensures
            (final(self)@, outcome@) == response_step(old(self)@, message@),
    {
        let id = match message.get("id") {
            Some(id) => match id.as_u64() {
                Some(id) => id,
                None => {
                    return Outcome::failure(SessionError::IdNotNumber(show_json(id)));
                },
            },
            None => {
                return Outcome::failure(SessionError::MissingId(show_json(message)));
            },
        };
        let request = match self.pending_response_requests.remove(&id) {
            Some(request) => request,
            None => {
                assert(self@.pending =~= old(self)@.pending);
                return Outcome::failure(SessionError::UnknownRequest(id));
            },
        };
        if request.method == RequestMethod::Shutdown {
            return Outcome::one(SessionAction::Exit);
        }
        let payload = decode_response(message);
        self.handle_payload(id, request, payload)
    }

    /// What the session does with the parameters of a message of the server, once they are read.
    /// See [`params_step`].
    pub fn handle_params(
        &mut self,
        kind: ParamsKind,
        id: Option<MessageId<String>>,
        params: Json,
    ) -> (outcome: Outcome)
        ensures
            (final(self)@, outcome@) == params_step(old(self)@, kind, id_view(id), params@),
    {
        match kind {
            ParamsKind::PublishDiagnostics => Outcome::told(
                LspNotification::PublishDiagnostics { server_id: self.server_id.clone(), params },
            ),
            ParamsKind::ApplyEdit => {
                let edit = match params.get("edit") {
                    Some(edit) => edit.copy(),
                    None => Json::Null,
                };
                Outcome::told(LspNotification::WorkspaceEdit { edit, respond: id })
            },
            ParamsKind::Configuration => {
                let response = workspace_configuration_response(
                    &params,
                    &self.current_working_directory,
                    self.initialization_options.as_ref(),
                    str_of(&self.vue_typescript_plugin),
                );
                Outcome::sent(make_reply(make_id_json(id), response))
            },
            ParamsKind::ShowMessage => Outcome::two(
                SessionAction::Notify(LspNotification::ShowMessage(params)),
                SessionAction::Send(make_reply(make_id_json(id), Json::Null)),
            ),
            ParamsKind::LogMessage => Outcome::told(LspNotification::LogMessage(params)),
            ParamsKind::Progress => {
                let value = match params.get("value") {
                    Some(value) => value.copy(),
                    None => Json::Null,
                };
                Outcome::told(LspNotification::Progress { token: token_of(&params), value })
            },
        }
    }

    /// What the session does upon a message that the server sends of its own accord, once it is
    /// read. `raw` is the message as it came. See [`server_step`].
    pub fn handle_server_message(&mut self, message: RpcRequest<Json, String>, raw: &Json) -> (
    outcome: Outcome)
        ensures
            (final(self)@, outcome@) == server_step(old(self)@, request_view(message), raw@),
    {
        let RpcRequest { method, params, id } = message;
        match kind_of_params(method.as_str()) {
            Some(kind) => {
                let params = match params {
                    Some(params) => params,
                    None => {
                        return Outcome::failure(
                            if matches!(kind, ParamsKind::ApplyEdit) {
                                SessionError::MissingEdit(show_request(raw))
                            } else {
                                SessionError::MissingParams
                            },
                        );
                    },
                };
                match decode_params(kind, &params) {
                    Ok(params) => self.handle_params(kind, id, params),
                    Err(fault) => Outcome::failure(SessionError::WrongParams(fault)),
                }
            },
            None => {
                if str_eq(method.as_str(), "window/workDoneProgress/create") {
                    Outcome::sent(make_reply(make_id_json(id), Json::Null))
                } else if str_eq(method.as_str(), "client/registerCapability") {
                    Outcome::sent(
                        make_error_reply(
                            make_id_json(id),
                            METHOD_NOT_FOUND,
                            "Dynamic capability registration is not supported",
                        ),
                    )
                } else {
                    Outcome::nothing()
                }
            },
        }
    }

    /// The method of the request that a message answers.
    fn method_answered(&self, message: &Json) -> (method: &'static str)
        ensures
            method@ == answered_method(self@, message@),
    {
        if let Some(id) = message.get("id") {
            if let Some(id) = id.as_u64() {
                if let Some(request) = self.pending_response_requests.get(&id) {
                    return request.method.name();
                }
            }
        }
        "<unknown request>"
    }

    fn handle_error(&self, message: &Json, error: &Json) -> (outcome: Outcome)
        ensures
            outcome@ == failure(
                SessionError::ErrorField {
                    method: answered_method(self@, message@),
                    message: error_message(error@),
                    hint: hint_text(error_message(error@)),
                },
            ),
    {
        let text = match error.get("message") {
            Some(text) => match text.as_text() {
                Some(text) => text,
                None => "<missing error message>",
            },
            None => "<missing error message>",
        };
        let hint = match hint_for_lsp_error(text) {
            Some(hint) => Some(hint.to_owned()),
            None => None,
        };
        Outcome::failure(
            SessionError::ErrorField {
                method: self.method_answered(message).to_owned(),
                message: text.to_owned(),
                hint,
            },
        )
    }

    /// What the session does upon a message of the server. See [`reply_step`].
    pub fn handle_reply(&mut self, message: &Json) -> (outcome: Outcome)
        requires
            old(self)@.next_request_id < u64::MAX,
        ensures
            (final(self)@, outcome@) == reply_step(old(self)@, message@),
    {
        if let Some(error) = message.get("error") {
            return self.handle_error(message, error);
        }
        if message.get("method").is_none() {
            return self.handle_response(message);
        }
        match decode_request(message) {
            Err(fault) => Outcome::failure(SessionError::NotRequest(fault)),
            Ok(request) => self.handle_server_message(request, message),
        }
    }

    /// What the session does when the editor cannot make its own what it was told. See
    /// [`conversion_step`].
    pub fn conversion_failed(&mut self, fault: &str) -> (outcome: Outcome)
        ensures
            (final(self)@, outcome@) == conversion_step(old(self)@, fault@),
    {
        Outcome::failure(SessionError::NotConverted(fault.to_owned()))
    }

    /// Answers the request of the server to apply an edit. `failed` is why the edit was not
    /// applied, where it was not.
    pub fn workspace_edit_applied(&mut self, id: MessageId<String>, failed: Option<&str>) -> (
    outcome: Outcome)
        ensures
            (final(self)@, outcome@) == edit_step(
                old(self)@,
                id_view(Some(id))->0,
                text_of(failed),
            ),
    {
        let result = match failed {
            None => make_edit_applied(),
            Some(reason) => make_edit_failed(reason),
        };
        Outcome::sent(make_reply(make_id_json(Some(id)), result))
    }

    /// Takes note of how writing a message went. Gives the number of a request that was written.
    /// Where the message could not be written, see [`unwritten_step`].
    pub fn message_written(&mut self, message: &Json, written: Result<(), SendError>) -> (result:
        Result<Option<u64>, SendError>)
        ensures
            match written {
                Ok(_) => result == Ok::<Option<u64>, SendError>(request_number(message@))
                    && final(self)@ == old(self)@,
                Err(error) => result == Err::<Option<u64>, SendError>(error) && final(self)@
                    == unwritten_step(old(self)@, message@),
            },
    {
        match written {
            Ok(_) => Ok(number_of_request(message)),
            Err(error) => {
                self.message_not_written(message);
                Err(error)
            },
        }
    }

    fn message_not_written(&mut self, message: &Json)
        ensures
            final(self)@ == unwritten_step(old(self)@, message@),
    {
        if let Some(id) = number_of_request(message) {
            self.pending_response_requests.remove(&id);
            self.pending_call_hierarchy_directions.remove(&id);
        } else if message.get("id").is_none() {
            if let Some(method) = message.get("method") {
                if let Some(method) = method.as_text() {
                    if str_eq(method, "initialized") {
                        self.is_initialized = false;
                    }
                }
            }
        }
    }

    /// Takes note that some actions are not done. See [`abandoned_step`].
    pub fn abandon(&mut self, actions: &[SessionAction<Json, String>])
        ensures
            final(self)@ == abandoned_step(
                old(self)@,
                actions@.map_values(|action: SessionAction<Json, String>| action_view(action)),
            ),
    {
        let ghost all = actions@.map_values(
            |action: SessionAction<Json, String>| action_view(action),
        );
        let mut i: usize = 0;
        while i < actions.len()
            invariant
                i <= actions.len(),
                all == actions@.map_values(
                    |action: SessionAction<Json, String>| action_view(action),
                ),
                self@ == abandoned_step(old(self)@, all.take(i as int)),
            decreases actions.len() - i,
        {
            assert(all.take(i + 1).drop_last() == all.take(i as int));
            assert(all.take(i + 1).last() == action_view(actions@[i as int]));
            if let SessionAction::Send(message) = &actions[i] {
                self.message_not_written(message);
            }
            i += 1;
        }
        assert(all.take(all.len() as int) == all);
    }
}

/// The number of a request, where a message is one.
fn number_of_request(message: &Json) -> (id: Option<u64>)
    ensures
        id == request_number(message@),
{
    if message.get("method").is_some() {
        if let Some(id) = message.get("id") {
            return id.as_u64();
        }
    }
    None
}

/// What reaches a session. The message of the editor can be one that is to be held back for a
/// moment, in case another one of its kind follows.
pub enum LspServerProcessMessage {
    FromLspServer(Json),
    FromEditor(FromEditor),
    /// A message of the editor that was held back long enough.
    Throttled(FromEditor),
    /// The editor did what the server asked for with an edit, or says why it did not.
    WorkspaceEditApplied { id: MessageId<String>, failed: Option<String> },
    Shutdown,
    Exit,
}

/// What becomes of a session after a message.
pub enum Continuation {
    /// It waits for the next message.
    Listen,
    /// It waits for the next message, and this one is held back.
    HoldBack(FromEditor),
    /// It is over.
    Stop,
}

/// What a session does upon a message, and what becomes of it.
pub open spec fn message_step(session: Session, message: LspServerProcessMessage) -> (
    Step,
    Continuation,
) {
    match message {
        LspServerProcessMessage::FromLspServer(message) => (
            reply_step(session, message@),
            Continuation::Listen,
        ),
        LspServerProcessMessage::FromEditor(message) => if message is CompletionItemResolve {
            ((session, nothing()), Continuation::HoldBack(message))
        } else {
            (editor_step(session, message), Continuation::Listen)
        },
        LspServerProcessMessage::Throttled(message) => (
            editor_step(session, message),
            Continuation::Listen,
        ),
        LspServerProcessMessage::WorkspaceEditApplied { id, failed } => (
            edit_step(
                session,
                id_view(Some(id))->0,
                match failed {
                    Some(reason) => Some(reason@),
                    None => None,
                },
            ),
            Continuation::Listen,
        ),
        LspServerProcessMessage::Shutdown => (shutdown_step(session), Continuation::Stop),
        LspServerProcessMessage::Exit => ((session, nothing()), Continuation::Stop),
    }
}

impl LspServerProcess {
    /// What the session does upon a message, and what becomes of it. See [`message_step`].
    pub fn process_message(&mut self, message: LspServerProcessMessage) -> (result: (
        Outcome,
        Continuation,
    ))
        requires
            old(self)@.next_request_id < u64::MAX,
        ensures
            ((final(self)@, result.0@), result.1) == message_step(old(self)@, message),
    {
        match message {
            LspServerProcessMessage::FromLspServer(message) => (
                self.handle_reply(&message),
                Continuation::Listen,
            ),
            LspServerProcessMessage::FromEditor(message) => {
                if matches!(message, FromEditor::CompletionItemResolve { .. }) {
                    (Outcome::nothing(), Continuation::HoldBack(message))
                } else {
                    (self.handle_from_editor(message), Continuation::Listen)
                }
            },
            LspServerProcessMessage::Throttled(message) => (
                self.handle_from_editor(message),
                Continuation::Listen,
            ),
            LspServerProcessMessage::WorkspaceEditApplied { id, failed } => (
                self.workspace_edit_applied(id, str_of(&failed)),
                Continuation::Listen,
            ),
            LspServerProcessMessage::Shutdown => (self.shutdown(), Continuation::Stop),
            LspServerProcessMessage::Exit => (Outcome::nothing(), Continuation::Stop),
        }
    }
}

/// The diagnostics of a report, where it is a full one.
pub fn diagnostics_from_document_diagnostic(value: &Json) -> (diagnostics: Option<Json>)
    ensures
        match diagnostics {
            Some(diagnostics) => full_report(value@) == Some(diagnostics@),
            None => full_report(value@) is None,
        },
{
    if let Some(kind) = value.get("kind") {
        if let Some(kind) = kind.as_text() {
            if str_eq(kind, "full") {
                return match value.get("items") {
                    Some(items) => Some(items.copy()),
                    None => None,
                };
            }
        }
    }
    None
}

fn token_of(params: &Json) -> (token: String)
    ensures
        token@ == progress_token(params@),
{
    match params.get("token") {
        Some(Json::Text(token)) => token.clone(),
        Some(Json::Unsigned(number)) => print_number(*number),
        Some(Json::Signed(number)) => print_signed(*number),
        _ => String::new(),
    }
}

fn items_of_completion(value: Json) -> (items: Json)
    ensures
        items@ == completion_items(value@),
{
    match &value {
        Json::Array(_) => {},
        _ => {
            return match value.get("items") {
                Some(items) => items.copy(),
                None => Json::array(),
            };
        },
    }
    value
}

fn rpc_failure(code: String, message: String) -> (outcome: Outcome)
    ensures
        outcome@ == (OutcomeSpec {
            actions: seq![
                SessionAction::Notify(
                    LspNotification::Error("LSP JSON-RPC Error: "@ + code@ + ": "@ + message@),
                ),
            ],
            result: Err(SessionError::Rpc { code: code@, message: message@ }),
        }),
{
    let mut text = "LSP JSON-RPC Error: ".to_owned();
    text.append(code.as_str());
    text.append(": ");
    text.append(message.as_str());
    let outcome = Outcome::failure(SessionError::Rpc { code, message }).preceded(
        SessionAction::Notify(LspNotification::Error(text)),
    );
    assert(outcome@.actions =~= seq![
        SessionAction::Notify(
            LspNotification::Error("LSP JSON-RPC Error: "@ + code@ + ": "@ + message@),
        ),
    ]);
    outcome
}

fn kind_of_params(method: &str) -> (kind: Option<ParamsKind>)
    ensures
        kind == params_kind(method@),
{
    if str_eq(method, "textDocument/publishDiagnostics") {
        Some(ParamsKind::PublishDiagnostics)
    } else if str_eq(method, "workspace/applyEdit") {
        Some(ParamsKind::ApplyEdit)
    } else if str_eq(method, "workspace/configuration") {
        Some(ParamsKind::Configuration)
    } else if str_eq(method, "window/showMessageRequest") {
        Some(ParamsKind::ShowMessage)
    } else if str_eq(method, "window/logMessage") {
        Some(ParamsKind::LogMessage)
    } else if str_eq(method, "$/progress") {
        Some(ParamsKind::Progress)
    } else {
        None
    }
}

} // verus!
