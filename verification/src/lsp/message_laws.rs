//! What holds of the messages that a session sends: what is found in them under the names of the
//! protocol.

use crate::json::{items_view, law_members_are_found, JsonSpec};
use crate::lsp::capabilities::TextDocumentSyncKind;
use crate::lsp::messages::{
    code_action_params, command_params, diagnostic_params, did_change_params, did_create_params,
    did_open_params, did_rename_params, document_params, edit_applied, edit_failed, error_reply,
    full_change, item_params, notification, position_params, ranged_change, references_params,
    rename_params, reply, request, symbol_params,
};
use crate::lsp::positions::end_position;
use crate::lsp::protocol::{
    FromEditor, PendingResponseRequest, Position, RequestMethod, RequestParams, ResponseContext,
    SessionAction,
};
use crate::lsp::session::{
    command_arguments, document_step, editor_step, request_step, Session, Step,
};
use crate::lsp::uri::file_uri;
use crate::path::AbsolutePath;
use vstd::prelude::*;

verus! {

/// What is found under a name in what was found before.
pub open spec fn found(value: Option<JsonSpec>, name: Seq<char>) -> Option<JsonSpec> {
    match value {
        Some(value) => value.get(name),
        None => None,
    }
}

/// Whether `value` is the place `position`: the line is found under `line`, and the character under
/// `character`.
pub open spec fn is_place(value: Option<JsonSpec>, position: Position) -> bool {
    &&& found(value, "line"@) == Some(JsonSpec::Unsigned(position.line as u64))
    &&& found(value, "character"@) == Some(JsonSpec::Unsigned(position.character as u64))
}

/// Whether `value` is what lies between two places.
pub open spec fn is_range(value: Option<JsonSpec>, start: Position, end: Position) -> bool {
    &&& is_place(found(value, "start"@), start)
    &&& is_place(found(value, "end"@), end)
}

/// Whether parameters are about the document with the URI `uri`.
pub open spec fn is_about_document(params: Option<JsonSpec>, uri: Seq<char>) -> bool {
    found(found(params, "textDocument"@), "uri"@) == Some(JsonSpec::Text(uri))
}

/// Whether parameters are about a place in the document with the URI `uri`.
pub open spec fn is_about_place(
    params: Option<JsonSpec>,
    uri: Seq<char>,
    position: Position,
) -> bool {
    &&& is_about_document(params, uri)
    &&& is_place(found(params, "position"@), position)
}

/// The names of the protocol are different ones.
proof fn lemma_names()
    ensures
        "line"@ != "character"@,
        "start"@ != "end"@,
        "textDocument"@ != "position"@,
        "textDocument"@ != "context"@,
        "textDocument"@ != "newName"@,
        "textDocument"@ != "range"@,
        "textDocument"@ != "identifier"@,
        "textDocument"@ != "previousResultId"@,
        "textDocument"@ != "contentChanges"@,
        "position"@ != "context"@,
        "position"@ != "newName"@,
        "range"@ != "context"@,
        "range"@ != "text"@,
        "identifier"@ != "previousResultId"@,
        "command"@ != "arguments"@,
        "uri"@ != "languageId"@,
        "uri"@ != "version"@,
        "uri"@ != "text"@,
        "languageId"@ != "version"@,
        "languageId"@ != "text"@,
        "version"@ != "text"@,
        "oldUri"@ != "newUri"@,
        "jsonrpc"@ != "method"@,
        "jsonrpc"@ != "params"@,
        "jsonrpc"@ != "id"@,
        "jsonrpc"@ != "result"@,
        "jsonrpc"@ != "error"@,
        "method"@ != "params"@,
        "method"@ != "id"@,
        "params"@ != "id"@,
        "id"@ != "result"@,
        "id"@ != "error"@,
{
    reveal_strlit("line");
    reveal_strlit("character");
    reveal_strlit("start");
    reveal_strlit("end");
    reveal_strlit("textDocument");
    reveal_strlit("position");
    reveal_strlit("context");
    reveal_strlit("newName");
    reveal_strlit("range");
    reveal_strlit("identifier");
    reveal_strlit("previousResultId");
    reveal_strlit("contentChanges");
    reveal_strlit("text");
    reveal_strlit("command");
    reveal_strlit("arguments");
    reveal_strlit("uri");
    reveal_strlit("languageId");
    reveal_strlit("version");
    reveal_strlit("oldUri");
    reveal_strlit("newUri");
    reveal_strlit("jsonrpc");
    reveal_strlit("method");
    reveal_strlit("params");
    reveal_strlit("id");
    reveal_strlit("result");
    reveal_strlit("error");
    assert("textDocument"@[0] == 't' && "context"@[0] == 'c' && "position"@[0] == 'p'
        && "newName"@[0] == 'n' && "range"@[0] == 'r' && "identifier"@[0] == 'i'
        && "previousResultId"@[0] == 'p' && "contentChanges"@[0] == 'c' && "text"@[0] == 't'
        && "oldUri"@[0] == 'o' && "newUri"@[0] == 'n' && "method"@[0] == 'm' && "params"@[0] == 'p'
        && "command"@[0] == 'c' && "arguments"@[0] == 'a' && "languageId"@[0] == 'l'
        && "version"@[0] == 'v' && "uri"@[0] == 'u' && "line"@[0] == 'l' && "character"@[0] == 'c'
        && "start"@[0] == 's' && "end"@[0] == 'e' && "jsonrpc"@[0] == 'j' && "id"@[0] == 'i'
        && "result"@[0] == 'r' && "error"@[0] == 'e');
    assert("textDocument"@.len() == 12 && "text"@.len() == 4);
}

/// The parameters of a request about a place have the document and the place: its line under
/// `line` and its character under `character`. That holds of the requests for references and for a
/// new name too, which also have whether the declaration counts, and the new name.
pub proof fn law_parameters_have_the_place(
    uri: Seq<char>,
    position: Position,
    include_declaration: bool,
    new_name: Seq<char>,
)
    ensures
        is_about_place(Some(position_params(uri, position)), uri, position),
        is_about_place(
            Some(references_params(uri, position, include_declaration)),
            uri,
            position,
        ),
        found(
            references_params(uri, position, include_declaration).get("context"@),
            "includeDeclaration"@,
        ) == Some(JsonSpec::Bool(include_declaration)),
        is_about_place(Some(rename_params(uri, position, new_name)), uri, position),
        rename_params(uri, position, new_name).get("newName"@) == Some(JsonSpec::Text(new_name)),
{
    broadcast use law_members_are_found;

    lemma_names();
}

/// The parameters of a request for code actions have the document, the range from its first place
/// to its last, and the diagnostics.
pub proof fn law_code_action_parameters_have_the_range(
    uri: Seq<char>,
    start: Position,
    end: Position,
    diagnostics: JsonSpec,
)
    ensures
        ({
            let params = Some(code_action_params(uri, start, end, diagnostics));
            &&& is_about_document(params, uri)
            &&& is_range(found(params, "range"@), start, end)
            &&& found(found(params, "context"@), "diagnostics"@) == Some(diagnostics)
        }),
{
    broadcast use law_members_are_found;

    lemma_names();
}

/// The other parameters have what they are made of under the names of the protocol.
pub proof fn law_parameters_have_what_they_are_made_of(
    uri: Seq<char>,
    query: Seq<char>,
    command: Seq<char>,
    arguments: JsonSpec,
    item: JsonSpec,
    new: Seq<char>,
)
    ensures
        is_about_document(Some(document_params(uri)), uri),
        is_about_document(Some(diagnostic_params(uri)), uri),
        symbol_params(query).get("query"@) == Some(JsonSpec::Text(query)),
        command_params(command, arguments).get("command"@) == Some(JsonSpec::Text(command)),
        command_params(command, arguments).get("arguments"@) == Some(arguments),
        item_params(item).get("item"@) == Some(item),
        ({
            let files = did_rename_params(uri, new).get("files"@);
            &&& files is Some && files->0 is Array && files->0->Array_0.len() == 1
            &&& files->0->Array_0[0].get("oldUri"@) == Some(JsonSpec::Text(uri))
            &&& files->0->Array_0[0].get("newUri"@) == Some(JsonSpec::Text(new))
        }),
        ({
            let files = did_create_params(uri).get("files"@);
            &&& files is Some && files->0 is Array && files->0->Array_0.len() == 1
            &&& files->0->Array_0[0].get("uri"@) == Some(JsonSpec::Text(uri))
        }),
{
    broadcast use law_members_are_found;

    lemma_names();
}

/// Whether parameters open a document: under `textDocument` they have its URI, its language, its
/// version and its text.
pub open spec fn opens(
    params: Option<JsonSpec>,
    uri: Seq<char>,
    language_id: Seq<char>,
    version: int,
    text: Seq<char>,
) -> bool {
    let document = found(params, "textDocument"@);
    &&& found(document, "uri"@) == Some(JsonSpec::Text(uri))
    &&& found(document, "languageId"@) == Some(JsonSpec::Text(language_id))
    &&& is_number(found(document, "version"@), version)
    &&& found(document, "text"@) == Some(JsonSpec::Text(text))
}

/// Whether `value` is the number `n`.
pub open spec fn is_number(value: Option<JsonSpec>, n: int) -> bool {
    match value {
        Some(JsonSpec::Unsigned(number)) => number == n,
        Some(JsonSpec::Negative(number)) => number == n && n < 0,
        _ => false,
    }
}

/// Whether parameters tell of one change of a document: of its URI, its version, and its new text,
/// which takes the place of what lies before `replaced`, or of all of it.
pub open spec fn changes(
    params: Option<JsonSpec>,
    uri: Seq<char>,
    version: int,
    replaced: Option<Position>,
    text: Seq<char>,
) -> bool {
    let list = found(params, "contentChanges"@);
    let change = list->0->Array_0[0];
    &&& is_about_document(params, uri)
    &&& is_number(found(found(params, "textDocument"@), "version"@), version)
    &&& list is Some && list->0 is Array && list->0->Array_0.len() == 1
    &&& change.get("text"@) == Some(JsonSpec::Text(text))
    &&& match replaced {
        Some(end) => is_range(change.get("range"@), Position { line: 0, character: 0 }, end),
        None => change.get("range"@) is None,
    }
}

/// The parameters that tell of a document have the document's text as its text, its language as its
/// language, its version and its URI, and those that tell of a change have the new text and what it
/// takes the place of.
pub proof fn law_document_parameters_have_the_document(
    uri: Seq<char>,
    language_id: Seq<char>,
    version: i32,
    text: Seq<char>,
    end: Position,
)
    ensures
        opens(
            Some(did_open_params(uri, language_id, version, text)),
            uri,
            language_id,
            version as int,
            text,
        ),
        changes(
            Some(did_change_params(uri, version, full_change(text))),
            uri,
            version as int,
            None,
            text,
        ),
        changes(
            Some(did_change_params(uri, version, ranged_change(end, text))),
            uri,
            version as int,
            Some(end),
            text,
        ),
{
    broadcast use law_members_are_found;

    lemma_names();
}

/// Whether `message` is the request called `method` with the number `id` and these parameters.
pub open spec fn is_request(
    message: JsonSpec,
    method: Seq<char>,
    id: u64,
    params: JsonSpec,
) -> bool {
    &&& message.get("jsonrpc"@) == Some(JsonSpec::Text("2.0"@))
    &&& message.get("method"@) == Some(JsonSpec::Text(method))
    &&& message.get("params"@) == Some(params)
    &&& message.get("id"@) == Some(JsonSpec::Unsigned(id))
}

/// Whether `message` is the notification called `method` with these parameters: it wants no answer.
pub open spec fn is_notification(message: JsonSpec, method: Seq<char>, params: JsonSpec) -> bool {
    &&& message.get("jsonrpc"@) == Some(JsonSpec::Text("2.0"@))
    &&& message.get("method"@) == Some(JsonSpec::Text(method))
    &&& message.get("params"@) == Some(params)
    &&& message.get("id"@) is None
}

/// Whether `message` answers the request `id` with `result`.
pub open spec fn is_reply(message: JsonSpec, id: JsonSpec, result: JsonSpec) -> bool {
    &&& message.get("jsonrpc"@) == Some(JsonSpec::Text("2.0"@))
    &&& message.get("id"@) == Some(id)
    &&& message.get("result"@) == Some(result)
    &&& message.get("error"@) is None
    &&& message.get("method"@) is None
}

/// Whether `message` refuses the request `id`.
pub open spec fn is_refusal(message: JsonSpec, id: JsonSpec, code: int, text: Seq<char>) -> bool {
    &&& message.get("jsonrpc"@) == Some(JsonSpec::Text("2.0"@))
    &&& message.get("id"@) == Some(id)
    &&& message.get("result"@) is None
    &&& message.get("method"@) is None
    &&& is_number(found(message.get("error"@), "code"@), code)
    &&& found(message.get("error"@), "message"@) == Some(JsonSpec::Text(text))
}

/// Messages have what makes them requests, notifications and answers under the names of JSON-RPC.
pub proof fn law_messages_have_their_parts(
    method: Seq<char>,
    params: JsonSpec,
    id: u64,
    name: JsonSpec,
    result: JsonSpec,
    code: i32,
    text: Seq<char>,
)
    ensures
        is_request(request(method, params, id), method, id, params),
        is_notification(notification(method, params), method, params),
        is_reply(reply(name, result), name, result),
        is_refusal(error_reply(name, code, text), name, code as int, text),
        edit_applied().get("applied"@) == Some(JsonSpec::Bool(true)),
        edit_failed(text).get("applied"@) == Some(JsonSpec::Bool(false)),
        edit_failed(text).get("failureReason"@) == Some(JsonSpec::Text(text)),
{
    broadcast use law_members_are_found;

    lemma_names();
    reveal_strlit("code");
    reveal_strlit("message");
    reveal_strlit("applied");
    reveal_strlit("failureReason");
    assert("code"@.len() == 4 && "message"@.len() == 7);
    assert("applied"@.len() == 7 && "failureReason"@.len() == 13);
    reveal_strlit("result");
    reveal_strlit("error");
    reveal_strlit("method");
    assert("result"@[0] == 'r' && "error"@[0] == 'e' && "method"@[0] == 'm');
}

/// Whether a step does nothing.
pub open spec fn does_nothing(session: Session, step: Step) -> bool {
    &&& step.0 == session
    &&& step.1.actions.len() == 0
    &&& step.1.result is Ok
}

/// Whether a step sends the request called `name` and nothing else. The request has the next free
/// number, and waits for its answer under that number.
pub open spec fn asks(
    session: Session,
    step: Step,
    method: RequestMethod,
    name: Seq<char>,
    context: ResponseContext,
    path: Option<AbsolutePath>,
) -> bool {
    let id = session.next_request_id;
    &&& step.1.result is Ok
    &&& step.1.actions.len() == 1
    &&& step.1.actions[0] is Send
    &&& is_request(step.1.actions[0]->Send_0, name, id, params_of(step))
    &&& step.0 == (Session {
        next_request_id: (id + 1) as u64,
        pending: session.pending.insert(id, PendingResponseRequest { method, context, path }),
        directions: step.0.directions,
        ..session
    })
}

/// The parameters of the first message that a step sends.
pub open spec fn params_of(step: Step) -> JsonSpec {
    step.1.actions[0]->Send_0.get("params"@)->0
}

/// Whether a step asks the question called `name` about the place of `params`, where the server
/// answers it, and does nothing where it does not.
pub open spec fn asks_about_place(
    session: Session,
    step: Step,
    answered: bool,
    method: RequestMethod,
    name: Seq<char>,
    params: RequestParams,
) -> bool {
    if answered {
        &&& asks(session, step, method, name, params.context, Some(params.path))
        &&& is_about_place(Some(params_of(step)), file_uri(params.path@), params.position)
    } else {
        does_nothing(session, step)
    }
}

/// A question of the editor about a place reaches the server as a question about that place, under
/// the method that the question is for, where the server answers such questions, and does not reach
/// it where it does not.
pub proof fn law_questions_are_about_the_place(session: Session, message: FromEditor)
    requires
        session.next_request_id < u64::MAX,
    ensures
        ({
            let step = editor_step(session, message);
            let known = session.capabilities is Some;
            let providers = session.capabilities->0.providers;
            match message {
                FromEditor::TextDocumentHover(params) => asks_about_place(
                    session,
                    step,
                    known && providers.hover,
                    RequestMethod::Hover,
                    "textDocument/hover"@,
                    params,
                ),
                FromEditor::TextDocumentCompletion(params) => asks_about_place(
                    session,
                    step,
                    known && providers.completion,
                    RequestMethod::Completion,
                    "textDocument/completion"@,
                    params,
                ),
                FromEditor::TextDocumentDefinition(params) => asks_about_place(
                    session,
                    step,
                    known && providers.definition,
                    RequestMethod::Definition,
                    "textDocument/definition"@,
                    params,
                ),
                FromEditor::TextDocumentReferences { params, include_declaration } => {
                    &&& asks_about_place(
                        session,
                        step,
                        known && providers.references,
                        RequestMethod::References,
                        "textDocument/references"@,
                        params,
                    )
                    &&& known && providers.references ==> found(
                        params_of(step).get("context"@),
                        "includeDeclaration"@,
                    ) == Some(JsonSpec::Bool(include_declaration))
                },
                FromEditor::TextDocumentPrepareRename(params) => asks_about_place(
                    session,
                    step,
                    known && providers.rename,
                    RequestMethod::PrepareRename,
                    "textDocument/prepareRename"@,
                    params,
                ),
                FromEditor::TextDocumentRename { params, new_name } => {
                    &&& asks_about_place(
                        session,
                        step,
                        known && providers.rename,
                        RequestMethod::Rename,
                        "textDocument/rename"@,
                        params,
                    )
                    &&& known && providers.rename ==> params_of(step).get("newName"@) == Some(
                        JsonSpec::Text(new_name@),
                    )
                },
                FromEditor::TextDocumentSignatureHelp(params) => asks_about_place(
                    session,
                    step,
                    known && providers.signature_help,
                    RequestMethod::SignatureHelp,
                    "textDocument/signatureHelp"@,
                    params,
                ),
                FromEditor::TextDocumentDeclaration(params) => asks_about_place(
                    session,
                    step,
                    known && providers.declaration,
                    RequestMethod::Declaration,
                    "textDocument/declaration"@,
                    params,
                ),
                FromEditor::TextDocumentImplementation(params) => asks_about_place(
                    session,
                    step,
                    known && providers.implementation,
                    RequestMethod::Implementation,
                    "textDocument/implementation"@,
                    params,
                ),
                FromEditor::TextDocumentTypeDefinition(params) => asks_about_place(
                    session,
                    step,
                    known && providers.type_definition,
                    RequestMethod::TypeDefinition,
                    "textDocument/typeDefinition"@,
                    params,
                ),
                FromEditor::TextDocumentPrepareCallHierarchy { params, direction } => {
                    &&& asks_about_place(
                        session,
                        step,
                        known && providers.call_hierarchy,
                        RequestMethod::PrepareCallHierarchy,
                        "textDocument/prepareCallHierarchy"@,
                        params,
                    )
                    &&& known && providers.call_hierarchy ==> step.0.directions
                        == session.directions.insert(session.next_request_id, direction)
                },
                _ => true,
            }
        }),
{
    match message {
        FromEditor::TextDocumentHover(params) => lemma_question(
            session,
            RequestMethod::Hover,
            params,
        ),
        FromEditor::TextDocumentCompletion(params) => lemma_question(
            session,
            RequestMethod::Completion,
            params,
        ),
        FromEditor::TextDocumentDefinition(params) => lemma_question(
            session,
            RequestMethod::Definition,
            params,
        ),
        FromEditor::TextDocumentPrepareRename(params) => lemma_question(
            session,
            RequestMethod::PrepareRename,
            params,
        ),
        FromEditor::TextDocumentSignatureHelp(params) => lemma_question(
            session,
            RequestMethod::SignatureHelp,
            params,
        ),
        FromEditor::TextDocumentDeclaration(params) => lemma_question(
            session,
            RequestMethod::Declaration,
            params,
        ),
        FromEditor::TextDocumentImplementation(params) => lemma_question(
            session,
            RequestMethod::Implementation,
            params,
        ),
        FromEditor::TextDocumentTypeDefinition(params) => lemma_question(
            session,
            RequestMethod::TypeDefinition,
            params,
        ),
        FromEditor::TextDocumentPrepareCallHierarchy { params, direction } => lemma_question(
            session,
            RequestMethod::PrepareCallHierarchy,
            params,
        ),
        FromEditor::TextDocumentReferences { params, include_declaration } => {
            let uri = file_uri(params.path@);
            law_parameters_have_the_place(uri, params.position, include_declaration, uri);
            lemma_asked(
                session,
                RequestMethod::References,
                params.context,
                Some(params.path),
                references_params(uri, params.position, include_declaration),
            );
        },
        FromEditor::TextDocumentRename { params, new_name } => {
            let uri = file_uri(params.path@);
            law_parameters_have_the_place(uri, params.position, true, new_name@);
            lemma_asked(
                session,
                RequestMethod::Rename,
                params.context,
                Some(params.path),
                rename_params(uri, params.position, new_name@),
            );
        },
        _ => {},
    }
}

proof fn lemma_asked(
    session: Session,
    method: RequestMethod,
    context: ResponseContext,
    path: Option<AbsolutePath>,
    params: JsonSpec,
)
    requires
        session.next_request_id < u64::MAX,
    ensures
        asks(
            session,
            request_step(session, method, context, path, params),
            method,
            method.spec_name(),
            context,
            path,
        ),
        params_of(request_step(session, method, context, path, params)) == params,
{
    law_messages_have_their_parts(
        method.spec_name(),
        params,
        session.next_request_id,
        JsonSpec::Null,
        JsonSpec::Null,
        0,
        method.spec_name(),
    );
}

proof fn lemma_question(session: Session, method: RequestMethod, params: RequestParams)
    requires
        session.next_request_id < u64::MAX,
    ensures
        asks_about_place(
            session,
            request_step(
                session,
                method,
                params.context,
                Some(params.path),
                position_params(file_uri(params.path@), params.position),
            ),
            true,
            method,
            method.spec_name(),
            params,
        ),
{
    let uri = file_uri(params.path@);
    law_parameters_have_the_place(uri, params.position, true, uri);
    lemma_asked(
        session,
        method,
        params.context,
        Some(params.path),
        position_params(uri, params.position),
    );
}

/// What the editor asks for beside places reaches the server under the method that it is for, with
/// what the editor gave, where the server answers that, and does not reach it where it does not.
pub proof fn law_other_questions_have_what_the_editor_gave(session: Session, message: FromEditor)
    requires
        session.next_request_id < u64::MAX,
    ensures
        ({
            let step = editor_step(session, message);
            let known = session.capabilities is Some;
            let providers = session.capabilities->0.providers;
            match message {
                FromEditor::TextDocumentCodeAction { params, diagnostics } => if known
                    && providers.code_action {
                    &&& asks(
                        session,
                        step,
                        RequestMethod::CodeAction,
                        "textDocument/codeAction"@,
                        params.context,
                        Some(params.path),
                    )
                    &&& is_about_document(Some(params_of(step)), file_uri(params.path@))
                    &&& is_range(
                        params_of(step).get("range"@),
                        params.position,
                        params.selection_end,
                    )
                    &&& found(params_of(step).get("context"@), "diagnostics"@) == Some(
                        JsonSpec::Array(items_view(diagnostics@)),
                    )
                } else {
                    does_nothing(session, step)
                },
                FromEditor::TextDocumentDocumentSymbol(params) => if known
                    && providers.document_symbol {
                    &&& asks(
                        session,
                        step,
                        RequestMethod::DocumentSymbol,
                        "textDocument/documentSymbol"@,
                        params.context,
                        Some(params.path),
                    )
                    &&& is_about_document(Some(params_of(step)), file_uri(params.path@))
                } else {
                    does_nothing(session, step)
                },
                FromEditor::WorkspaceSymbol { query, context } => if known
                    && providers.workspace_symbol {
                    &&& asks(
                        session,
                        step,
                        RequestMethod::WorkspaceSymbol,
                        "workspace/symbol"@,
                        context,
                        None,
                    )
                    &&& params_of(step).get("query"@) == Some(JsonSpec::Text(query@))
                } else {
                    does_nothing(session, step)
                },
                FromEditor::WorkspaceExecuteCommand { params, command } => if known
                    && providers.execute_command {
                    &&& asks(
                        session,
                        step,
                        RequestMethod::ExecuteCommand,
                        "workspace/executeCommand"@,
                        params.context,
                        Some(params.path),
                    )
                    &&& params_of(step).get("command"@) == Some(JsonSpec::Text(command.command@))
                    &&& command.arguments is Some ==> params_of(step).get("arguments"@) == Some(
                        JsonSpec::Array(items_view(command.arguments->0@)),
                    )
                    &&& command.arguments is None ==> params_of(step).get("arguments"@) == Some(
                        JsonSpec::Array(Seq::empty()),
                    )
                } else {
                    does_nothing(session, step)
                },
                FromEditor::CompletionItemResolve { completion_item, params } => if known
                    && providers.completion && providers.completion_resolve == Some(true) {
                    &&& asks(
                        session,
                        step,
                        RequestMethod::CompletionItemResolve,
                        "completionItem/resolve"@,
                        params.context,
                        Some(params.path),
                    )
                    &&& params_of(step) == completion_item@
                } else {
                    does_nothing(session, step)
                },
                FromEditor::CodeActionResolve { code_action, params } => if known
                    && providers.code_action && providers.code_action_resolve == Some(true) {
                    &&& asks(
                        session,
                        step,
                        RequestMethod::CodeActionResolve,
                        "codeAction/resolve"@,
                        params.context,
                        Some(params.path),
                    )
                    &&& params_of(step) == code_action@
                } else {
                    does_nothing(session, step)
                },
                _ => true,
            }
        }),
{
    match message {
        FromEditor::TextDocumentCodeAction { params, diagnostics } => {
            let uri = file_uri(params.path@);
            let list = JsonSpec::Array(items_view(diagnostics@));
            law_code_action_parameters_have_the_range(
                uri,
                params.position,
                params.selection_end,
                list,
            );
            lemma_asked(
                session,
                RequestMethod::CodeAction,
                params.context,
                Some(params.path),
                code_action_params(uri, params.position, params.selection_end, list),
            );
        },
        FromEditor::TextDocumentDocumentSymbol(params) => {
            let uri = file_uri(params.path@);
            lemma_asked(
                session,
                RequestMethod::DocumentSymbol,
                params.context,
                Some(params.path),
                document_params(uri),
            );
            law_parameters_have_what_they_are_made_of(
                uri,
                uri,
                uri,
                JsonSpec::Null,
                JsonSpec::Null,
                uri,
            );
        },
        FromEditor::WorkspaceSymbol { query, context } => {
            lemma_asked(
                session,
                RequestMethod::WorkspaceSymbol,
                context,
                None,
                symbol_params(query@),
            );
            law_parameters_have_what_they_are_made_of(
                query@,
                query@,
                query@,
                JsonSpec::Null,
                JsonSpec::Null,
                query@,
            );
        },
        FromEditor::WorkspaceExecuteCommand { params, command } => {
            let arguments = command_arguments(command.arguments);
            lemma_asked(
                session,
                RequestMethod::ExecuteCommand,
                params.context,
                Some(params.path),
                command_params(command.command@, arguments),
            );
            law_parameters_have_what_they_are_made_of(
                command.command@,
                command.command@,
                command.command@,
                arguments,
                JsonSpec::Null,
                command.command@,
            );
        },
        FromEditor::CompletionItemResolve { completion_item, params } => lemma_asked(
            session,
            RequestMethod::CompletionItemResolve,
            params.context,
            Some(params.path),
            completion_item@,
        ),
        FromEditor::CodeActionResolve { code_action, params } => lemma_asked(
            session,
            RequestMethod::CodeActionResolve,
            params.context,
            Some(params.path),
            code_action@,
        ),
        _ => {},
    }
}

/// Whether a step tells the server something about a document in its first message, and then asks
/// for the diagnostics of that document, where the server is to be asked for them.
pub open spec fn tells_of_document(
    session: Session,
    step: Step,
    method: Seq<char>,
    path: AbsolutePath,
    documents: Map<Seq<char>, Seq<char>>,
) -> bool {
    let id = session.next_request_id;
    let pulls = !(session.diagnostic_mode is Push) && session.capabilities is Some
        && session.capabilities->0.providers.diagnostic;
    &&& step.1.result is Ok
    &&& step.1.actions.len() == (if pulls {
        2int
    } else {
        1
    })
    &&& step.1.actions[0] is Send
    &&& is_notification(step.1.actions[0]->Send_0, method, params_of(step))
    &&& pulls ==> {
        let params = step.1.actions[1]->Send_0.get("params"@);
        &&& step.1.actions[1] is Send
        &&& is_request(step.1.actions[1]->Send_0, "textDocument/diagnostic"@, id, params->0)
        &&& is_about_document(params, file_uri(path@))
    }
    &&& step.0 == (if pulls {
        Session {
            documents,
            next_request_id: (id + 1) as u64,
            pending: session.pending.insert(
                id,
                PendingResponseRequest {
                    method: RequestMethod::Diagnostic,
                    context: ResponseContext { scope: None, description: None },
                    path: Some(path),
                },
            ),
            ..session
        }
    } else {
        Session { documents, ..session }
    })
}

proof fn lemma_document_step(
    session: Session,
    documents: Map<Seq<char>, Seq<char>>,
    path: AbsolutePath,
    method: Seq<char>,
    params: JsonSpec,
)
    requires
        session.next_request_id < u64::MAX,
    ensures
        ({
            let step = document_step(
                Session { documents, ..session },
                path,
                notification(method, params),
            );
            &&& tells_of_document(session, step, method, path, documents)
            &&& params_of(step) == params
        }),
{
    let uri = file_uri(path@);
    let asking = Session { documents, ..session };
    law_messages_have_their_parts(method, params, 0, JsonSpec::Null, JsonSpec::Null, 0, method);
    law_parameters_have_what_they_are_made_of(uri, uri, uri, JsonSpec::Null, JsonSpec::Null, uri);
    lemma_asked(
        asking,
        RequestMethod::Diagnostic,
        ResponseContext { scope: None, description: None },
        Some(path),
        diagnostic_params(uri),
    );
    let step = document_step(asking, path, notification(method, params));
    assert(step.1.actions[0] == SessionAction::<JsonSpec, Seq<char>>::Send(
        notification(method, params),
    ));
    if session.supports_pull_diagnostics() {
        let asked = request_step(
            asking,
            RequestMethod::Diagnostic,
            ResponseContext { scope: None, description: None },
            Some(path),
            diagnostic_params(uri),
        );
        assert(step.1.actions[1] == asked.1.actions[0]);
        assert(params_of(asked) == diagnostic_params(uri));
    }
}

/// A server that wants to hear of open documents is told of one that is opened: of its URI, its
/// language, its version, and its text, which is also what the session keeps for the document. No
/// other server is told.
pub proof fn law_opened_documents_are_told_with_their_text(
    session: Session,
    file_path: AbsolutePath,
    language_id: String,
    version: usize,
    content: String,
)
    requires
        session.next_request_id < u64::MAX,
    ensures
        ({
            let step = editor_step(
                session,
                FromEditor::TextDocumentDidOpen { file_path, language_id, version, content },
            );
            if session.supports_open_close() {
                &&& tells_of_document(
                    session,
                    step,
                    "textDocument/didOpen"@,
                    file_path,
                    session.documents.insert(file_path@, content@),
                )
                &&& version <= i32::MAX ==> opens(
                    Some(params_of(step)),
                    file_uri(file_path@),
                    language_id@,
                    version as int,
                    content@,
                )
                &&& found(params_of(step).get("textDocument"@), "text"@) == Some(
                    JsonSpec::Text(step.0.documents[file_path@]),
                )
            } else {
                does_nothing(session, step)
            }
        }),
{
    let uri = file_uri(file_path@);
    law_document_parameters_have_the_document(
        uri,
        language_id@,
        version as i32,
        content@,
        Position { line: 0, character: 0 },
    );
    lemma_document_step(
        session,
        session.documents.insert(file_path@, content@),
        file_path,
        "textDocument/didOpen"@,
        did_open_params(uri, language_id@, version as i32, content@),
    );
}

/// A server that wants to hear of changes is told of one: of the URI of the document, its version,
/// and its new text, which is also what the session keeps for the document. Where the server wants
/// to hear of ranges, the new text takes the place of all that the server knew of, from the
/// beginning of the document to its end. No other server is told, and none of a document that was
/// not opened where ranges are told.
pub proof fn law_changes_are_told_with_the_new_text(
    session: Session,
    file_path: AbsolutePath,
    version: i32,
    content: String,
)
    requires
        session.next_request_id < u64::MAX,
    ensures
        ({
            let step = editor_step(
                session,
                FromEditor::TextDocumentDidChange { file_path, version, content },
            );
            let documents = session.documents.insert(file_path@, content@);
            match session.sync_kind() {
                None => does_nothing(session, step),
                Some(TextDocumentSyncKind::Incremental) => if !session.documents.dom().contains(
                    file_path@,
                ) {
                    step.0 == session && step.1.actions.len() == 0 && step.1.result is Err
                } else {
                    match end_position(
                        session.documents[file_path@],
                        session.capabilities->0.spec_encoding(),
                    ) {
                        Err(_) => step.0 == session && step.1.actions.len() == 0 && step.1.result
                            is Err,
                        Ok(end) => {
                            &&& tells_of_document(
                                session,
                                step,
                                "textDocument/didChange"@,
                                file_path,
                                documents,
                            )
                            &&& changes(
                                Some(params_of(step)),
                                file_uri(file_path@),
                                version as int,
                                Some(end),
                                content@,
                            )
                        },
                    }
                },
                Some(_) => {
                    &&& tells_of_document(
                        session,
                        step,
                        "textDocument/didChange"@,
                        file_path,
                        documents,
                    )
                    &&& changes(
                        Some(params_of(step)),
                        file_uri(file_path@),
                        version as int,
                        None,
                        content@,
                    )
                },
            }
        }),
{
    let uri = file_uri(file_path@);
    let documents = session.documents.insert(file_path@, content@);
    let end = match end_position(
        session.documents[file_path@],
        session.capabilities->0.spec_encoding(),
    ) {
        Ok(end) => end,
        Err(_) => Position { line: 0, character: 0 },
    };
    law_document_parameters_have_the_document(uri, uri, version, content@, end);
    lemma_document_step(
        session,
        documents,
        file_path,
        "textDocument/didChange"@,
        did_change_params(uri, version, full_change(content@)),
    );
    lemma_document_step(
        session,
        documents,
        file_path,
        "textDocument/didChange"@,
        did_change_params(uri, version, ranged_change(end, content@)),
    );
}

/// Whether a step sends one notification and nothing else, and leaves the session as it is but for
/// its documents.
pub open spec fn notifies(
    session: Session,
    step: Step,
    method: Seq<char>,
    documents: Map<Seq<char>, Seq<char>>,
) -> bool {
    &&& step.0 == (Session { documents, ..session })
    &&& step.1.result is Ok
    &&& step.1.actions.len() == 1
    &&& step.1.actions[0] is Send
    &&& is_notification(step.1.actions[0]->Send_0, method, params_of(step))
}

/// Servers that want to hear of it are told of a document that was saved and of one that was
/// closed, and of files that were created or got a new name: of that document, and of those files.
/// Other servers are not told. A document that was closed is forgotten in any case.
pub proof fn law_files_are_told_by_their_names(session: Session, message: FromEditor)
    requires
        session.next_request_id < u64::MAX,
    ensures
        ({
            let step = editor_step(session, message);
            let known = session.capabilities is Some;
            let providers = session.capabilities->0.providers;
            let files = params_of(step).get("files"@);
            match message {
                FromEditor::TextDocumentDidSave { file_path } => if session.supports_save() {
                    &&& tells_of_document(
                        session,
                        step,
                        "textDocument/didSave"@,
                        file_path,
                        session.documents,
                    )
                    &&& is_about_document(Some(params_of(step)), file_uri(file_path@))
                } else {
                    does_nothing(session, step)
                },
                FromEditor::TextDocumentDidClose { file_path } => if session.supports_open_close() {
                    &&& notifies(
                        session,
                        step,
                        "textDocument/didClose"@,
                        session.documents.remove(file_path@),
                    )
                    &&& is_about_document(Some(params_of(step)), file_uri(file_path@))
                } else {
                    &&& step.0 == (Session {
                        documents: session.documents.remove(file_path@),
                        ..session
                    })
                    &&& step.1.actions.len() == 0
                    &&& step.1.result is Ok
                },
                FromEditor::WorkspaceDidRenameFiles { old: before, new } => if known
                    && providers.did_rename_files {
                    &&& notifies(session, step, "workspace/didRenameFiles"@, session.documents)
                    &&& files is Some && files->0 is Array && files->0->Array_0.len() == 1
                    &&& files->0->Array_0[0].get("oldUri"@) == Some(JsonSpec::Text(before@))
                    &&& files->0->Array_0[0].get("newUri"@) == Some(JsonSpec::Text(new@))
                } else {
                    does_nothing(session, step)
                },
                FromEditor::WorkspaceDidCreateFiles { file_path } => if known
                    && providers.did_create_files {
                    &&& notifies(session, step, "workspace/didCreateFiles"@, session.documents)
                    &&& files is Some && files->0 is Array && files->0->Array_0.len() == 1
                    &&& files->0->Array_0[0].get("uri"@) == Some(JsonSpec::Text(file_path@))
                } else {
                    does_nothing(session, step)
                },
                _ => true,
            }
        }),
{
    match message {
        FromEditor::TextDocumentDidSave { file_path } => {
            let uri = file_uri(file_path@);
            lemma_document_step(
                session,
                session.documents,
                file_path,
                "textDocument/didSave"@,
                document_params(uri),
            );
            lemma_made_of(uri, uri);
        },
        FromEditor::TextDocumentDidClose { file_path } => {
            let uri = file_uri(file_path@);
            lemma_made_of(uri, uri);
            lemma_notification("textDocument/didClose"@, document_params(uri));
        },
        FromEditor::WorkspaceDidRenameFiles { old: before, new } => {
            lemma_made_of(before@, new@);
            lemma_notification("workspace/didRenameFiles"@, did_rename_params(before@, new@));
        },
        FromEditor::WorkspaceDidCreateFiles { file_path } => {
            lemma_made_of(file_path@, file_path@);
            lemma_notification("workspace/didCreateFiles"@, did_create_params(file_path@));
        },
        _ => {},
    }
}

proof fn lemma_made_of(uri: Seq<char>, new: Seq<char>)
    ensures
        is_about_document(Some(document_params(uri)), uri),
        ({
            let files = did_rename_params(uri, new).get("files"@);
            &&& files is Some && files->0 is Array && files->0->Array_0.len() == 1
            &&& files->0->Array_0[0].get("oldUri"@) == Some(JsonSpec::Text(uri))
            &&& files->0->Array_0[0].get("newUri"@) == Some(JsonSpec::Text(new))
        }),
        ({
            let files = did_create_params(uri).get("files"@);
            &&& files is Some && files->0 is Array && files->0->Array_0.len() == 1
            &&& files->0->Array_0[0].get("uri"@) == Some(JsonSpec::Text(uri))
        }),
{
    law_parameters_have_what_they_are_made_of(uri, uri, uri, JsonSpec::Null, JsonSpec::Null, new);
}

proof fn lemma_notification(method: Seq<char>, params: JsonSpec)
    ensures
        is_notification(notification(method, params), method, params),
{
    law_messages_have_their_parts(method, params, 0, JsonSpec::Null, JsonSpec::Null, 0, method);
}

} // verus!
