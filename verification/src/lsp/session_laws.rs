//! What holds of every session.

use crate::json::{law_members_are_found, JsonSpec};
use crate::lsp::capabilities::TextDocumentSyncKind;
use crate::lsp::decode::{ParamsKind, RpcRequest};
use crate::lsp::messages::{
    did_open_params, document_params, error_reply, full_change, id_json, notification,
    position_params, ranged_change, reply, request, METHOD_NOT_FOUND,
};
use crate::lsp::positions::end_position;
use crate::lsp::protocol::{
    same_message, CallHierarchyDirection, FromEditor, MessageId, PendingResponseRequest,
    RequestMethod, RequestParams, ResponseContext, SessionAction,
};
use crate::lsp::process::{message_step, LspServerProcessMessage};
use crate::lsp::session::{
    abandoned_step, announced_capabilities, asked, call_hierarchy_step, did_change_message,
    did_change_step, did_close_step, did_open_step, document_step, editor_step, initialize_step,
    nothing, one, params_step, reply_step, request_number, request_step, result_step, server_step,
    shutdown_step, unwritten_step, ActionSpec, Session, SessionError, Step,
};
use crate::lsp::uri::file_uri;
use crate::path::AbsolutePath;
use vstd::prelude::*;

verus! {

/// Whether no number of a request that is still to be answered will be given to another one.
pub open spec fn numbers_are_free(session: Session) -> bool {
    &&& forall|id: u64| session.pending.dom().contains(id) ==> id < session.next_request_id
    &&& forall|id: u64| session.directions.dom().contains(id) ==> id < session.next_request_id
}

/// Whether `next` is a session with the same server for the same workspace.
pub open spec fn same_server(session: Session, next: Session) -> bool {
    &&& next.server_id == session.server_id
    &&& next.root == session.root
    &&& next.diagnostic_mode == session.diagnostic_mode
    &&& next.options == session.options
    &&& next.plugin == session.plugin
    &&& session.is_initialized ==> next.is_initialized
}

#[verifier::opaque]
spec fn keeps(session: Session, next: Session) -> bool {
    &&& numbers_are_free(next)
    &&& same_server(session, next)
    &&& next.capabilities == session.capabilities
    &&& session.next_request_id <= next.next_request_id <= session.next_request_id + 1
}

proof fn lemma_asked_keeps(
    session: Session,
    supported: bool,
    method: RequestMethod,
    context: ResponseContext,
    path: Option<AbsolutePath>,
    params: JsonSpec,
)
    requires
        numbers_are_free(session),
        session.next_request_id < u64::MAX,
    ensures
        keeps(session, asked(session, supported, method, context, path, params).0),
{
    reveal(keeps);
}

proof fn lemma_document_keeps(
    session: Session,
    documents: Map<Seq<char>, Seq<char>>,
    path: AbsolutePath,
    message: JsonSpec,
)
    requires
        numbers_are_free(session),
        session.next_request_id < u64::MAX,
    ensures
        keeps(session, session),
        keeps(session, Session { documents, ..session }),
        keeps(session, document_step(Session { documents, ..session }, path, message).0),
{
    reveal(keeps);
}

proof fn lemma_call_hierarchy_keeps(
    session: Session,
    supported: bool,
    params: RequestParams,
    direction: CallHierarchyDirection,
)
    requires
        numbers_are_free(session),
        session.next_request_id < u64::MAX,
    ensures
        keeps(session, call_hierarchy_step(session, supported, params, direction).0),
{
    reveal(keeps);
}

/// A message of the editor gives out no number twice, and changes neither the server nor the
/// workspace, nor what the server says that it can do.
pub proof fn law_editor_messages_keep_numbers_free(session: Session, message: FromEditor)
    requires
        numbers_are_free(session),
        session.next_request_id < u64::MAX,
    ensures
        numbers_are_free(editor_step(session, message).0),
        same_server(session, editor_step(session, message).0),
        editor_step(session, message).0.capabilities == session.capabilities,
        editor_step(session, message).0.next_request_id <= session.next_request_id + 1,
{
    let next = editor_step(session, message).0;
    assert(keeps(session, next)) by {
        lemma_editor_keeps(session, message);
    }
    reveal(keeps);
}

proof fn lemma_editor_keeps(session: Session, message: FromEditor)
    requires
        numbers_are_free(session),
        session.next_request_id < u64::MAX,
    ensures
        keeps(session, editor_step(session, message).0),
{
    assert forall|
        supported: bool,
        method: RequestMethod,
        context: ResponseContext,
        path: Option<AbsolutePath>,
        params: JsonSpec,
    |
        keeps(session, (#[trigger] asked(session, supported, method, context, path, params)).0) by {
        lemma_asked_keeps(session, supported, method, context, path, params);
    }
    match message {
        FromEditor::TextDocumentDidOpen { file_path, language_id, version, content } => {
            lemma_document_keeps(
                session,
                session.documents.insert(file_path@, content@),
                file_path,
                notification(
                    "textDocument/didOpen"@,
                    did_open_params(file_uri(file_path@), language_id@, version as i32, content@),
                ),
            );
        },
        FromEditor::TextDocumentDidChange { file_path, version, content } => {
            let documents = session.documents.insert(file_path@, content@);
            let end = end_position(
                session.documents[file_path@],
                session.capabilities->0.spec_encoding(),
            );
            lemma_document_keeps(
                session,
                documents,
                file_path,
                did_change_message(file_path, version, full_change(content@)),
            );
            if end is Ok {
                lemma_document_keeps(
                    session,
                    documents,
                    file_path,
                    did_change_message(file_path, version, ranged_change(end->Ok_0, content@)),
                );
            }
        },
        FromEditor::TextDocumentDidClose { file_path } => {
            lemma_document_keeps(
                session,
                session.documents.remove(file_path@),
                file_path,
                JsonSpec::Null,
            );
        },
        FromEditor::TextDocumentDidSave { file_path } => {
            lemma_document_keeps(
                session,
                session.documents,
                file_path,
                notification("textDocument/didSave"@, document_params(file_uri(file_path@))),
            );
        },
        FromEditor::WorkspaceDidRenameFiles { old, new } => {
            lemma_document_keeps(session, session.documents, old, JsonSpec::Null);
        },
        FromEditor::WorkspaceDidCreateFiles { file_path } => {
            lemma_document_keeps(session, session.documents, file_path, JsonSpec::Null);
        },
        FromEditor::TextDocumentPrepareCallHierarchy { params, direction } => {
            lemma_call_hierarchy_keeps(
                session,
                session.capabilities is Some && session.capabilities->0.providers.call_hierarchy,
                params,
                direction,
            );
        },
        _ => {},
    }
}

/// A message of the server gives out no number twice, and changes neither the server nor the
/// workspace.
pub proof fn law_server_messages_keep_numbers_free(session: Session, message: JsonSpec)
    requires
        numbers_are_free(session),
        session.next_request_id < u64::MAX,
    ensures
        numbers_are_free(reply_step(session, message).0),
        same_server(session, reply_step(session, message).0),
        reply_step(session, message).0.documents == session.documents,
        reply_step(session, message).0.next_request_id <= session.next_request_id + 1,
{
}

/// The beginning and the end of a session give out no number twice either.
pub proof fn law_begin_and_end_keep_numbers_free(session: Session)
    requires
        numbers_are_free(session),
        session.next_request_id < u64::MAX,
    ensures
        numbers_are_free(initialize_step(session).0),
        same_server(session, initialize_step(session).0),
        numbers_are_free(shutdown_step(session).0),
        same_server(session, shutdown_step(session).0),
{
}

/// Whatever reaches a session, no number is given out twice: this holds when the session begins,
/// with no request sent, and each message keeps it so.
pub proof fn law_numbers_stay_free(session: Session, message: LspServerProcessMessage)
    ensures
        session.pending == Map::<u64, PendingResponseRequest>::empty() && session.directions
            == Map::<u64, CallHierarchyDirection>::empty() ==> numbers_are_free(session),
        numbers_are_free(session) && session.next_request_id < u64::MAX ==> numbers_are_free(
            message_step(session, message).0.0,
        ) && same_server(session, message_step(session, message).0.0),
{
    if numbers_are_free(session) && session.next_request_id < u64::MAX {
        match message {
            LspServerProcessMessage::FromLspServer(message) => {
                law_server_messages_keep_numbers_free(session, message@);
            },
            LspServerProcessMessage::FromEditor(message) => {
                law_editor_messages_keep_numbers_free(session, message);
            },
            LspServerProcessMessage::Throttled(message) => {
                law_editor_messages_keep_numbers_free(session, message);
            },
            LspServerProcessMessage::Shutdown => {
                law_begin_and_end_keep_numbers_free(session);
            },
            _ => {},
        }
    }
}

/// Until a server has said what it can do, the editor sends it nothing.
pub proof fn law_nothing_is_sent_before_capabilities(session: Session, message: FromEditor)
    requires
        session.capabilities is None,
    ensures
        editor_step(session, message).1 == nothing(),
        editor_step(session, message).0.pending == session.pending,
        editor_step(session, message).0.next_request_id == session.next_request_id,
{
}

/// A request that was sent waits for its answer, under the number that it was sent with.
pub proof fn law_sent_requests_wait(
    session: Session,
    method: RequestMethod,
    context: ResponseContext,
    path: Option<AbsolutePath>,
    params: JsonSpec,
)
    requires
        numbers_are_free(session),
        session.next_request_id < u64::MAX,
    ensures
        !session.pending.dom().contains(session.next_request_id),
        ({
            let next = request_step(session, method, context, path, params).0;
            &&& next.pending.dom().contains(session.next_request_id)
            &&& next.pending[session.next_request_id].method == method
            &&& next.pending[session.next_request_id].context == context
            &&& next.pending[session.next_request_id].path == path
            &&& next.next_request_id == session.next_request_id + 1
        }),
{
}

/// Whether a message answers the request with the number `id`.
pub open spec fn answers(message: JsonSpec, id: u64) -> bool {
    &&& message.get("error"@) is None
    &&& message.get("method"@) is None
    &&& message.get("id"@) == Some(JsonSpec::Unsigned(id))
}

/// A request is answered once: a second answer with the same number fails and changes nothing.
pub proof fn law_requests_are_answered_once(
    session: Session,
    id: u64,
    first: JsonSpec,
    second: JsonSpec,
)
    requires
        numbers_are_free(session),
        session.next_request_id < u64::MAX,
        session.pending.dom().contains(id),
        answers(first, id),
        answers(second, id),
    ensures
        ({
            let next = reply_step(session, first).0;
            &&& !next.pending.dom().contains(id)
            &&& reply_step(next, second).0 == next
            &&& reply_step(next, second).1.result == Err::<(), SessionError<Seq<char>>>(
                SessionError::UnknownRequest(id),
            )
            &&& reply_step(next, second).1.actions.len() == 0
        }),
{
}

/// An answer leaves all other requests waiting.
pub proof fn law_answers_leave_other_requests_waiting(
    session: Session,
    id: u64,
    message: JsonSpec,
    other: u64,
)
    requires
        numbers_are_free(session),
        session.next_request_id < u64::MAX,
        answers(message, id),
        other != id,
        session.pending.dom().contains(other),
    ensures
        reply_step(session, message).0.pending.dom().contains(other),
        reply_step(session, message).0.pending[other] == session.pending[other],
{
}

/// A session that has begun ends in an orderly way: it sends `shutdown` and then `exit`, and when
/// the answer to `shutdown` comes, whatever it holds, the session is over.
pub proof fn law_shutdown_ends_the_session(session: Session, message: JsonSpec)
    requires
        session.is_initialized,
        numbers_are_free(session),
        session.next_request_id < u64::MAX,
        answers(message, session.next_request_id),
    ensures
        ({
            let (next, outcome) = shutdown_step(session);
            &&& outcome.result is Ok
            &&& outcome.actions.len() == 2
            &&& outcome.actions[0] is Send
            &&& outcome.actions[0]->Send_0.get("method"@) == Some(JsonSpec::Text("shutdown"@))
            &&& outcome.actions[0]->Send_0.get("id"@) == Some(
                JsonSpec::Unsigned(session.next_request_id),
            )
            &&& outcome.actions[1] == SessionAction::<JsonSpec, Seq<char>>::Send(
                notification("exit"@, JsonSpec::Null),
            )
            &&& reply_step(next, message).1 == one(SessionAction::Exit)
        }),
{
    let (next, outcome) = shutdown_step(session);
    lemma_request_members(
        RequestMethod::Shutdown.spec_name(),
        JsonSpec::Null,
        session.next_request_id,
    );
}

/// Whether a step sends one request, with the next free number, and leaves nothing but a number
/// that is used up where the request could not be written.
pub open spec fn is_undone_when_unwritten(session: Session, step: Step) -> bool {
    let (next, outcome) = step;
    let id = session.next_request_id;
    &&& outcome.actions.len() == 1
    &&& outcome.actions[0] is Send
    &&& request_number(outcome.actions[0]->Send_0) == Some(id)
    &&& next.next_request_id == id + 1
    &&& next.pending.dom() == session.pending.dom().insert(id)
    &&& unwritten_step(next, outcome.actions[0]->Send_0) == (Session {
        next_request_id: (id + 1) as u64,
        ..session
    })
    &&& abandoned_step(next, outcome.actions) == (Session {
        next_request_id: (id + 1) as u64,
        ..session
    })
}

/// A request has its method and its number.
proof fn lemma_request_members(method: Seq<char>, params: JsonSpec, id: u64)
    ensures
        request(method, params, id).get("method"@) == Some(JsonSpec::Text(method)),
        request(method, params, id).get("id"@) == Some(JsonSpec::Unsigned(id)),
{
    broadcast use law_members_are_found;

    reveal_strlit("jsonrpc");
    reveal_strlit("method");
    reveal_strlit("params");
    reveal_strlit("id");
    assert("method"@.len() == 6);
    assert("id"@.len() == 2);
    assert("params"@[0] == 'p');
    assert("method"@[0] == 'm');
    let named = JsonSpec::object().with("jsonrpc"@, JsonSpec::Text("2.0"@)).with(
        "method"@,
        JsonSpec::Text(method),
    );
    assert(named.get("method"@) == Some(JsonSpec::Text(method)));
    let full = named.with("params"@, params);
    assert(full.get("method"@) == Some(JsonSpec::Text(method)));
    assert(full.with("id"@, JsonSpec::Unsigned(id)).get("method"@) == full.get("method"@));
}

proof fn lemma_unwritten_request(session: Session, method: Seq<char>, params: JsonSpec, id: u64)
    ensures
        request_number(request(method, params, id)) == Some(id),
        unwritten_step(session, request(method, params, id)) == (Session {
            pending: session.pending.remove(id),
            directions: session.directions.remove(id),
            ..session
        }),
{
    lemma_request_members(method, params, id);
}

/// A request comes to one message, which has the next free number. Where the message could not be
/// written, the request leaves nothing behind: the session waits for the same answers as before it,
/// and only the number is used up. That holds of a request that prepares a call hierarchy too.
pub proof fn law_unwritten_requests_wait_for_nothing(
    session: Session,
    method: RequestMethod,
    context: ResponseContext,
    path: Option<AbsolutePath>,
    params: JsonSpec,
    direction: CallHierarchyDirection,
    place: RequestParams,
)
    requires
        numbers_are_free(session),
        session.next_request_id < u64::MAX,
    ensures
        is_undone_when_unwritten(session, request_step(session, method, context, path, params)),
        is_undone_when_unwritten(session, call_hierarchy_step(session, true, place, direction)),
{
    let id = session.next_request_id;
    let (next, outcome) = request_step(session, method, context, path, params);
    lemma_unwritten_request(next, method.spec_name(), params, id);
    lemma_abandoned_one(next, outcome.actions[0]);
    assert(outcome.actions =~= seq![outcome.actions[0]]);
    assert(next.pending.remove(id) =~= session.pending);
    assert(next.directions.remove(id) =~= session.directions);
    let (next, outcome) = call_hierarchy_step(session, true, place, direction);
    lemma_unwritten_request(
        next,
        RequestMethod::PrepareCallHierarchy.spec_name(),
        position_params(file_uri(place.path@), place.position),
        id,
    );
    lemma_abandoned_one(next, outcome.actions[0]);
    assert(outcome.actions =~= seq![outcome.actions[0]]);
    assert(next.pending.remove(id) =~= session.pending);
    assert(next.directions.remove(id) =~= session.directions);
}

proof fn lemma_abandoned_one(session: Session, action: ActionSpec)
    ensures
        abandoned_step(session, seq![action]) == match action {
            SessionAction::Send(message) => unwritten_step(session, message),
            _ => session,
        },
{
    let actions = seq![action];
    assert(actions.drop_last() =~= Seq::<ActionSpec>::empty());
    assert(abandoned_step(session, actions.drop_last()) == session);
}

/// A session that has not begun has nothing to end.
pub proof fn law_shutdown_before_begin_sends_nothing(session: Session)
    requires
        !session.is_initialized,
    ensures
        shutdown_step(session) == (session, nothing()),
{
}

/// A change of a document that the server heard of is told as a change of all the text that the
/// server knows of: from its beginning to where the text ended that was opened.
pub proof fn law_changes_replace_the_opened_text(
    session: Session,
    path: AbsolutePath,
    language_id: Seq<char>,
    opened_version: usize,
    opened: Seq<char>,
    version: i32,
    content: Seq<char>,
)
    requires
        session.supports_open_close(),
        session.sync_kind() == Some(TextDocumentSyncKind::Incremental),
        end_position(opened, session.capabilities->0.spec_encoding()) is Ok,
    ensures
        ({
            let next = did_open_step(session, path, language_id, opened_version, opened).0;
            let (last, outcome) = did_change_step(next, path, version, content);
            let end = end_position(opened, session.capabilities->0.spec_encoding())->Ok_0;
            &&& outcome.result is Ok
            &&& outcome.actions[0] == SessionAction::<JsonSpec, Seq<char>>::Send(
                did_change_message(path, version, ranged_change(end, content)),
            )
            &&& last.documents[path@] == content
        }),
{
}

/// The next change is told against the text of the change before it.
pub proof fn law_changes_follow_each_other(
    session: Session,
    path: AbsolutePath,
    version: i32,
    content: Seq<char>,
    next_version: i32,
    next_content: Seq<char>,
)
    requires
        session.sync_kind() == Some(TextDocumentSyncKind::Incremental),
        session.documents.dom().contains(path@),
        end_position(
            session.documents[path@],
            session.capabilities->0.spec_encoding(),
        ) is Ok,
        end_position(content, session.capabilities->0.spec_encoding()) is Ok,
    ensures
        ({
            let next = did_change_step(session, path, version, content).0;
            let end = end_position(content, session.capabilities->0.spec_encoding())->Ok_0;
            did_change_step(next, path, next_version, next_content).1.actions[0]
                == SessionAction::<JsonSpec, Seq<char>>::Send(
                did_change_message(path, next_version, ranged_change(end, next_content)),
            )
        }),
{
}

/// A document that was closed has to be opened before it can change again, where changes are told
/// against the text that the server knows of.
pub proof fn law_closed_documents_cannot_change(
    session: Session,
    path: AbsolutePath,
    version: i32,
    content: Seq<char>,
)
    requires
        session.sync_kind() == Some(TextDocumentSyncKind::Incremental),
    ensures
        ({
            let next = did_close_step(session, path).0;
            let (last, outcome) = did_change_step(next, path, version, content);
            &&& last == next
            &&& outcome.actions.len() == 0
            &&& outcome.result == Err::<(), SessionError<Seq<char>>>(SessionError::NotOpen(path@))
        }),
{
}

/// Whether an action sends an answer to the request that a server named `id`.
pub open spec fn is_answer_to(action: ActionSpec, id: JsonSpec) -> bool {
    match action {
        SessionAction::Send(message) => {
            ||| exists|result: JsonSpec| message == #[trigger] reply(id, result)
            ||| exists|code: i32, text: Seq<char>|
                message == #[trigger] error_reply(id, code, text)
        },
        _ => false,
    }
}

/// A server that wants to register a capability is refused, under the name of its request.
pub proof fn law_registration_is_refused(
    session: Session,
    message: RpcRequest<JsonSpec, Seq<char>>,
    raw: JsonSpec,
)
    requires
        message.method == "client/registerCapability"@,
    ensures
        server_step(session, message, raw).0 == session,
        server_step(session, message, raw).1 == one(
            SessionAction::Send(
                error_reply(
                    id_json(message.id),
                    METHOD_NOT_FOUND,
                    "Dynamic capability registration is not supported"@,
                ),
            ),
        ),
{
    reveal_strlit("client/registerCapability");
    reveal_strlit("textDocument/publishDiagnostics");
    reveal_strlit("workspace/applyEdit");
    reveal_strlit("workspace/configuration");
    reveal_strlit("window/showMessageRequest");
    reveal_strlit("window/logMessage");
    reveal_strlit("$/progress");
    reveal_strlit("window/workDoneProgress/create");
    assert("client/registerCapability"@[0] == 'c');
    assert("textDocument/publishDiagnostics"@[0] == 't');
    assert("workspace/applyEdit"@[0] == 'w');
    assert("workspace/configuration"@[0] == 'w');
    assert("window/showMessageRequest"@[0] == 'w');
    assert("window/logMessage"@[0] == 'w');
    assert("$/progress"@[0] == '$');
    assert("window/workDoneProgress/create"@[0] == 'w');
}

/// A message that the user is asked about is shown, and answered at once with `null`.
pub proof fn law_questions_are_shown_and_answered(
    session: Session,
    id: Option<MessageId<Seq<char>>>,
    params: JsonSpec,
)
    ensures
        ({
            let (next, outcome) = params_step(session, ParamsKind::ShowMessage, id, params);
            &&& next == session
            &&& outcome.actions.len() == 2
            &&& outcome.actions[0] is Notify
            &&& outcome.actions[1] == SessionAction::<JsonSpec, Seq<char>>::Send(
                reply(id_json(id), JsonSpec::Null),
            )
            &&& is_answer_to(outcome.actions[1], id_json(id))
        }),
{
}

/// No message but one that ends the session makes it stop, and none is held back but a completion
/// item that is to be resolved.
pub proof fn law_only_the_end_stops(session: Session, message: LspServerProcessMessage)
    ensures
        message_step(session, message).1 is Stop <==> message is Shutdown || message is Exit,
        message_step(session, message).1 is HoldBack <==> message is FromEditor
            && message->FromEditor_0 is CompletionItemResolve,
{
}

/// Messages that are the same for whoever reads them make a session do the same.
pub proof fn law_same_messages_do_the_same(session: Session, left: FromEditor, right: FromEditor)
    requires
        same_message(left, right),
    ensures
        editor_step(session, left) == editor_step(session, right),
{
}

/// A message that reports an error changes nothing: the request that it is about still waits.
pub proof fn law_errors_change_nothing(session: Session, message: JsonSpec)
    requires
        message.get("error"@) is Some,
    ensures
        reply_step(session, message).0 == session,
        reply_step(session, message).1.actions.len() == 0,
        reply_step(session, message).1.result is Err,
{
}

/// When the answer to `initialize` is read, the session has begun: the server is told so, and what
/// the server can do is known from then on.
pub proof fn law_the_answer_to_initialize_begins_the_session(
    session: Session,
    id: u64,
    request: PendingResponseRequest,
    value: JsonSpec,
)
    requires
        request.method is Initialize,
    ensures
        ({
            let (next, outcome) = result_step(session, id, request, value);
            &&& next.is_initialized
            &&& next.capabilities == Some(announced_capabilities(value))
            &&& outcome.result is Ok
            &&& outcome.actions.len() == 2
            &&& outcome.actions[0] == SessionAction::<JsonSpec, Seq<char>>::Send(
                notification("initialized"@, JsonSpec::object()),
            )
            &&& outcome.actions[1] is Notify
        }),
{
}

} // verus!
