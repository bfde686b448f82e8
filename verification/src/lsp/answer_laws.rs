//! What holds of what a session makes of the messages of a server.

use crate::decimal::decimal;
use crate::json::{by_name, law_members_are_found, JsonSpec};
use crate::lsp::capabilities::capabilities_of;
use crate::lsp::configuration::configuration_response;
use crate::lsp::decode::{
    decoded_apply_edit, decoded_call_items, decoded_code_action, decoded_code_actions,
    decoded_completion, decoded_completion_item, decoded_configuration, decoded_definition,
    decoded_diagnostic, decoded_document_symbols, decoded_edit, decoded_hover,
    decoded_incoming_calls, decoded_initialize, decoded_locations, decoded_log_message,
    decoded_outgoing_calls, decoded_prepare_rename, decoded_progress, decoded_published_diagnostics,
    decoded_show_message, decoded_signature_help, decoded_workspace_symbols, id_view, rpc_payload,
    rpc_request, RpcRequest,
};
use crate::lsp::message_laws::{
    asks, does_nothing, found, is_notification, is_refusal, is_reply, law_messages_have_their_parts,
    law_parameters_have_what_they_are_made_of, params_of,
};
use crate::lsp::messages::{
    edit_applied, edit_failed, initialize_params, item_params, notification, ordered_call_item,
    ordered_position, ordered_range, METHOD_NOT_FOUND,
};
use crate::lsp::process::{message_step, LspServerProcessMessage};
use crate::lsp::protocol::{
    CallHierarchyDirection, FromEditor, LspNotification, MessageId, RequestMethod, ResponseContext,
    SessionAction,
};
use crate::lsp::session::{
    edit_step, editor_step, initialize_step, progress_token, reply_step, server_step, shutdown_step,
    unwritten_step, Session, SessionError, Step,
};
use crate::lsp::server_config::option_value;
use crate::lsp::uri::file_uri;
use vstd::prelude::*;

verus! {

/// Whether `message` answers the request number `id` with `result`.
pub open spec fn answers_with(
    session: Session,
    message: JsonSpec,
    id: u64,
    result: JsonSpec,
) -> bool {
    &&& message.get("error"@) is None
    &&& message.get("method"@) is None
    &&& message.get("id"@) == Some(JsonSpec::Unsigned(id))
    &&& session.pending.dom().contains(id)
    &&& rpc_payload(by_name(message)) == Ok::<
        Result<JsonSpec, (Seq<char>, Seq<char>)>,
        Seq<char>,
    >(Ok(result))
}

/// Whether a step does nothing but take a request off those that wait, and tell the editor what
/// `told` makes of the result, if it makes something of it. A result of the wrong shape is an
/// error.
pub open spec fn hands_over(
    session: Session,
    id: u64,
    step: Step,
    decoded: Result<JsonSpec, Seq<char>>,
    told: spec_fn(JsonSpec) -> Option<LspNotification<JsonSpec, Seq<char>>>,
) -> bool {
    &&& step.0 == (Session { pending: session.pending.remove(id), ..session })
    &&& match decoded {
        Err(fault) => {
            &&& step.1.actions.len() == 0
            &&& step.1.result == Err::<(), SessionError<Seq<char>>>(
                SessionError::WrongResult(fault),
            )
        },
        Ok(value) => {
            &&& step.1.result is Ok
            &&& match told(value) {
                Some(notification) => step.1.actions == seq![
                    SessionAction::<JsonSpec, Seq<char>>::Notify(notification),
                ],
                None => step.1.actions.len() == 0,
            }
        },
    }
}

/// `notification`, unless the result is `null`.
pub open spec fn unless_null(
    value: JsonSpec,
    notification: LspNotification<JsonSpec, Seq<char>>,
) -> Option<LspNotification<JsonSpec, Seq<char>>> {
    if value is Null {
        None
    } else {
        Some(notification)
    }
}

/// The answer to a question of the editor reaches the editor as the answer to that question, with
/// the context in which it was asked, and the question waits no longer.
pub proof fn law_answers_reach_the_editor(
    session: Session,
    message: JsonSpec,
    id: u64,
    result: JsonSpec,
)
    requires
        answers_with(session, message, id, result),
    ensures
        ({
            let step = reply_step(session, message);
            let content = by_name(result);
            let request = session.pending[id];
            let context = request.context;
            match request.method {
                RequestMethod::Hover => hands_over(
                    session,
                    id,
                    step,
                    decoded_hover(content),
                    |value: JsonSpec| unless_null(value, LspNotification::Hover(value)),
                ),
                RequestMethod::Definition
                | RequestMethod::Declaration
                | RequestMethod::TypeDefinition
                | RequestMethod::Implementation => hands_over(
                    session,
                    id,
                    step,
                    decoded_definition(content),
                    |value: JsonSpec|
                        unless_null(value, LspNotification::Definition(context, value)),
                ),
                RequestMethod::References => hands_over(
                    session,
                    id,
                    step,
                    decoded_locations(content),
                    |value: JsonSpec|
                        unless_null(value, LspNotification::References(context, value)),
                ),
                RequestMethod::PrepareRename => hands_over(
                    session,
                    id,
                    step,
                    decoded_prepare_rename(content),
                    |value: JsonSpec|
                        unless_null(value, LspNotification::PrepareRenameResponse(value)),
                ),
                RequestMethod::Rename => hands_over(
                    session,
                    id,
                    step,
                    decoded_edit(content),
                    |value: JsonSpec|
                        unless_null(
                            value,
                            LspNotification::WorkspaceEdit { edit: value, respond: None },
                        ),
                ),
                RequestMethod::CodeAction => hands_over(
                    session,
                    id,
                    step,
                    decoded_code_actions(content),
                    |value: JsonSpec| unless_null(value, LspNotification::CodeAction(value)),
                ),
                RequestMethod::CodeActionResolve => hands_over(
                    session,
                    id,
                    step,
                    decoded_code_action(content),
                    |value: JsonSpec| Some(LspNotification::CodeActionResolve(value)),
                ),
                RequestMethod::CompletionItemResolve => hands_over(
                    session,
                    id,
                    step,
                    decoded_completion_item(content),
                    |value: JsonSpec| Some(LspNotification::CompletionItemResolve(value)),
                ),
                RequestMethod::SignatureHelp => hands_over(
                    session,
                    id,
                    step,
                    decoded_signature_help(content),
                    |value: JsonSpec|
                        Some(
                            LspNotification::SignatureHelp(
                                if value is Null {
                                    None
                                } else {
                                    Some(value)
                                },
                            ),
                        ),
                ),
                RequestMethod::DocumentSymbol => hands_over(
                    session,
                    id,
                    step,
                    decoded_document_symbols(content),
                    |value: JsonSpec|
                        if request.path is None {
                            None
                        } else {
                            unless_null(
                                value,
                                LspNotification::DocumentSymbols {
                                    symbols: value,
                                    path: request.path->0@,
                                },
                            )
                        },
                ),
                RequestMethod::WorkspaceSymbol => hands_over(
                    session,
                    id,
                    step,
                    decoded_workspace_symbols(content),
                    |value: JsonSpec|
                        unless_null(
                            value,
                            LspNotification::WorkspaceSymbols {
                                symbols: value,
                                root: session.root,
                            },
                        ),
                ),
                RequestMethod::IncomingCalls => hands_over(
                    session,
                    id,
                    step,
                    decoded_incoming_calls(content),
                    |value: JsonSpec|
                        unless_null(
                            value,
                            LspNotification::CallHierarchyIncomingCalls(context, value),
                        ),
                ),
                RequestMethod::OutgoingCalls => hands_over(
                    session,
                    id,
                    step,
                    decoded_outgoing_calls(content),
                    |value: JsonSpec|
                        unless_null(
                            value,
                            LspNotification::CallHierarchyOutgoingCalls(context, value),
                        ),
                ),
                RequestMethod::ExecuteCommand => hands_over(
                    session,
                    id,
                    step,
                    Ok(content),
                    |value: JsonSpec| None,
                ),
                RequestMethod::Shutdown => {
                    &&& step.0 == (Session { pending: session.pending.remove(id), ..session })
                    &&& step.1.actions == seq![SessionAction::<JsonSpec, Seq<char>>::Exit]
                },
                _ => true,
            }
        }),
{
    let step = reply_step(session, message);
    let request = session.pending[id];
    assert(step.0.pending == session.pending.remove(id) || request.method is PrepareCallHierarchy);
}

/// The items of a completion reach the editor, whether they come as a list or within one, together
/// with the context in which they were asked for and the characters that ask for completion.
pub proof fn law_completions_reach_the_editor(
    session: Session,
    message: JsonSpec,
    id: u64,
    result: JsonSpec,
    value: JsonSpec,
)
    requires
        answers_with(session, message, id, result),
        session.pending[id].method is Completion,
        decoded_completion(by_name(result)) == Ok::<JsonSpec, Seq<char>>(value),
    ensures
        ({
            let step = reply_step(session, message);
            let told = step.1.actions[0]->Notify_0;
            &&& step.0 == (Session { pending: session.pending.remove(id), ..session })
            &&& step.1.result is Ok
            &&& value is Null ==> step.1.actions.len() == 0
            &&& !(value is Null) ==> {
                &&& step.1.actions.len() == 1
                &&& step.1.actions[0] is Notify
                &&& told is Completion
                &&& told->Completion_context == session.pending[id].context
                &&& value is Array ==> told->Completion_items == value
                &&& value.get("items"@) is Some ==> Some(told->Completion_items) == value.get(
                    "items"@,
                )
                &&& session.capabilities is Some && session.capabilities->0.trigger_characters
                    is Some ==> told->trigger_characters is Array
                    && told->trigger_characters->Array_0.len()
                    == session.capabilities->0.trigger_characters->0.len() && forall|i: int|
                    0 <= i < told->trigger_characters->Array_0.len() ==> (
                    #[trigger] told->trigger_characters->Array_0[i]) == JsonSpec::Text(
                        session.capabilities->0.trigger_characters->0[i],
                    )
            }
        }),
{
}

/// A full report of diagnostics reaches the editor as the diagnostics of the document that it was
/// asked for. Another report says nothing.
pub proof fn law_reports_reach_the_editor(
    session: Session,
    message: JsonSpec,
    id: u64,
    result: JsonSpec,
    value: JsonSpec,
)
    requires
        answers_with(session, message, id, result),
        session.pending[id].method is Diagnostic,
        decoded_diagnostic(by_name(result)) == Ok::<JsonSpec, Seq<char>>(value),
    ensures
        ({
            let step = reply_step(session, message);
            let told = step.1.actions[0]->Notify_0;
            let path = session.pending[id].path;
            &&& step.0 == (Session { pending: session.pending.remove(id), ..session })
            &&& step.1.result is Ok
            &&& path is Some && value.get("kind"@) == Some(JsonSpec::Text("full"@)) && value.get(
                "items"@,
            ) is Some ==> {
                &&& step.1.actions.len() == 1
                &&& step.1.actions[0] is Notify
                &&& told is PublishDiagnostics
                &&& told->PublishDiagnostics_server_id == session.server_id
                &&& told->params.get("uri"@) == Some(JsonSpec::Text(file_uri(path->0@)))
                &&& told->params.get("diagnostics"@) == value.get("items"@)
            }
            &&& path is None || value.get("kind"@) != Some(JsonSpec::Text("full"@))
                ==> step.1.actions.len() == 0
        }),
{
    broadcast use law_members_are_found;

    reveal_strlit("uri");
    reveal_strlit("diagnostics");
    assert("uri"@.len() == 3 && "diagnostics"@.len() == 11);
}

/// An answer that reports an error is told to the user, with the code and the message of the error,
/// and is an error. An answer that is none is an error too. Either way the request waits no longer.
pub proof fn law_failed_answers_are_told(session: Session, message: JsonSpec, id: u64)
    requires
        message.get("error"@) is None,
        message.get("method"@) is None,
        message.get("id"@) == Some(JsonSpec::Unsigned(id)),
        session.pending.dom().contains(id),
        !(session.pending[id].method is Shutdown),
    ensures
        ({
            let step = reply_step(session, message);
            match rpc_payload(by_name(message)) {
                Err(fault) => {
                    &&& step.0 == (Session { pending: session.pending.remove(id), ..session })
                    &&& step.1.actions.len() == 0
                    &&& step.1.result == Err::<(), SessionError<Seq<char>>>(
                        SessionError::NotResponse(fault),
                    )
                },
                Ok(Err((code, text))) => {
                    &&& step.0 == (Session { pending: session.pending.remove(id), ..session })
                    &&& step.1.actions == seq![
                        SessionAction::<JsonSpec, Seq<char>>::Notify(
                            LspNotification::Error("LSP JSON-RPC Error: "@ + code + ": "@ + text),
                        ),
                    ]
                    &&& step.1.result == Err::<(), SessionError<Seq<char>>>(
                        SessionError::Rpc { code, message: text },
                    )
                },
                _ => true,
            }
        }),
{
}

/// The methods of the messages that a server sends of its own accord are different ones.
proof fn lemma_server_methods()
    ensures
        "textDocument/publishDiagnostics"@ != "workspace/applyEdit"@,
        "textDocument/publishDiagnostics"@ != "workspace/configuration"@,
        "textDocument/publishDiagnostics"@ != "window/showMessageRequest"@,
        "textDocument/publishDiagnostics"@ != "window/logMessage"@,
        "textDocument/publishDiagnostics"@ != "$/progress"@,
        "textDocument/publishDiagnostics"@ != "window/workDoneProgress/create"@,
        "workspace/applyEdit"@ != "workspace/configuration"@,
        "workspace/applyEdit"@ != "window/showMessageRequest"@,
        "workspace/applyEdit"@ != "window/logMessage"@,
        "workspace/applyEdit"@ != "$/progress"@,
        "workspace/applyEdit"@ != "window/workDoneProgress/create"@,
        "workspace/configuration"@ != "window/showMessageRequest"@,
        "workspace/configuration"@ != "window/logMessage"@,
        "workspace/configuration"@ != "$/progress"@,
        "workspace/configuration"@ != "window/workDoneProgress/create"@,
        "window/showMessageRequest"@ != "window/logMessage"@,
        "window/showMessageRequest"@ != "$/progress"@,
        "window/showMessageRequest"@ != "window/workDoneProgress/create"@,
        "window/logMessage"@ != "$/progress"@,
        "window/logMessage"@ != "window/workDoneProgress/create"@,
        "$/progress"@ != "window/workDoneProgress/create"@,
{
    reveal_strlit("textDocument/publishDiagnostics");
    reveal_strlit("workspace/applyEdit");
    reveal_strlit("workspace/configuration");
    reveal_strlit("window/showMessageRequest");
    reveal_strlit("window/logMessage");
    reveal_strlit("$/progress");
    reveal_strlit("window/workDoneProgress/create");
    assert("textDocument/publishDiagnostics"@.len() == 31);
    assert("workspace/applyEdit"@.len() == 19);
    assert("workspace/configuration"@.len() == 23);
    assert("window/showMessageRequest"@.len() == 25);
    assert("window/logMessage"@.len() == 17);
    assert("$/progress"@.len() == 10);
    assert("window/workDoneProgress/create"@.len() == 30);
}

/// Whether a step tells the editor one thing and does nothing else.
pub open spec fn only_tells(
    session: Session,
    step: Step,
    notification: LspNotification<JsonSpec, Seq<char>>,
) -> bool {
    &&& step.0 == session
    &&& step.1.result is Ok
    &&& step.1.actions == seq![SessionAction::<JsonSpec, Seq<char>>::Notify(notification)]
}

/// What a server says of its own accord reaches the editor as what it is: diagnostics as
/// diagnostics of that server, an edit as an edit that is to be answered under the name of the
/// request, a message for the log or for the user as such a message, and a report of progress
/// under the name of the work.
pub proof fn law_server_messages_reach_the_editor(
    session: Session,
    message: RpcRequest<JsonSpec, Seq<char>>,
    raw: JsonSpec,
    params: JsonSpec,
    value: JsonSpec,
)
    requires
        message.params == Some(params),
    ensures
        ({
            let step = server_step(session, message, raw);
            let content = by_name(params);
            let read = Ok::<JsonSpec, Seq<char>>(value);
            &&& message.method == "textDocument/publishDiagnostics"@
                && decoded_published_diagnostics(content) == read ==> only_tells(
                session,
                step,
                LspNotification::PublishDiagnostics {
                    server_id: session.server_id,
                    params: value,
                },
            )
            &&& message.method == "workspace/applyEdit"@ && decoded_apply_edit(content) == read
                && value.get("edit"@) is Some ==> only_tells(
                session,
                step,
                LspNotification::WorkspaceEdit {
                    edit: value.get("edit"@)->0,
                    respond: message.id,
                },
            )
            &&& message.method == "window/logMessage"@ && decoded_log_message(content) == read
                ==> only_tells(session, step, LspNotification::LogMessage(value))
            &&& message.method == "window/showMessageRequest"@ && decoded_show_message(content)
                == read ==> {
                &&& step.0 == session
                &&& step.1.result is Ok
                &&& step.1.actions.len() == 2
                &&& step.1.actions[0] == SessionAction::<JsonSpec, Seq<char>>::Notify(
                    LspNotification::ShowMessage(value),
                )
                &&& step.1.actions[1] is Send
                &&& is_reply(step.1.actions[1]->Send_0, name_json(message.id), JsonSpec::Null)
            }
            &&& message.method == "$/progress"@ && decoded_progress(content) == read
                && value.get("value"@) is Some ==> {
                &&& step.0 == session
                &&& step.1.result is Ok
                &&& step.1.actions.len() == 1
                &&& step.1.actions[0] is Notify
                &&& step.1.actions[0]->Notify_0 is Progress
                &&& Some(step.1.actions[0]->Notify_0->Progress_value) == value.get("value"@)
                &&& value.get("token"@) is Some && value.get("token"@)->0 is Text ==> value.get(
                    "token"@,
                ) == Some(JsonSpec::Text(step.1.actions[0]->Notify_0->token))
            }
        }),
{
    lemma_server_methods();
    law_messages_have_their_parts(
        message.method,
        JsonSpec::Null,
        0,
        name_json(message.id),
        JsonSpec::Null,
        0,
        message.method,
    );
}

/// How a request of a server is named in its answer: just as the server named it.
pub open spec fn name_json(id: Option<MessageId<Seq<char>>>) -> JsonSpec {
    match id {
        Some(MessageId::Number(number)) => JsonSpec::Unsigned(number),
        Some(MessageId::Text(text)) => JsonSpec::Text(text),
        None => JsonSpec::Null,
    }
}

/// A server that begins to report progress is answered with `null`, and one that wants to register
/// a capability is refused, each under the name of its request. Messages of other methods are
/// passed over. Parameters that are missing or of the wrong shape are errors, and change nothing.
pub proof fn law_server_requests_are_answered(
    session: Session,
    message: RpcRequest<JsonSpec, Seq<char>>,
    raw: JsonSpec,
)
    ensures
        ({
            let step = server_step(session, message, raw);
            let method = message.method;
            &&& method == "window/workDoneProgress/create"@ ==> {
                &&& step.0 == session
                &&& step.1.result is Ok
                &&& step.1.actions.len() == 1
                &&& step.1.actions[0] is Send
                &&& is_reply(step.1.actions[0]->Send_0, name_json(message.id), JsonSpec::Null)
            }
            &&& method == "client/registerCapability"@ ==> {
                &&& step.0 == session
                &&& step.1.result is Ok
                &&& step.1.actions.len() == 1
                &&& step.1.actions[0] is Send
                &&& is_refusal(
                    step.1.actions[0]->Send_0,
                    name_json(message.id),
                    -32601,
                    "Dynamic capability registration is not supported"@,
                )
            }
            &&& method != "textDocument/publishDiagnostics"@ && method != "workspace/applyEdit"@
                && method != "workspace/configuration"@ && method != "window/showMessageRequest"@
                && method != "window/logMessage"@ && method != "$/progress"@ && method
                != "window/workDoneProgress/create"@ && method != "client/registerCapability"@
                ==> does_nothing(session, step)
            &&& (method == "textDocument/publishDiagnostics"@ || method == "workspace/applyEdit"@
                || method == "workspace/configuration"@ || method == "window/showMessageRequest"@
                || method == "window/logMessage"@ || method == "$/progress"@)
                && message.params is None ==> step.0 == session && step.1.actions.len() == 0
                && step.1.result is Err
        }),
{
    lemma_server_methods();
    reveal_strlit("textDocument/publishDiagnostics");
    reveal_strlit("workspace/applyEdit");
    reveal_strlit("workspace/configuration");
    reveal_strlit("window/showMessageRequest");
    reveal_strlit("window/logMessage");
    reveal_strlit("$/progress");
    reveal_strlit("window/workDoneProgress/create");
    reveal_strlit("client/registerCapability");
    assert("client/registerCapability"@.len() == 25);
    assert("client/registerCapability"@[0] == 'c' && "window/showMessageRequest"@[0] == 'w');
    assert("textDocument/publishDiagnostics"@.len() == 31);
    assert("workspace/applyEdit"@.len() == 19);
    assert("workspace/configuration"@.len() == 23);
    assert("window/logMessage"@.len() == 17);
    assert("$/progress"@.len() == 10);
    assert("window/workDoneProgress/create"@.len() == 30);
    law_messages_have_their_parts(
        message.method,
        JsonSpec::Null,
        0,
        name_json(message.id),
        JsonSpec::Null,
        METHOD_NOT_FOUND,
        "Dynamic capability registration is not supported"@,
    );
}

/// A message that names a method is taken for one that the server sends of its own accord, one that
/// names none for an answer, and one that has an error for the report of that error.
pub proof fn law_messages_are_told_apart(session: Session, message: JsonSpec)
    requires
        message.get("error"@) is None,
        message.get("method"@) is Some,
    ensures
        match rpc_request(by_name(message)) {
            Ok(request) => reply_step(session, message) == server_step(session, request, message),
            Err(fault) => reply_step(session, message).0 == session && reply_step(
                session,
                message,
            ).1.actions.len() == 0 && reply_step(session, message).1.result == Err::<
                (),
                SessionError<Seq<char>>,
            >(SessionError::NotRequest(fault)),
        },
{
}

/// What the editor made of an edit that the server asked for is told to the server, under the name
/// of its request: that it was applied, or that it was not and why.
pub proof fn law_edits_are_reported(
    session: Session,
    id: MessageId<Seq<char>>,
    failed: Option<Seq<char>>,
)
    ensures
        ({
            let step = edit_step(session, id, failed);
            let message = step.1.actions[0]->Send_0;
            let result = message.get("result"@);
            &&& step.0 == session
            &&& step.1.result is Ok
            &&& step.1.actions.len() == 1
            &&& step.1.actions[0] is Send
            &&& is_reply(message, name_json(Some(id)), result->0)
            &&& found(result, "applied"@) == Some(JsonSpec::Bool(failed is None))
            &&& failed is Some ==> found(result, "failureReason"@) == Some(
                JsonSpec::Text(failed->0),
            )
        }),
{
    let text = match failed {
        Some(reason) => reason,
        None => Seq::empty(),
    };
    let message = edit_step(session, id, failed).1.actions[0]->Send_0;
    law_messages_have_their_parts(
        text,
        JsonSpec::Null,
        0,
        name_json(Some(id)),
        match failed {
            Some(reason) => edit_failed(reason),
            None => edit_applied(),
        },
        0,
        text,
    );
}

/// A message of the editor is handed to the session at once, but for an item that is to be
/// completed, which is held back and handed to the session when it comes back. A message of the
/// server is taken as one, and shutting down ends the session.
pub proof fn law_messages_reach_the_session(session: Session, message: LspServerProcessMessage)
    ensures
        match message {
            LspServerProcessMessage::FromLspServer(json) => message_step(session, message).0
                == reply_step(session, json@),
            LspServerProcessMessage::FromEditor(FromEditor::CompletionItemResolve { .. }) =>
                does_nothing(session, message_step(session, message).0),
            LspServerProcessMessage::FromEditor(editor) => message_step(session, message).0
                == editor_step(session, editor),
            LspServerProcessMessage::Throttled(editor) => message_step(session, message).0
                == editor_step(session, editor),
            LspServerProcessMessage::Shutdown => message_step(session, message).0 == shutdown_step(
                session,
            ),
            LspServerProcessMessage::Exit => does_nothing(
                session,
                message_step(session, message).0,
            ),
            _ => true,
        },
{
}

/// Whether `range` has the same places as `other`.
pub open spec fn same_places(range: Option<JsonSpec>, other: Option<JsonSpec>) -> bool {
    &&& range is Some <==> other is Some
    &&& found(found(range, "start"@), "line"@) == found(found(other, "start"@), "line"@)
    &&& found(found(range, "start"@), "character"@) == found(
        found(other, "start"@),
        "character"@,
    )
    &&& found(found(range, "end"@), "line"@) == found(found(other, "end"@), "line"@)
    &&& found(found(range, "end"@), "character"@) == found(found(other, "end"@), "character"@)
}

proof fn lemma_ordered_position(position: JsonSpec)
    ensures
        ordered_position(position).get("line"@) == position.get("line"@),
        ordered_position(position).get("character"@) == position.get("character"@),
{
    broadcast use law_members_are_found;

    reveal_strlit("line");
    reveal_strlit("character");
    assert("line"@.len() == 4 && "character"@.len() == 9);
    assert(JsonSpec::object().get("line"@) is None);
    assert(JsonSpec::object().get("character"@) is None);
}

proof fn lemma_ordered_range(range: JsonSpec)
    ensures
        same_places(Some(ordered_range(range)), Some(range)),
{
    broadcast use law_members_are_found;

    reveal_strlit("start");
    reveal_strlit("end");
    assert("start"@.len() == 5 && "end"@.len() == 3);
    assert(JsonSpec::object().get("start"@) is None);
    assert(JsonSpec::object().get("end"@) is None);
    if let Some(start) = range.get("start"@) {
        lemma_ordered_position(start);
    }
    if let Some(end) = range.get("end"@) {
        lemma_ordered_position(end);
    }
}

/// An item of a call hierarchy goes back to the server as it came: with the same name, kind, tags,
/// details, URI and data, and the same places.
pub proof fn law_call_items_go_back_as_they_came(item: JsonSpec)
    ensures
        ({
            let sent = ordered_call_item(item);
            &&& sent.get("name"@) == item.get("name"@)
            &&& sent.get("kind"@) == item.get("kind"@)
            &&& sent.get("tags"@) == item.get("tags"@)
            &&& sent.get("detail"@) == item.get("detail"@)
            &&& sent.get("uri"@) == item.get("uri"@)
            &&& sent.get("data"@) == item.get("data"@)
            &&& same_places(sent.get("range"@), item.get("range"@))
            &&& same_places(sent.get("selectionRange"@), item.get("selectionRange"@))
        }),
{
    reveal_strlit("name");
    reveal_strlit("kind");
    reveal_strlit("tags");
    reveal_strlit("detail");
    reveal_strlit("uri");
    reveal_strlit("range");
    reveal_strlit("selectionRange");
    reveal_strlit("data");
    assert("name"@[0] == 'n' && "kind"@[0] == 'k' && "tags"@[0] == 't' && "detail"@[1] == 'e'
        && "uri"@[0] == 'u' && "range"@[0] == 'r' && "selectionRange"@[0] == 's' && "data"@[1]
        == 'a' && "detail"@[0] == 'd' && "data"@[0] == 'd');
    if let Some(range) = item.get("range"@) {
        lemma_ordered_range(range);
    }
    if let Some(range) = item.get("selectionRange"@) {
        lemma_ordered_range(range);
    }
    let empty = JsonSpec::object();
    let range = match item.get("range"@) {
        Some(range) => Some(ordered_range(range)),
        None => None,
    };
    let selection = match item.get("selectionRange"@) {
        Some(range) => Some(ordered_range(range)),
        None => None,
    };
    let a = empty.with_some("name"@, item.get("name"@));
    let b = a.with_some("kind"@, item.get("kind"@));
    let c = b.with_some("tags"@, item.get("tags"@));
    let d = c.with_some("detail"@, item.get("detail"@));
    let e = d.with_some("uri"@, item.get("uri"@));
    let f = e.with_some("range"@, range);
    let g = f.with_some("selectionRange"@, selection);
    assert forall|other: Seq<char>| #[trigger] empty.get(other) is None by {}
    lemma_with_some(empty, "name"@, item.get("name"@));
    lemma_with_some(a, "kind"@, item.get("kind"@));
    lemma_with_some(b, "tags"@, item.get("tags"@));
    lemma_with_some(c, "detail"@, item.get("detail"@));
    lemma_with_some(d, "uri"@, item.get("uri"@));
    lemma_with_some(e, "range"@, range);
    lemma_with_some(f, "selectionRange"@, selection);
    lemma_with_some(g, "data"@, item.get("data"@));
}

proof fn lemma_with_some(object: JsonSpec, name: Seq<char>, value: Option<JsonSpec>)
    requires
        object is Object,
    ensures
        object.with_some(name, value) is Object,
        forall|other: Seq<char>| #[trigger]
            object.with_some(name, value).get(other) == if other == name && value is Some {
                value
            } else {
                object.get(other)
            },
{
    broadcast use law_members_are_found;

    if let Some(value) = value {
        assert forall|other: Seq<char>| #[trigger]
            object.with_some(name, Some(value)).get(other) == if other == name {
                Some(value)
            } else {
                object.get(other)
            } by {
            assert(object.with(name, value).get(other) == object.with_some(
                name,
                Some(value),
            ).get(other));
        }
    }
}

/// When it is known what a call hierarchy starts from, the calls are asked for that the editor
/// wanted to see: those that come from the first item, or those that lead to it. Without an item
/// nothing is asked.
pub proof fn law_call_hierarchies_go_on(
    session: Session,
    message: JsonSpec,
    id: u64,
    result: JsonSpec,
    items: Seq<JsonSpec>,
)
    requires
        answers_with(session, message, id, result),
        session.pending[id].method is PrepareCallHierarchy,
        decoded_call_items(by_name(result)) == Ok::<JsonSpec, Seq<char>>(JsonSpec::Array(items)),
        session.next_request_id < u64::MAX,
    ensures
        ({
            let step = reply_step(session, message);
            let wanted = Session {
                pending: session.pending.remove(id),
                directions: session.directions.remove(id),
                ..session
            };
            let outgoing = session.directions.dom().contains(id) && session.directions[id]
                == CallHierarchyDirection::Outgoing;
            let item = params_of(step).get("item"@);
            if items.len() == 0 {
                &&& step.0 == (Session { pending: session.pending.remove(id), ..session })
                &&& step.1.actions.len() == 0
                &&& step.1.result is Ok
            } else {
                &&& step.0.directions == session.directions.remove(id)
                &&& outgoing ==> asks(
                    wanted,
                    step,
                    RequestMethod::OutgoingCalls,
                    "callHierarchy/outgoingCalls"@,
                    session.pending[id].context,
                    None,
                )
                &&& !outgoing ==> asks(
                    wanted,
                    step,
                    RequestMethod::IncomingCalls,
                    "callHierarchy/incomingCalls"@,
                    session.pending[id].context,
                    None,
                )
                &&& found(item, "name"@) == items[0].get("name"@)
                &&& found(item, "uri"@) == items[0].get("uri"@)
                &&& found(item, "data"@) == items[0].get("data"@)
                &&& same_places(found(item, "range"@), items[0].get("range"@))
                &&& same_places(found(item, "selectionRange"@), items[0].get("selectionRange"@))
            }
        }),
{
    if items.len() > 0 {
        let params = item_params(ordered_call_item(items[0]));
        law_call_items_go_back_as_they_came(items[0]);
        law_parameters_have_what_they_are_made_of(
            Seq::empty(),
            Seq::empty(),
            Seq::empty(),
            JsonSpec::Null,
            ordered_call_item(items[0]),
            Seq::empty(),
        );
        law_messages_have_their_parts(
            "callHierarchy/outgoingCalls"@,
            params,
            session.next_request_id,
            JsonSpec::Null,
            JsonSpec::Null,
            0,
            Seq::empty(),
        );
        law_messages_have_their_parts(
            "callHierarchy/incomingCalls"@,
            params,
            session.next_request_id,
            JsonSpec::Null,
            JsonSpec::Null,
            0,
            Seq::empty(),
        );
    }
}

/// The session begins with a request that names the root of the workspace, alone and as the one
/// folder of the workspace, and that has the options that are configured, with their placeholders
/// filled in, where there are any.
pub proof fn law_initialize_names_the_workspace(session: Session)
    requires
        session.next_request_id < u64::MAX,
    ensures
        ({
            let step = initialize_step(session);
            let params = params_of(step);
            let folders = params.get("workspaceFolders"@);
            &&& asks(
                session,
                step,
                RequestMethod::Initialize,
                "initialize"@,
                ResponseContext { scope: None, description: None },
                None,
            )
            &&& params.get("rootUri"@) == Some(JsonSpec::Text(file_uri(session.root)))
            &&& folders is Some && folders->0 is Array && folders->0->Array_0.len() == 1
            &&& folders->0->Array_0[0].get("uri"@) == Some(JsonSpec::Text(file_uri(session.root)))
            &&& session.options is None ==> params.get("initializationOptions"@) is None
            &&& session.options is Some ==> params.get("initializationOptions"@) == Some(
                option_value(session.options->0, session.root, session.plugin),
            )
        }),
{
    broadcast use law_members_are_found;

    reveal_strlit("processId");
    reveal_strlit("rootUri");
    reveal_strlit("initializationOptions");
    reveal_strlit("capabilities");
    reveal_strlit("workspaceFolders");
    reveal_strlit("uri");
    reveal_strlit("name");
    assert("processId"@.len() == 9 && "rootUri"@.len() == 7 && "initializationOptions"@.len() == 21
        && "capabilities"@.len() == 12 && "workspaceFolders"@.len() == 16 && "uri"@.len() == 3
        && "name"@.len() == 4);
    let options = match session.options {
        Some(options) => Some(option_value(options, session.root, session.plugin)),
        None => None,
    };
    let start = JsonSpec::object().with("processId"@, JsonSpec::Null).with(
        "rootUri"@,
        JsonSpec::Text(file_uri(session.root)),
    );
    lemma_with_some(start, "initializationOptions"@, options);
    assert(start.get("rootUri"@) == Some(JsonSpec::Text(file_uri(session.root))));
    assert(start.get("initializationOptions"@) is None) by {
        assert(JsonSpec::object().get("initializationOptions"@) is None);
    }
    let params = initialize_params(file_uri(session.root), options);
    law_messages_have_their_parts(
        "initialize"@,
        params,
        session.next_request_id,
        JsonSpec::Null,
        JsonSpec::Null,
        0,
        Seq::empty(),
    );
}

/// A request for configuration is answered under the name of the request, with the configuration of
/// each section that it asks for.
pub proof fn law_configuration_is_answered(
    session: Session,
    message: RpcRequest<JsonSpec, Seq<char>>,
    raw: JsonSpec,
    params: JsonSpec,
    value: JsonSpec,
)
    requires
        message.method == "workspace/configuration"@,
        message.params == Some(params),
        decoded_configuration(by_name(params)) == Ok::<JsonSpec, Seq<char>>(value),
    ensures
        ({
            let step = server_step(session, message, raw);
            &&& step.0 == session
            &&& step.1.result is Ok
            &&& step.1.actions.len() == 1
            &&& step.1.actions[0] is Send
            &&& is_reply(
                step.1.actions[0]->Send_0,
                name_json(message.id),
                configuration_response(value, session.root, session.options, session.plugin),
            )
        }),
{
    lemma_server_methods();
    law_messages_have_their_parts(
        message.method,
        JsonSpec::Null,
        0,
        name_json(message.id),
        configuration_response(value, session.root, session.options, session.plugin),
        0,
        message.method,
    );
}

/// The answer to `initialize` begins the session: what the server can do is what the answer has
/// under `capabilities`, the server is told that the session has begun, and the editor which
/// server it is and for which workspace.
pub proof fn law_the_server_is_known_from_its_answer(
    session: Session,
    message: JsonSpec,
    id: u64,
    result: JsonSpec,
    value: JsonSpec,
)
    requires
        answers_with(session, message, id, result),
        session.pending[id].method is Initialize,
        decoded_initialize(by_name(result)) == Ok::<JsonSpec, Seq<char>>(value),
        value.get("capabilities"@) is Some,
    ensures
        ({
            let step = reply_step(session, message);
            &&& step.0 == (Session {
                pending: session.pending.remove(id),
                capabilities: Some(capabilities_of(value.get("capabilities"@)->0)),
                is_initialized: true,
                ..session
            })
            &&& step.1.result is Ok
            &&& step.1.actions.len() == 2
            &&& step.1.actions[0] is Send
            &&& is_notification(
                step.1.actions[0]->Send_0,
                "initialized"@,
                step.1.actions[0]->Send_0.get("params"@)->0,
            )
            &&& step.1.actions[1] == SessionAction::<JsonSpec, Seq<char>>::Notify(
                LspNotification::Initialized { server_id: session.server_id, root: session.root },
            )
        }),
{
    law_messages_have_their_parts(
        "initialized"@,
        JsonSpec::object(),
        0,
        JsonSpec::Null,
        JsonSpec::Null,
        0,
        Seq::empty(),
    );
}

/// An error that a server reports is told with the method of the request that it is about, where
/// that request waits, and with what the server says.
pub proof fn law_reported_errors_name_the_request(
    session: Session,
    message: JsonSpec,
    error: JsonSpec,
    id: u64,
    text: Seq<char>,
)
    requires
        message.get("error"@) == Some(error),
        message.get("id"@) == Some(JsonSpec::Unsigned(id)),
        session.pending.dom().contains(id),
        error.get("message"@) == Some(JsonSpec::Text(text)),
    ensures
        reply_step(session, message).1.result is Err,
        reply_step(session, message).1.result->Err_0 is ErrorField,
        reply_step(session, message).1.result->Err_0->ErrorField_method
            == session.pending[id].method.spec_name(),
        reply_step(session, message).1.result->Err_0->ErrorField_message == text,
{
}

/// A session of which the server could not be told has not begun. Any other notification that could
/// not be written changes nothing.
pub proof fn law_unwritten_notifications(session: Session, method: Seq<char>, params: JsonSpec)
    ensures
        unwritten_step(session, notification("initialized"@, params)) == (Session {
            is_initialized: false,
            ..session
        }),
        method != "initialized"@ ==> unwritten_step(session, notification(method, params))
            == session,
{
    law_messages_have_their_parts(
        "initialized"@,
        params,
        0,
        JsonSpec::Null,
        JsonSpec::Null,
        0,
        Seq::empty(),
    );
    law_messages_have_their_parts(
        method,
        params,
        0,
        JsonSpec::Null,
        JsonSpec::Null,
        0,
        Seq::empty(),
    );
}

/// Work that a server reports on is named by the text or by the number that the server names it by.
pub proof fn law_work_is_named_as_the_server_names_it(params: JsonSpec, text: Seq<char>, n: u64)
    ensures
        params.get("token"@) == Some(JsonSpec::Text(text)) ==> progress_token(params) == text,
        params.get("token"@) == Some(JsonSpec::Unsigned(n)) ==> progress_token(params) == decimal(
            n as nat,
        ),
{
}

/// What the editor made of an edit reaches the session: whether it was applied, and else why not.
pub proof fn law_applied_edits_reach_the_session(
    session: Session,
    id: MessageId<String>,
    failed: Option<String>,
)
    ensures
        failed is None ==> message_step(
            session,
            LspServerProcessMessage::WorkspaceEditApplied { id, failed },
        ).0 == edit_step(session, id_view(Some(id))->0, None),
        failed is Some ==> message_step(
            session,
            LspServerProcessMessage::WorkspaceEditApplied { id, failed },
        ).0 == edit_step(session, id_view(Some(id))->0, Some(failed->0@)),
{
}

} // verus!
