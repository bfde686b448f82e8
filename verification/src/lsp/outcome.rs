//! What the steps of a session come to, as values that can be acted upon.

use crate::decimal::{decimal, print_number};
use crate::json::{Json, JsonSpec};
use crate::lsp::decode::id_view;
use crate::lsp::positions::PositionError;
use crate::lsp::protocol::{LspNotification, MessageId, ResponseContext, SessionAction};
use crate::lsp::session::{
    after, failure, nothing, one, sent, told, two, ActionSpec, ErrorSpec, OutcomeSpec, SessionError,
};
use vstd::prelude::*;

verus! {

/// The meaning of what the editor learns.
pub open spec fn notification_view(notification: LspNotification<Json, String>) -> LspNotification<
    JsonSpec,
    Seq<char>,
> {
    match notification {
        LspNotification::Initialized { server_id, root } => LspNotification::Initialized {
            server_id: server_id@,
            root: root@,
        },
        LspNotification::PublishDiagnostics { server_id, params } =>
            LspNotification::PublishDiagnostics { server_id: server_id@, params: params@ },
        LspNotification::Completion { context, trigger_characters, items } =>
            LspNotification::Completion {
            context,
            trigger_characters: trigger_characters@,
            items: items@,
        },
        LspNotification::Hover(value) => LspNotification::Hover(value@),
        LspNotification::Definition(context, value) => LspNotification::Definition(context, value@),
        LspNotification::References(context, value) => LspNotification::References(context, value@),
        LspNotification::PrepareRenameResponse(value) => LspNotification::PrepareRenameResponse(
            value@,
        ),
        LspNotification::Error(text) => LspNotification::Error(text@),
        LspNotification::WorkspaceEdit { edit, respond } => LspNotification::WorkspaceEdit {
            edit: edit@,
            respond: id_view(respond),
        },
        LspNotification::CodeAction(value) => LspNotification::CodeAction(value@),
        LspNotification::CodeActionResolve(value) => LspNotification::CodeActionResolve(value@),
        LspNotification::SignatureHelp(value) => LspNotification::SignatureHelp(
            match value {
                Some(value) => Some(value@),
                None => None,
            },
        ),
        LspNotification::DocumentSymbols { symbols, path } => LspNotification::DocumentSymbols {
            symbols: symbols@,
            path: path@,
        },
        LspNotification::WorkspaceSymbols { symbols, root } => LspNotification::WorkspaceSymbols {
            symbols: symbols@,
            root: root@,
        },
        LspNotification::CompletionItemResolve(value) => LspNotification::CompletionItemResolve(
            value@,
        ),
        LspNotification::ShowMessage(value) => LspNotification::ShowMessage(value@),
        LspNotification::LogMessage(value) => LspNotification::LogMessage(value@),
        LspNotification::Progress { token, value } => LspNotification::Progress {
            token: token@,
            value: value@,
        },
        LspNotification::CallHierarchyIncomingCalls(context, value) =>
            LspNotification::CallHierarchyIncomingCalls(context, value@),
        LspNotification::CallHierarchyOutgoingCalls(context, value) =>
            LspNotification::CallHierarchyOutgoingCalls(context, value@),
    }
}

/// The meaning of an action.
pub open spec fn action_view(action: SessionAction<Json, String>) -> ActionSpec {
    match action {
        SessionAction::Send(message) => SessionAction::Send(message@),
        SessionAction::Notify(notification) => SessionAction::Notify(
            notification_view(notification),
        ),
        SessionAction::Exit => SessionAction::Exit,
    }
}

/// The meaning of an error.
pub open spec fn error_view(error: SessionError<String>) -> ErrorSpec {
    match error {
        SessionError::NotOpen(path) => SessionError::NotOpen(path@),
        SessionError::NoEnd(error) => SessionError::NoEnd(error),
        SessionError::ErrorField { method, message, hint } => SessionError::ErrorField {
            method: method@,
            message: message@,
            hint: match hint {
                Some(hint) => Some(hint@),
                None => None,
            },
        },
        SessionError::MissingId(reply) => SessionError::MissingId(reply@),
        SessionError::IdNotNumber(id) => SessionError::IdNotNumber(id@),
        SessionError::UnknownRequest(id) => SessionError::UnknownRequest(id),
        SessionError::NotResponse(fault) => SessionError::NotResponse(fault@),
        SessionError::Rpc { code, message } => SessionError::Rpc { code: code@, message: message@ },
        SessionError::WrongResult(fault) => SessionError::WrongResult(fault@),
        SessionError::NotRequest(fault) => SessionError::NotRequest(fault@),
        SessionError::MissingParams => SessionError::MissingParams,
        SessionError::MissingEdit(request) => SessionError::MissingEdit(request@),
        SessionError::WrongParams(fault) => SessionError::WrongParams(fault@),
        SessionError::NotConverted(fault) => SessionError::NotConverted(fault@),
    }
}

/// What a step of a session comes to.
pub struct Outcome {
    /// What is to be done, in this order.
    pub actions: Vec<SessionAction<Json, String>>,
    pub result: Result<(), SessionError<String>>,
}

impl View for Outcome {
    type V = OutcomeSpec;

    open spec fn view(&self) -> OutcomeSpec {
        OutcomeSpec {
            actions: self.actions@.map_values(
                |action: SessionAction<Json, String>| action_view(action),
            ),
            result: match self.result {
                Ok(_) => Ok(()),
                Err(error) => Err(error_view(error)),
            },
        }
    }
}

impl Outcome {
    /// A step that comes to nothing.
    pub fn nothing() -> (outcome: Outcome)
        ensures
            outcome@ == nothing(),
    {
        let outcome = Outcome { actions: Vec::new(), result: Ok(()) };
        assert(outcome@ =~= nothing());
        outcome
    }

    /// A step that comes to one action.
    pub fn one(action: SessionAction<Json, String>) -> (outcome: Outcome)
        ensures
            outcome@ == one(action_view(action)),
    {
        let mut actions: Vec<SessionAction<Json, String>> = Vec::new();
        actions.push(action);
        let outcome = Outcome { actions, result: Ok(()) };
        assert(outcome@ =~= one(action_view(action)));
        outcome
    }

    /// A step that comes to two actions.
    pub fn two(first: SessionAction<Json, String>, second: SessionAction<Json, String>) -> (outcome:
        Outcome)
        ensures
            outcome@ == two(action_view(first), action_view(second)),
    {
        let mut actions: Vec<SessionAction<Json, String>> = Vec::new();
        actions.push(first);
        actions.push(second);
        let outcome = Outcome { actions, result: Ok(()) };
        assert(outcome@ =~= two(action_view(first), action_view(second)));
        outcome
    }

    /// A step that fails.
    pub fn failure(error: SessionError<String>) -> (outcome: Outcome)
        ensures
            outcome@ == failure(error_view(error)),
    {
        let outcome = Outcome { actions: Vec::new(), result: Err(error) };
        assert(outcome@ =~= failure(error_view(error)));
        outcome
    }

    /// A step that tells the editor something.
    pub fn told(notification: LspNotification<Json, String>) -> (outcome: Outcome)
        ensures
            outcome@ == told(notification_view(notification)),
    {
        Outcome::one(SessionAction::Notify(notification))
    }

    /// A step that sends a message to the server.
    pub fn sent(message: Json) -> (outcome: Outcome)
        ensures
            outcome@ == sent(message@),
    {
        Outcome::one(SessionAction::Send(message))
    }

    /// The same step, with an action before it.
    pub fn preceded(self, action: SessionAction<Json, String>) -> (outcome: Outcome)
        ensures
            outcome@ == after(action_view(action), self@),
    {
        let ghost before = self@;
        let Outcome { actions, result } = self;
        let mut actions = actions;
        actions.insert(0, action);
        let outcome = Outcome { actions, result };
        assert(outcome@ =~= after(action_view(action), before));
        outcome
    }

    /// The same step, with an action after it.
    pub fn followed(self, action: SessionAction<Json, String>) -> (outcome: Outcome)
        ensures
            outcome@ == (OutcomeSpec {
                actions: self@.actions.push(action_view(action)),
                result: self@.result,
            }),
    {
        let ghost before = self@;
        let Outcome { actions, result } = self;
        let mut actions = actions;
        actions.push(action);
        let outcome = Outcome { actions, result };
        assert(outcome@.actions =~= before.actions.push(action_view(action)));
        outcome
    }
}

/// What an error says.
pub open spec fn error_text(error: ErrorSpec) -> Seq<char> {
    match error {
        SessionError::NotOpen(path) => "Received textDocument/didChange before textDocument/didOpen: "@
            + path,
        SessionError::NoEnd(PositionError::UnknownEncoding) =>
            "The server counts characters in unknown units"@,
        SessionError::NoEnd(PositionError::TooLarge) => "The document is too large"@,
        SessionError::ErrorField { .. } => "Reply contains field `error`."@,
        SessionError::MissingId(reply) => "Unable to obtain ID from reply: "@ + reply,
        SessionError::IdNotNumber(id) => "Unable to convert "@ + id + " to u64"@,
        SessionError::UnknownRequest(id) =>
            "Unable to get pending response requests for request ID "@ + decimal(id as nat),
        SessionError::NotResponse(fault) => "Serde error = "@ + fault,
        SessionError::Rpc { code, message } => "LSP JSON-RPC Error: Code="@ + code + " Message="@
            + message,
        SessionError::WrongResult(fault) => fault,
        SessionError::NotRequest(fault) => "Serde error = "@ + fault,
        SessionError::MissingParams => "Missing params"@,
        SessionError::MissingEdit(request) => "Unable to obtain request.params from request "@
            + request,
        SessionError::WrongParams(fault) => fault,
        SessionError::NotConverted(fault) => fault,
    }
}

/// What else is reported of an error: what the server says went wrong.
pub open spec fn error_report(error: ErrorSpec) -> Option<Seq<char>> {
    match error {
        SessionError::ErrorField { method, message, hint } => Some(
            "LSP request "@ + method + " failed: "@ + message + match hint {
                Some(hint) => "\nHint: "@ + hint,
                None => ""@,
            },
        ),
        _ => None,
    }
}

impl SessionError<String> {
    /// What the error says.
    pub fn message(&self) -> (message: String)
        ensures
            message@ == error_text(error_view(*self)),
    {
        match self {
            SessionError::NotOpen(path) => {
                let mut text =
                    "Received textDocument/didChange before textDocument/didOpen: ".to_owned();
                text.append(path.as_str());
                text
            },
            SessionError::NoEnd(PositionError::UnknownEncoding) =>
                "The server counts characters in unknown units".to_owned(),
            SessionError::NoEnd(PositionError::TooLarge) => "The document is too large".to_owned(),
            SessionError::ErrorField { .. } => "Reply contains field `error`.".to_owned(),
            SessionError::MissingId(reply) => {
                let mut text = "Unable to obtain ID from reply: ".to_owned();
                text.append(reply.as_str());
                text
            },
            SessionError::IdNotNumber(id) => {
                let mut text = "Unable to convert ".to_owned();
                text.append(id.as_str());
                text.append(" to u64");
                text
            },
            SessionError::UnknownRequest(id) => {
                let mut text =
                    "Unable to get pending response requests for request ID ".to_owned();
                let number = print_number(*id);
                text.append(number.as_str());
                text
            },
            SessionError::NotResponse(fault) => {
                let mut text = "Serde error = ".to_owned();
                text.append(fault.as_str());
                text
            },
            SessionError::Rpc { code, message } => {
                let mut text = "LSP JSON-RPC Error: Code=".to_owned();
                text.append(code.as_str());
                text.append(" Message=");
                text.append(message.as_str());
                text
            },
            SessionError::WrongResult(fault) => fault.clone(),
            SessionError::NotRequest(fault) => {
                let mut text = "Serde error = ".to_owned();
                text.append(fault.as_str());
                text
            },
            SessionError::MissingParams => "Missing params".to_owned(),
            SessionError::MissingEdit(request) => {
                let mut text = "Unable to obtain request.params from request ".to_owned();
                text.append(request.as_str());
                text
            },
            SessionError::WrongParams(fault) => fault.clone(),
            SessionError::NotConverted(fault) => fault.clone(),
        }
    }

    /// What else is reported of the error. See [`error_report`].
    pub fn report(&self) -> (report: Option<String>)
        ensures
            match report {
                Some(report) => error_report(error_view(*self)) == Some(report@),
                None => error_report(error_view(*self)) is None,
            },
    {
        match self {
            SessionError::ErrorField { method, message, hint } => {
                let mut text = "LSP request ".to_owned();
                text.append(method.as_str());
                text.append(" failed: ");
                text.append(message.as_str());
                if let Some(hint) = hint {
                    let ghost before = text@;
                    text.append("\nHint: ");
                    text.append(hint.as_str());
                    assert(text@ =~= before + ("\nHint: "@ + hint@));
                } else {
                    proof {
                        reveal_strlit("");
                    }
                    assert(text@ =~= text@ + ""@);
                }
                Some(text)
            },
            _ => None,
        }
    }
}

/// What a step comes to means what it holds: nothing of a message, of what the editor is told or
/// of an error is lost or exchanged.
pub proof fn law_outcomes_mean_what_they_hold(
    outcome: Outcome,
    message: Json,
    text: String,
    edit: Json,
    respond: Option<MessageId<String>>,
)
    ensures
        outcome@.actions.len() == outcome.actions@.len(),
        outcome@.result is Ok <==> outcome.result is Ok,
        forall|i: int|
            0 <= i < outcome.actions@.len() ==> #[trigger] outcome@.actions[i] == action_view(
                outcome.actions@[i],
            ),
        action_view(SessionAction::Send(message)) == SessionAction::<JsonSpec, Seq<char>>::Send(
            message@,
        ),
        action_view(SessionAction::Exit) is Exit,
        notification_view(LspNotification::WorkspaceEdit { edit, respond }) == (LspNotification::<
            JsonSpec,
            Seq<char>,
        >::WorkspaceEdit { edit: edit@, respond: id_view(respond) }),
        notification_view(
            LspNotification::PublishDiagnostics { server_id: text, params: message },
        ) == (LspNotification::<JsonSpec, Seq<char>>::PublishDiagnostics {
            server_id: text@,
            params: message@,
        }),
        notification_view(LspNotification::Progress { token: text, value: message }) == (
        LspNotification::<JsonSpec, Seq<char>>::Progress { token: text@, value: message@ }),
        notification_view(LspNotification::Initialized { server_id: text, root: text }) == (
        LspNotification::<JsonSpec, Seq<char>>::Initialized { server_id: text@, root: text@ }),
        notification_view(LspNotification::DocumentSymbols { symbols: message, path: text }) == (
        LspNotification::<JsonSpec, Seq<char>>::DocumentSymbols {
            symbols: message@,
            path: text@,
        }),
        notification_view(LspNotification::WorkspaceSymbols { symbols: message, root: text }) == (
        LspNotification::<JsonSpec, Seq<char>>::WorkspaceSymbols {
            symbols: message@,
            root: text@,
        }),
        notification_view(LspNotification::Hover(message)) == LspNotification::<
            JsonSpec,
            Seq<char>,
        >::Hover(message@),
        notification_view(LspNotification::CodeAction(message)) == LspNotification::<
            JsonSpec,
            Seq<char>,
        >::CodeAction(message@),
        notification_view(LspNotification::SignatureHelp(Some(message))) == LspNotification::<
            JsonSpec,
            Seq<char>,
        >::SignatureHelp(Some(message@)),
        notification_view(LspNotification::SignatureHelp(None)) == LspNotification::<
            JsonSpec,
            Seq<char>,
        >::SignatureHelp(None),
        notification_view(LspNotification::Error(text)) == LspNotification::<
            JsonSpec,
            Seq<char>,
        >::Error(text@),
        respond is None <==> id_view(respond) is None,
{
}

/// The context of a question comes back with its answer.
pub proof fn law_contexts_come_back(
    context: ResponseContext,
    value: Json,
    trigger_characters: Json,
)
    ensures
        notification_view(LspNotification::Definition(context, value)) == LspNotification::<
            JsonSpec,
            Seq<char>,
        >::Definition(context, value@),
        notification_view(LspNotification::References(context, value)) == LspNotification::<
            JsonSpec,
            Seq<char>,
        >::References(context, value@),
        notification_view(LspNotification::CallHierarchyIncomingCalls(context, value))
            == LspNotification::<JsonSpec, Seq<char>>::CallHierarchyIncomingCalls(context, value@),
        notification_view(LspNotification::CallHierarchyOutgoingCalls(context, value))
            == LspNotification::<JsonSpec, Seq<char>>::CallHierarchyOutgoingCalls(context, value@),
        notification_view(
            LspNotification::Completion { context, trigger_characters, items: value },
        ) == (LspNotification::<JsonSpec, Seq<char>>::Completion {
            context,
            trigger_characters: trigger_characters@,
            items: value@,
        }),
{
}

} // verus!
