//! Code actions: what a server offers to do to the code.

use crate::json::{copy_list, items_view, Json, JsonSpec};
use crate::lsp::capabilities::{find_present, present};
use crate::lsp::protocol::Command;
use crate::text::{chars_of, precedes, str_eq, text_precedes};
use vstd::prelude::*;

verus! {

/// Something that a server offers to do to the code.
pub struct CodeAction {
    pub title: String,
    pub kind: Option<String>,
    /// The edit that the action makes.
    pub edit: Option<Json>,
    /// The command that the action runs.
    pub command: Option<Command>,
    /// The action as the server sent it, where the server has to be asked for its edit.
    pub unresolved: Option<Json>,
}

/// The meaning of a command.
#[verifier::ext_equal]
pub struct CommandSpec {
    pub title: Seq<char>,
    pub command: Seq<char>,
    pub arguments: Option<Seq<JsonSpec>>,
}

impl View for Command {
    type V = CommandSpec;

    open spec fn view(&self) -> CommandSpec {
        CommandSpec {
            title: self.title@,
            command: self.command@,
            arguments: match self.arguments {
                Some(arguments) => Some(items_view(arguments@)),
                None => None,
            },
        }
    }
}

/// The meaning of a code action.
#[verifier::ext_equal]
pub struct CodeActionSpec {
    pub title: Seq<char>,
    pub kind: Option<Seq<char>>,
    pub edit: Option<JsonSpec>,
    pub command: Option<CommandSpec>,
    pub unresolved: Option<JsonSpec>,
}

impl View for CodeAction {
    type V = CodeActionSpec;

    open spec fn view(&self) -> CodeActionSpec {
        CodeActionSpec {
            title: self.title@,
            kind: match self.kind {
                Some(kind) => Some(kind@),
                None => None,
            },
            edit: match self.edit {
                Some(edit) => Some(edit@),
                None => None,
            },
            command: match self.command {
                Some(command) => Some(command@),
                None => None,
            },
            unresolved: match self.unresolved {
                Some(unresolved) => Some(unresolved@),
                None => None,
            },
        }
    }
}

impl Command {
    /// The arguments of the command.
    pub fn arguments(&self) -> (arguments: Vec<Json>)
        ensures
            match self.arguments {
                Some(list) => items_view(arguments@) == items_view(list@),
                None => arguments@.len() == 0,
            },
    {
        match &self.arguments {
            Some(arguments) => copy_list(arguments),
            None => Vec::new(),
        }
    }

    /// The name of the command.
    pub fn command(&self) -> (command: String)
        ensures
            command@ == self.command@,
    {
        self.command.clone()
    }
}

impl vstd::std_specs::cmp::PartialEqSpecImpl for Command {
    open spec fn obeys_eq_spec() -> bool {
        true
    }

    open spec fn eq_spec(&self, other: &Command) -> bool {
        self.command@ == other.command@
    }
}

/// Commands are compared by their names.
impl PartialEq for Command {
    fn eq(&self, other: &Command) -> (equal: bool) {
        str_eq(self.command.as_str(), other.command.as_str())
    }
}

impl Eq for Command {

}

/// What the editor does.
pub enum Dispatch<J, C> {
    ApplyWorkspaceEdit(J),
    LspExecuteCommand { command: C },
    ResolveCodeAction(J),
}

/// The meaning of what the editor does.
pub open spec fn dispatch_view(dispatch: Dispatch<Json, Command>) -> Dispatch<
    JsonSpec,
    CommandSpec,
> {
    match dispatch {
        Dispatch::ApplyWorkspaceEdit(edit) => Dispatch::ApplyWorkspaceEdit(edit@),
        Dispatch::LspExecuteCommand { command } => Dispatch::LspExecuteCommand {
            command: command@,
        },
        Dispatch::ResolveCodeAction(action) => Dispatch::ResolveCodeAction(action@),
    }
}

/// The meaning of a list of what the editor does.
pub open spec fn dispatches_view(dispatches: Seq<Dispatch<Json, Command>>) -> Seq<
    Dispatch<JsonSpec, CommandSpec>,
> {
    dispatches.map_values(|dispatch: Dispatch<Json, Command>| dispatch_view(dispatch))
}

/// What carrying out an action comes to: the edit first, and then the command.
pub open spec fn execution(action: CodeActionSpec) -> Seq<Dispatch<JsonSpec, CommandSpec>> {
    let edit = match action.edit {
        Some(edit) => seq![Dispatch::ApplyWorkspaceEdit(edit)],
        None => Seq::empty(),
    };
    match action.command {
        Some(command) => edit.push(Dispatch::LspExecuteCommand { command }),
        None => edit,
    }
}

/// What choosing an action comes to: the server is asked for what the action lacks, or else the
/// action is carried out.
pub open spec fn selection(action: CodeActionSpec) -> Seq<Dispatch<JsonSpec, CommandSpec>> {
    match action.unresolved {
        Some(unresolved) => seq![Dispatch::ResolveCodeAction(unresolved)],
        None => execution(action),
    }
}

/// The heading under which an action is listed.
pub open spec fn group(kind: Option<Seq<char>>) -> Seq<char> {
    match kind {
        Some(kind) => if kind.len() == 0 {
            "Misc."@
        } else {
            kind
        },
        None => "Misc."@,
    }
}

/// A line of a list from which the user chooses.
pub struct DropdownItem {
    pub title: String,
    pub group: String,
    pub dispatches: Vec<Dispatch<Json, Command>>,
}

/// What a server says of a command.
pub open spec fn command_in(value: JsonSpec) -> Option<CommandSpec> {
    match (value.get("title"@), value.get("command"@)) {
        (Some(JsonSpec::Text(title)), Some(JsonSpec::Text(command))) => Some(
            CommandSpec {
                title,
                command,
                arguments: match value.get("arguments"@) {
                    Some(JsonSpec::Array(arguments)) => Some(arguments),
                    _ => None,
                },
            },
        ),
        _ => None,
    }
}

/// The action that only runs a command.
pub open spec fn action_of_command(command: CommandSpec) -> CodeActionSpec {
    CodeActionSpec {
        title: command.title,
        kind: None,
        edit: None,
        command: Some(command),
        unresolved: None,
    }
}

/// What a server says of a code action. The server has to be asked for the edit of an action that
/// comes without one but with data of the server.
pub open spec fn action_in(value: JsonSpec) -> Option<CodeActionSpec> {
    match value.get("title"@) {
        Some(JsonSpec::Text(title)) => {
            let edit = present(value, "edit"@);
            Some(
                CodeActionSpec {
                    title,
                    kind: match value.get("kind"@) {
                        Some(JsonSpec::Text(kind)) => Some(kind),
                        _ => None,
                    },
                    edit,
                    command: match value.get("command"@) {
                        Some(command) => command_in(command),
                        None => None,
                    },
                    unresolved: if edit is None && present(value, "data"@) is Some {
                        Some(value)
                    } else {
                        None
                    },
                },
            )
        },
        _ => None,
    }
}

/// What an item of the answer to a request for code actions is: a command by itself, which names
/// what it runs in plain text, or an action.
pub open spec fn item_in(value: JsonSpec) -> Option<CodeActionSpec> {
    match value.get("command"@) {
        Some(JsonSpec::Text(_)) => match command_in(value) {
            Some(command) => Some(action_of_command(command)),
            None => None,
        },
        _ => action_in(value),
    }
}

/// What a server says of a command, if it says it in the right shape.
pub fn read_command(value: &Json) -> (command: Option<Command>)
    ensures
        match command {
            Some(command) => command_in(value@) == Some(command@),
            None => command_in(value@) is None,
        },
{
    let title = match value.get("title") {
        Some(title) => match title.as_text() {
            Some(title) => title.to_owned(),
            None => {
                return None;
            },
        },
        None => {
            return None;
        },
    };
    let name = match value.get("command") {
        Some(name) => match name.as_text() {
            Some(name) => name.to_owned(),
            None => {
                return None;
            },
        },
        None => {
            return None;
        },
    };
    let arguments = match value.get("arguments") {
        Some(Json::Array(arguments)) => {
            assert(value@.get("arguments"@)->0->Array_0 =~= items_view(arguments@));
            Some(copy_list(arguments))
        },
        _ => None,
    };
    Some(Command { title, command: name, arguments })
}

impl CodeAction {
    /// The action that only runs a command.
    pub fn from_command(command: Command) -> (action: CodeAction)
        ensures
            action@ == action_of_command(command@),
    {
        CodeAction {
            title: command.title.clone(),
            kind: None,
            edit: None,
            command: Some(command),
            unresolved: None,
        }
    }

    /// What a server says of a code action, if it says it in the right shape. See [`action_in`].
    pub fn from_action(value: &Json) -> (action: Option<CodeAction>)
        ensures
            match action {
                Some(action) => action_in(value@) == Some(action@),
                None => action_in(value@) is None,
            },
    {
        let title = match value.get("title") {
            Some(title) => match title.as_text() {
                Some(title) => title.to_owned(),
                None => {
                    return None;
                },
            },
            None => {
                return None;
            },
        };
        let kind = match value.get("kind") {
            Some(kind) => match kind.as_text() {
                Some(kind) => Some(kind.to_owned()),
                None => None,
            },
            None => None,
        };
        let edit = match find_present(value, "edit") {
            Some(edit) => Some(edit.copy()),
            None => None,
        };
        let command = match value.get("command") {
            Some(command) => read_command(command),
            None => None,
        };
        let unresolved = if edit.is_none() && find_present(value, "data").is_some() {
            Some(value.copy())
        } else {
            None
        };
        Some(CodeAction { title, kind, edit, command, unresolved })
    }

    /// What an item of the answer to a request for code actions is. See [`item_in`].
    pub fn from_item(value: &Json) -> (action: Option<CodeAction>)
        ensures
            match action {
                Some(action) => item_in(value@) == Some(action@),
                None => item_in(value@) is None,
            },
    {
        let is_command = match value.get("command") {
            Some(command) => command.as_text().is_some(),
            None => false,
        };
        if is_command {
            match read_command(value) {
                Some(command) => Some(CodeAction::from_command(command)),
                None => None,
            }
        } else {
            CodeAction::from_action(value)
        }
    }

    /// What carrying out the action comes to. See [`execution`].
    pub fn execution_dispatches(self) -> (dispatches: Vec<Dispatch<Json, Command>>)
        ensures
            dispatches_view(dispatches@) == execution(self@),
    {
        let ghost action = self@;
        let mut dispatches: Vec<Dispatch<Json, Command>> = Vec::new();
        if let Some(edit) = self.edit {
            dispatches.push(Dispatch::ApplyWorkspaceEdit(edit));
        }
        if let Some(command) = self.command {
            dispatches.push(Dispatch::LspExecuteCommand { command });
        }
        assert(dispatches_view(dispatches@) =~= execution(action));
        dispatches
    }

    /// What choosing the action comes to. See [`selection`].
    pub fn selection_dispatches(self) -> (dispatches: Vec<Dispatch<Json, Command>>)
        ensures
            dispatches_view(dispatches@) == selection(self@),
    {
        let ghost action = self@;
        let CodeAction { title, kind, edit, command, unresolved } = self;
        match unresolved {
            Some(unresolved) => {
                let mut dispatches: Vec<Dispatch<Json, Command>> = Vec::new();
                dispatches.push(Dispatch::ResolveCodeAction(unresolved));
                assert(dispatches_view(dispatches@) =~= selection(action));
                dispatches
            },
            None => CodeAction {
                title,
                kind,
                edit,
                command,
                unresolved: None,
            }.execution_dispatches(),
        }
    }

    /// The line under which the user can choose the action.
    pub fn dropdown_item(self) -> (item: DropdownItem)
        ensures
            item.title@ == self@.title,
            item.group@ == group(self@.kind),
            dispatches_view(item.dispatches@) == selection(self@),
    {
        let title = self.title.clone();
        let group = match &self.kind {
            Some(kind) => {
                if chars_of(kind.as_str()).len() == 0 {
                    "Misc.".to_owned()
                } else {
                    kind.clone()
                }
            },
            None => "Misc.".to_owned(),
        };
        DropdownItem { title, group, dispatches: self.selection_dispatches() }
    }

    /// Whether the action is listed before another one: actions are listed by their titles.
    pub fn precedes(&self, other: &CodeAction) -> (precedes: bool)
        ensures
            precedes == text_precedes(self@.title, other@.title),
    {
        precedes(self.title.as_str(), other.title.as_str())
    }
}

/// Where an action has an edit and a command, the edit is made before the command runs.
pub proof fn law_edits_come_before_commands(action: CodeActionSpec)
    requires
        action.edit is Some,
        action.command is Some,
    ensures
        execution(action).len() == 2,
        execution(action)[0] is ApplyWorkspaceEdit,
        execution(action)[1] is LspExecuteCommand,
{
}

/// An action without an edit of which the server keeps data is sent back to the server, just as it
/// came, when it is chosen.
pub proof fn law_unresolved_actions_are_sent_back(value: JsonSpec)
    requires
        action_in(value) is Some,
        present(value, "edit"@) is None,
        present(value, "data"@) is Some,
    ensures
        selection(action_in(value)->0) == seq![
            Dispatch::<JsonSpec, CommandSpec>::ResolveCodeAction(value),
        ],
{
}

/// Whether `dispatches` carry out just `edit` and `command`: each of them that there is, once, the
/// edit first, and nothing else.
pub open spec fn carries_out(
    dispatches: Seq<Dispatch<JsonSpec, CommandSpec>>,
    edit: Option<JsonSpec>,
    command: Option<CommandSpec>,
) -> bool {
    &&& forall|e: JsonSpec| #[trigger]
        dispatches.contains(Dispatch::ApplyWorkspaceEdit(e)) <==> edit == Some(e)
    &&& forall|c: CommandSpec| #[trigger]
        dispatches.contains(Dispatch::LspExecuteCommand { command: c }) <==> command == Some(c)
    &&& forall|v: JsonSpec| !#[trigger] dispatches.contains(Dispatch::ResolveCodeAction(v))
    &&& dispatches.no_duplicates()
    &&& forall|i: int, j: int|
        0 <= i < dispatches.len() && 0 <= j < dispatches.len() && (#[trigger] dispatches[i])
            is ApplyWorkspaceEdit && (#[trigger] dispatches[j]) is LspExecuteCommand ==> i < j
}

/// Choosing an action of which nothing is missing makes the edit that the action has, if it has
/// one, and runs the command that it has, if it has one: each once, the edit first, and nothing
/// else. An action that has only one of them does just that one, and an action that has neither
/// does nothing. Carrying out an action does the same, also where it was resolved.
pub proof fn law_chosen_actions_do_what_they_hold(action: CodeActionSpec)
    ensures
        action.unresolved is None ==> carries_out(
            selection(action),
            action.edit,
            action.command,
        ),
        carries_out(execution(action), action.edit, action.command),
        action.edit is Some && action.command is None ==> execution(action) == seq![
            Dispatch::<JsonSpec, CommandSpec>::ApplyWorkspaceEdit(action.edit->0),
        ],
        action.edit is None && action.command is Some ==> execution(action) == seq![
            Dispatch::<JsonSpec, CommandSpec>::LspExecuteCommand { command: action.command->0 },
        ],
        action.edit is None && action.command is None ==> execution(action).len() == 0,
        action.unresolved is Some ==> selection(action) == seq![
            Dispatch::<JsonSpec, CommandSpec>::ResolveCodeAction(action.unresolved->0),
        ],
{
    let done = execution(action);
    if let Some(e) = action.edit {
        assert(done[0] == Dispatch::<JsonSpec, CommandSpec>::ApplyWorkspaceEdit(e));
        if action.command is None {
            assert(done =~= seq![Dispatch::<JsonSpec, CommandSpec>::ApplyWorkspaceEdit(e)]);
        }
    }
    if let Some(c) = action.command {
        assert(done[done.len() - 1] == Dispatch::<JsonSpec, CommandSpec>::LspExecuteCommand {
            command: c,
        });
        if action.edit is None {
            assert(done =~= seq![
                Dispatch::<JsonSpec, CommandSpec>::LspExecuteCommand { command: c },
            ]);
        }
    }
}

/// An item whose `command` is a text is a command: choosing it runs the command of that name, with
/// the arguments and the title of the item, and does nothing else. It is listed under its title.
pub proof fn law_offered_commands_are_run(value: JsonSpec, title: Seq<char>, command: Seq<char>)
    requires
        value.get("title"@) == Some(JsonSpec::Text(title)),
        value.get("command"@) == Some(JsonSpec::Text(command)),
    ensures
        item_in(value) is Some,
        item_in(value)->0.title == title,
        item_in(value)->0.kind is None,
        carries_out(
            selection(item_in(value)->0),
            None,
            Some(
                CommandSpec {
                    title,
                    command,
                    arguments: match value.get("arguments"@) {
                        Some(JsonSpec::Array(arguments)) => Some(arguments),
                        _ => None,
                    },
                },
            ),
        ),
{
    law_chosen_actions_do_what_they_hold(item_in(value)->0);
}

/// Any other item with a title is an action. It is listed under that title and under its kind. It
/// has the edit of the item, unless that is `null`, and the command of the item. Choosing it does
/// just what it holds, unless it holds no edit but data of the server: then the item goes back to
/// the server as it came.
pub proof fn law_offered_actions_are_taken_over(value: JsonSpec, title: Seq<char>)
    requires
        value.get("title"@) == Some(JsonSpec::Text(title)),
        value.get("command"@) is None || !(value.get("command"@)->0 is Text),
    ensures
        item_in(value) is Some,
        ({
            let action = item_in(value)->0;
            let has_edit = value.get("edit"@) is Some && !(value.get("edit"@)->0 is Null);
            let has_data = value.get("data"@) is Some && !(value.get("data"@)->0 is Null);
            &&& action.title == title
            &&& action.kind is Some <==> value.get("kind"@) is Some && value.get("kind"@)->0 is Text
            &&& action.kind is Some ==> value.get("kind"@) == Some(
                JsonSpec::Text(action.kind->0),
            )
            &&& action.edit is Some <==> has_edit
            &&& has_edit ==> action.edit == value.get("edit"@)
            &&& value.get("command"@) is None ==> action.command is None
            &&& value.get("command"@) is Some ==> action.command == command_in(
                value.get("command"@)->0,
            )
            &&& !has_edit && has_data ==> selection(action) == seq![
                Dispatch::<JsonSpec, CommandSpec>::ResolveCodeAction(value),
            ]
            &&& has_edit || !has_data ==> carries_out(
                selection(action),
                action.edit,
                action.command,
            )
        }),
{
    law_chosen_actions_do_what_they_hold(item_in(value)->0);
}

/// A command has the title, the name and the arguments that the server gives for it, and there is
/// none without a title and a name.
pub proof fn law_commands_are_taken_over(value: JsonSpec)
    ensures
        command_in(value) is Some <==> (value.get("title"@) is Some && value.get("title"@)->0
            is Text && value.get("command"@) is Some && value.get("command"@)->0 is Text),
        command_in(value) is Some ==> {
            let command = command_in(value)->0;
            &&& value.get("title"@) == Some(JsonSpec::Text(command.title))
            &&& value.get("command"@) == Some(JsonSpec::Text(command.command))
            &&& command.arguments is Some <==> value.get("arguments"@) is Some && value.get(
                "arguments"@,
            )->0 is Array
            &&& command.arguments is Some ==> value.get("arguments"@) == Some(
                JsonSpec::Array(command.arguments->0),
            )
        },
        value.get("title"@) is None || !(value.get("title"@)->0 is Text) ==> item_in(value)
            is None,
{
}

/// Actions of a kind are listed under that kind, and all others under one heading that is no
/// empty text.
pub proof fn law_actions_are_listed_by_kind(kind: Seq<char>, other: Option<Seq<char>>)
    ensures
        kind.len() > 0 ==> group(Some(kind)) == kind,
        other is None || other->0.len() == 0 ==> group(other) == "Misc."@,
        group(other).len() > 0,
{
    reveal_strlit("Misc.");
}

/// An action means what it holds, and so does a command: nothing of it is lost or exchanged.
pub proof fn law_actions_mean_what_they_hold(action: CodeAction, command: Command, edit: Json)
    ensures
        action@.title == action.title@,
        action.kind is None <==> action@.kind is None,
        action.kind is Some ==> action@.kind == Some(action.kind->0@),
        action.edit is None <==> action@.edit is None,
        action.edit is Some ==> action@.edit == Some(action.edit->0@),
        action.command is None <==> action@.command is None,
        action.command is Some ==> action@.command == Some(action.command->0@),
        action.unresolved is None <==> action@.unresolved is None,
        action.unresolved is Some ==> action@.unresolved == Some(action.unresolved->0@),
        command@.title == command.title@,
        command@.command == command.command@,
        command.arguments is None <==> command@.arguments is None,
        command.arguments is Some ==> command@.arguments == Some(items_view(command.arguments->0@)),
        dispatch_view(Dispatch::ApplyWorkspaceEdit(edit)) == Dispatch::<
            JsonSpec,
            CommandSpec,
        >::ApplyWorkspaceEdit(edit@),
        dispatch_view(Dispatch::ResolveCodeAction(edit)) == Dispatch::<
            JsonSpec,
            CommandSpec,
        >::ResolveCodeAction(edit@),
        dispatch_view(Dispatch::LspExecuteCommand { command }) == (Dispatch::<
            JsonSpec,
            CommandSpec,
        >::LspExecuteCommand { command: command@ }),
{
}

} // verus!
