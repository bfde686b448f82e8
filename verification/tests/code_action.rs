use ki::json::{parse_json, print_json, Json};
use ki::lsp::code_action::{CodeAction, Dispatch};
use ki::lsp::protocol::Command;

fn json(text: &str) -> Json {
    parse_json(text).unwrap()
}

fn value(json: &Json) -> serde_json::Value {
    serde_json::from_str(&print_json(json)).unwrap()
}

fn command(name: &str) -> Command {
    Command {
        title: "Organize imports".to_string(),
        command: name.to_string(),
        arguments: None,
    }
}

#[test]
fn command_only_action_is_executable() {
    let action = CodeAction::from_command(command("java.edit.organizeImports"));

    assert_eq!(action.title, "Organize imports");
    assert!(action.edit.is_none());
    assert_eq!(
        action.command.unwrap().command(),
        "java.edit.organizeImports"
    );
}

#[test]
fn unresolved_action_is_resolved_when_selected() {
    let protocol_action = lsp_types::CodeAction {
        title: "using System.Text.Json;".to_string(),
        kind: Some(lsp_types::CodeActionKind::QUICKFIX),
        data: Some(serde_json::from_str("{ \"Identifier\": \"using System.Text.Json;\" }").unwrap()),
        ..Default::default()
    };
    let text = serde_json::to_string(&protocol_action).unwrap();

    let mut item = CodeAction::from_action(&json(&text)).unwrap().dropdown_item();

    assert_eq!(item.title, "using System.Text.Json;");
    assert_eq!(item.group, "quickfix");
    assert_eq!(item.dispatches.len(), 1);
    match item.dispatches.remove(0) {
        Dispatch::ResolveCodeAction(action) => {
            let action: lsp_types::CodeAction = serde_json::from_value(value(&action)).unwrap();
            assert_eq!(action, protocol_action);
        }
        _ => panic!("expected the action to be resolved"),
    }
}

#[test]
fn edit_comes_before_command() {
    let action = CodeAction::from_item(&json(
        "{\"title\":\"t\",\"edit\":{\"changes\":{}},\"data\":1,\"command\":{\"title\":\"c\",\"command\":\"run\",\"arguments\":[1]}}",
    ))
    .unwrap();
    assert!(action.unresolved.is_none());
    let dispatches = action.selection_dispatches();
    assert_eq!(dispatches.len(), 2);
    match &dispatches[0] {
        Dispatch::ApplyWorkspaceEdit(edit) => assert_eq!(print_json(edit), "{\"changes\":{}}"),
        _ => panic!("expected the edit first"),
    }
    match &dispatches[1] {
        Dispatch::LspExecuteCommand { command } => {
            assert_eq!(command.command(), "run");
            assert_eq!(value(&command.arguments()[0]), 1);
        }
        _ => panic!("expected the command second"),
    }
}

#[test]
fn commands_among_actions_are_recognized() {
    let action =
        CodeAction::from_item(&json("{\"title\":\"t\",\"command\":\"run\"}")).unwrap();
    assert_eq!(action.command.as_ref().unwrap().command(), "run");
    assert!(action.command.as_ref().unwrap().arguments().is_empty());
    assert_eq!(action.dropdown_item().group, "Misc.");
    assert!(CodeAction::from_item(&json("{\"kind\":\"x\"}")).is_none());
    let empty = CodeAction::from_item(&json("{\"title\":\"t\",\"kind\":\"\"}")).unwrap();
    assert_eq!(empty.dropdown_item().group, "Misc.");
}

#[test]
fn commands_are_compared_by_name() {
    let mut other = command("a");
    other.title = "another title".to_string();
    assert!(command("a") == other);
    assert!(command("a") != command("b"));
}

#[test]
fn actions_are_ordered_by_title() {
    let action = |title: &str| {
        let mut action = CodeAction::from_command(command("x"));
        action.title = title.to_string();
        action
    };
    for (first, second) in [("a", "b"), ("", "a"), ("a", "aa"), ("Z", "a"), ("z", "ä")] {
        assert!(action(first).precedes(&action(second)));
        assert!(!action(second).precedes(&action(first)));
        assert!(first < second);
    }
    assert!(!action("a").precedes(&action("a")));
}
