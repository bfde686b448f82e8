use ki::formatter::{FormatError, FormatPlan, Formatter};
use ki::process_command::ProcessCommand;
use ki::table::TextTable;

fn strings(list: &[&str]) -> Vec<String> {
    list.iter().map(|text| text.to_string()).collect()
}

/// What the shell script of the first test prints: the number of its arguments, the arguments, a
/// variable of its environment, and what it reads.
fn run_script(plan: &FormatPlan) -> Vec<u8> {
    let arguments = plan.command.arguments();
    assert_eq!(arguments[0], "-c");
    assert_eq!(arguments[2], "formatter");
    let given = &arguments[3..];
    let mut output = format!("{}\n", given.len());
    for i in 0..3 {
        output.push_str(given.get(i).map(String::as_str).unwrap_or(""));
        output.push('\n');
    }
    output.push_str(plan.command.environment().get("FORMATTER_TEST").unwrap_or(""));
    output.push('\n');
    output.push_str(&plan.input);
    output.into_bytes()
}

#[test]
fn formatter_substitutes_file_path_without_shell_expansion() {
    let mut environment = TextTable::new();
    environment.insert("FORMATTER_TEST", "preserved");
    let formatter = Formatter::from(ProcessCommand::with_environment(
        "sh",
        &strings(&[
            "-c",
            "printf '%s\\n' \"$#\" \"$1\" \"$2\" \"$3\" \"$FORMATTER_TEST\"; cat",
            "formatter",
            "{file_path}",
            "--stdin-filepath={file_path}",
            "literal",
        ]),
        &environment,
    ));
    let path = "/project with spaces/$(exit 1)/Component.vue";
    let plan = formatter.format("input\n", path.as_bytes()).unwrap();
    assert_eq!(plan.command.command(), "sh");
    assert_eq!(
        plan.command.arguments()[1],
        "printf '%s\\n' \"$#\" \"$1\" \"$2\" \"$3\" \"$FORMATTER_TEST\"; cat"
    );
    assert_eq!(
        formatter.finish(true, &run_script(&plan), b"").unwrap(),
        format!(
            "3\n{}\n--stdin-filepath={}\nliteral\npreserved\ninput\n",
            path, path
        )
    );
}

#[test]
fn formatter_without_placeholder_still_receives_stdin() {
    let formatter = Formatter::from(ProcessCommand::new("cat", &[]));
    let plan = formatter.format("\tinput\n", b"/project/main.rs").unwrap();
    assert_eq!(plan.command.command(), "cat");
    assert!(plan.command.arguments().is_empty());
    assert_eq!(
        formatter.finish(true, plan.input.as_bytes(), b"").unwrap(),
        "\tinput\n"
    );
}

#[test]
fn path_that_is_not_utf8_is_refused() {
    let formatter = Formatter::from(ProcessCommand::new("cat", &[]));
    let error = formatter.format("x", &[b'/', 0xff]).err().unwrap();
    assert!(matches!(error, FormatError::PathNotUtf8));
    assert_eq!(error.message(), "Formatter file path is not valid UTF-8");
}

#[test]
fn failed_formatter_tells_both_outputs() {
    let formatter = Formatter::from(ProcessCommand::new("cat", &[]));
    let error = formatter.finish(false, &[0xff, 1], b"bad input").unwrap_err();
    assert_eq!(
        error.message(),
        "[[STDERR]]:\nbad input\n\n[[STDOUT]]:\n[255, 1]"
    );
}

#[test]
fn output_that_is_not_utf8_is_refused() {
    let formatter = Formatter::from(ProcessCommand::new("cat", &[]));
    for bytes in [vec![0xc3], vec![b'a', 0xff, b'b']] {
        let error = formatter.finish(true, &bytes, b"").unwrap_err();
        assert!(matches!(error, FormatError::OutputNotUtf8 { .. }));
        assert_eq!(
            error.message(),
            String::from_utf8(bytes).unwrap_err().to_string()
        );
    }
}

#[test]
fn a_fault_of_the_output_is_told_as_it_is() {
    let error = FormatError::OutputNotUtf8 {
        fault: "incomplete".to_string(),
    };
    assert_eq!(error.message(), "incomplete");
}
