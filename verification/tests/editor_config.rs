use ki::editor_config::{EditorConfigSettings, IndentSettings};
use ki::table::TextTable;

fn config(properties: &[(&str, &str)]) -> EditorConfigSettings {
    let mut table = TextTable::new();
    for (key, value) in properties {
        table.insert(key, value);
    }
    EditorConfigSettings::from_properties(&table)
}

fn settings(properties: &[(&str, &str)]) -> IndentSettings {
    config(properties).indent_settings(IndentSettings::new('\t', 8))
}

#[test]
fn parses_space_indentation() {
    assert_eq!(
        settings(&[("indent_style", "space"), ("indent_size", "2")]),
        IndentSettings::new(' ', 2)
    );
}

#[test]
fn parses_tab_indentation_as_one_tab_per_level() {
    assert_eq!(
        settings(&[("indent_style", "tab"), ("indent_size", "4")]),
        IndentSettings::new('\t', 1)
    );
}

#[test]
fn falls_back_per_property() {
    assert_eq!(
        settings(&[("indent_style", "space")]),
        IndentSettings::new(' ', 8)
    );
    assert_eq!(
        settings(&[("indent_size", "2")]),
        IndentSettings::new('\t', 2)
    );
}

#[test]
fn ignores_unset_indentation_properties() {
    assert_eq!(
        settings(&[("indent_style", "unset"), ("indent_size", "unset")]),
        IndentSettings::new('\t', 8)
    );
}

#[test]
fn trims_trailing_whitespace_on_save() {
    assert_eq!(
        config(&[("trim_trailing_whitespace", "true")]).format_content_for_save("a  \nb\t \n"),
        "a\nb\n"
    );
}

#[test]
fn inserts_final_newline_on_save() {
    assert_eq!(
        config(&[("insert_final_newline", "true")]).format_content_for_save("a"),
        "a\n"
    );
}

#[test]
fn ignores_crlf_line_endings_on_save() {
    assert_eq!(
        config(&[("end_of_line", "crlf")]).format_content_for_save("a\nb\n"),
        "a\nb\n"
    );
}

#[test]
fn false_save_properties_still_normalize_line_endings() {
    assert_eq!(
        config(&[
            ("insert_final_newline", "false"),
            ("trim_trailing_whitespace", "false"),
        ])
        .format_content_for_save("a  \r\nb"),
        "a  \nb"
    );
}

#[test]
fn unset_is_recognized_in_any_case() {
    assert_eq!(
        settings(&[("indent_style", "UnSet"), ("indent_size", "3")]),
        IndentSettings::new('\t', 3)
    );
}

#[test]
fn widths_have_to_be_positive_numbers() {
    for width in ["0", "-1", "two", "", "tab", "99999999999999999999999999"] {
        assert_eq!(
            settings(&[("indent_size", width)]),
            IndentSettings::new('\t', 8)
        );
    }
    assert_eq!(
        settings(&[("indent_size", "+3")]),
        IndentSettings::new('\t', 3)
    );
    assert_eq!(
        settings(&[("indent_size", "007")]),
        IndentSettings::new('\t', 7)
    );
}

#[test]
fn empty_text_gets_no_final_newline() {
    let config = config(&[
        ("insert_final_newline", "true"),
        ("trim_trailing_whitespace", "true"),
    ]);
    assert_eq!(config.format_content_for_save(""), "");
    assert_eq!(config.format_content_for_save("  "), "");
    assert_eq!(config.format_content_for_save("a\r\rb "), "a\n\nb\n");
}

#[test]
fn saving_twice_changes_nothing() {
    let config = config(&[
        ("insert_final_newline", "true"),
        ("trim_trailing_whitespace", "true"),
    ]);
    for content in ["a \r\n\t\r\n b", "\r\r\n\n ", "x", "\n"] {
        let once = config.format_content_for_save(content);
        assert_eq!(config.format_content_for_save(&once), once);
    }
}

#[test]
fn defaults_say_nothing() {
    let config = EditorConfigSettings::default();
    assert_eq!(config.indent_char, None);
    assert_eq!(config.indent_width, None);
    assert_eq!(config.format_content_for_save("a \r\n"), "a \n");
}
