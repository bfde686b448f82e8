use ki::decimal::{parse_number_text, print_number, print_signed};
use ki::json::{parse_json, print_json, show_json, Json};
use ki::path::{ancestors_of, comes_before, join, parent_of, AbsolutePath};
use ki::run_config::RunConfig;
use ki::table::TextTable;
use ki::text::{eq_ignore_case, join_texts, replace, split, str_contains, substitute, trim};

fn strings(list: &[&str]) -> Vec<String> {
    list.iter().map(|text| text.to_string()).collect()
}

#[test]
fn json_is_printed_and_read_back() {
    for text in [
        "null",
        "true",
        "0",
        "18446744073709551615",
        "-9223372036854775808",
        "1.5",
        "\"a\\n\\\"\\u0000ä😀\"",
        "[]",
        "{}",
        "[1,[2,[3]],{\"a\":{\"b\":null}}]",
    ] {
        let json = parse_json(text).unwrap();
        let expected: serde_json::Value = serde_json::from_str(text).unwrap();
        assert_eq!(print_json(&json), expected.to_string());
        let again = parse_json(&print_json(&json)).unwrap();
        assert_eq!(print_json(&again), print_json(&json));
        assert_eq!(print_json(&json.copy()), print_json(&json));
    }
    assert!(parse_json("{").is_none());
    assert!(parse_json("").is_none());
}

#[test]
fn json_nests_only_so_deep() {
    let nested = |depth: usize| format!("{}{}", "[".repeat(depth), "]".repeat(depth));
    assert!(parse_json(&nested(127)).is_some());
    assert!(parse_json(&nested(128)).is_none());
}

#[test]
fn json_members_are_printed_in_their_order() {
    let json = Json::object()
        .with("b", Json::integer(-2))
        .with("a", Json::text("x"))
        .with("\"", Json::object().with("z", Json::Null).with("y", Json::Bool(true)))
        .with_some("d", None)
        .with_some("c", Some(Json::array()));
    assert_eq!(
        print_json(&json),
        "{\"b\":-2,\"a\":\"x\",\"\\\"\":{\"z\":null,\"y\":true},\"c\":[]}"
    );
    let again = parse_json(&print_json(&json)).unwrap();
    assert_eq!(
        print_json(&again),
        "{\"\\\"\":{\"y\":true,\"z\":null},\"a\":\"x\",\"b\":-2,\"c\":[]}"
    );
    assert_eq!(print_json(&json.copy()), print_json(&json));
    assert_eq!(
        show_json(&json),
        format!(
            "{:#?}",
            serde_json::from_str::<serde_json::Value>(&print_json(&json)).unwrap()
        )
    );
}

#[test]
fn json_members_are_found() {
    let json = Json::object()
        .with("a", Json::text("x"))
        .with("b", Json::integer(-2));
    assert_eq!(json.get("a").unwrap().as_text(), Some("x"));
    assert!(json.get("c").is_none());
    assert_eq!(json.get("b").unwrap().as_u64(), None);
    assert_eq!(Json::integer(7).as_u64(), Some(7));
    let duplicate = parse_json("{\"a\":1,\"a\":2}").unwrap();
    assert_eq!(duplicate.get("a").unwrap().as_u64(), Some(2));
    assert_eq!(
        print_json(&Json::texts(&strings(&["p", "q"])).item(Json::Null)),
        "[\"p\",\"q\",null]"
    );
}

#[test]
fn numbers_are_printed_and_read() {
    assert_eq!(print_number(0), "0");
    assert_eq!(print_number(u64::MAX), u64::MAX.to_string());
    assert_eq!(print_signed(i64::MIN), i64::MIN.to_string());
    assert_eq!(print_signed(-17), "-17");
    for text in ["0", "17", "+5", "007", "", "+", "-1", "1 ", "١", "18446744073709551616"] {
        assert_eq!(parse_number_text(text), text.parse::<usize>().ok());
    }
}

#[test]
fn paths_are_joined_and_taken_apart() {
    for (base, rest) in [("/a", "b"), ("/a/", "b"), ("/a", "/b"), ("", "b"), ("/", "b/c")] {
        assert_eq!(
            join(base, rest),
            std::path::Path::new(base).join(rest).display().to_string()
        );
    }
    assert_eq!(ancestors_of("/a/b/c"), strings(&["/a/b/c", "/a/b", "/a", "/"]));
    let expected: Vec<String> = std::path::Path::new("/a/b/c")
        .ancestors()
        .map(|path| path.display().to_string())
        .collect();
    assert_eq!(ancestors_of("/a/b/c"), expected);
    assert_eq!(parent_of("/"), None);
    assert_eq!(parent_of("/a").unwrap(), "/");
    assert!(AbsolutePath::new("a").is_none());
    let path = AbsolutePath::new("/a").unwrap();
    assert!(path.same(&path.copy()));
    assert!(comes_before("/a/c", "/a-b"));
    assert!(!comes_before("/a", "/a"));
}

#[test]
fn texts_are_searched_and_replaced() {
    assert!(str_contains("abc", "bc"));
    assert!(str_contains("abc", ""));
    assert!(!str_contains("abc", "ac"));
    assert_eq!(replace("aaaa", "aa", "b"), "aaaa".replace("aa", "b"));
    assert_eq!(replace("x{y}{y", "{y}", "{y}{y}"), "x{y}{y}{y");
    assert_eq!(
        substitute("ab", &[("a", "b"), ("b", "a")]),
        "ba"
    );
    assert_eq!(split("a:b::", ':'), strings(&["a", "b", "", ""]));
    assert_eq!(split("", ':'), strings(&[""]));
    assert_eq!(join_texts(&strings(&["a", "b", ""]), ", "), "a, b, ");
    assert_eq!(
        trim(&[' ', '\u{2003}', 'x', ' ', 'y', '\t', '\u{85}']),
        vec!['x', ' ', 'y']
    );
    assert!(eq_ignore_case(&['A', 'z', 'Ä'], &['a', 'Z', 'Ä']));
    assert!(!eq_ignore_case(&['Ä'], &['ä']));
}

#[test]
fn every_white_space_is_trimmed() {
    for code in 0..0x11_0000_u32 {
        if let Some(c) = char::from_u32(code) {
            assert_eq!(trim(&[c]).is_empty(), c.is_whitespace());
        }
    }
}

#[test]
fn tables_hold_one_value_per_key() {
    let mut table = TextTable::new();
    table.insert("a", "1");
    table.insert("b", "2");
    table.insert("a", "3");
    assert_eq!(table.get("a"), Some("3"));
    assert_eq!(table.keys(), strings(&["b", "a"]));
    let copy = table.copy();
    table.remove("b");
    assert_eq!(table.get("b"), None);
    assert_eq!(copy.get("b"), Some("2"));
}

#[test]
fn editor_runs_where_it_was_started() {
    let started = || AbsolutePath::new("/started").unwrap();
    let config = RunConfig::default();
    assert!(config.entry_path.is_none());
    assert_eq!(config.directory(started()).as_str(), "/started");
    let config = RunConfig {
        entry_path: None,
        working_directory: AbsolutePath::new("/other"),
    };
    assert_eq!(config.directory(started()).as_str(), "/other");
}
