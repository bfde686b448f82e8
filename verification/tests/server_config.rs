use ki::json::{parse_json, print_json, Json};
use ki::lsp::server_config::{
    find_in_path, find_package_ancestor, needs_data_dir, resolve_configured_path,
    resolve_initialization_options, resolve_launch_placeholders, resolve_process_command,
    search_candidates, vue_typescript_plugin_location, VuePlaces,
};
use ki::lsp::workspace_data::{LockOutcome, SlotStep, WorkspaceDataLease};
use ki::path::AbsolutePath;
use ki::process_command::ProcessCommand;
use ki::table::TextTable;

fn strings(list: &[&str]) -> Vec<String> {
    list.iter().map(|text| text.to_string()).collect()
}

fn root() -> AbsolutePath {
    AbsolutePath::new("/tmp/ki-workspace").unwrap()
}

fn json(text: &str) -> Json {
    parse_json(text).unwrap()
}

fn value(json: &Json) -> serde_json::Value {
    serde_json::from_str(&print_json(json)).unwrap()
}

#[test]
fn resolves_workspace_placeholder() {
    let options = json("{ \"path\": \"${workspace}/node_modules/typescript/lib\" }");

    assert_eq!(
        value(&resolve_initialization_options(Some(&options), &root(), None).unwrap())["path"],
        "/tmp/ki-workspace/node_modules/typescript/lib"
    );
}

#[test]
fn resolves_process_command_placeholders() {
    let mut environment = TextTable::new();
    environment.insert("JAVA_PROJECT", "${workspace}");
    let command = ProcessCommand::with_environment(
        "jdtls",
        &strings(&["-data", "${lsp_data_dir}", "--root=${workspace}"]),
        &environment,
    );

    assert!(needs_data_dir(&command));
    let mut search =
        WorkspaceDataLease::acquire("/cache", "jdtls", root().as_str().as_bytes());
    let lease = match search.try_acquire_slot(LockOutcome::Locked) {
        SlotStep::Acquired(lease) => lease,
        _ => panic!("expected a lease"),
    };
    let data_dir = lease.data_dir().to_string();
    let resolved = resolve_process_command(&command, &root(), Some(lease));

    assert_eq!(resolved.command.command(), "jdtls");
    assert_eq!(resolved.command.arguments()[0], "-data");
    assert!(std::path::Path::new(&resolved.command.arguments()[1]).is_absolute());
    assert_eq!(resolved.command.arguments()[1], data_dir);
    assert_eq!(
        resolved.command.arguments()[2],
        format!("--root={}", root().display_absolute())
    );
    assert_eq!(
        resolved.command.environment().get("JAVA_PROJECT"),
        Some(root().as_str())
    );
    assert!(resolved.workspace_data_lease.is_some());
}

#[test]
fn process_command_without_data_placeholder_does_not_allocate_lease() {
    let command = ProcessCommand::new("rust-analyzer", &[]);
    assert!(!needs_data_dir(&command));

    let resolved = resolve_process_command(&command, &root(), None);

    assert!(resolved.workspace_data_lease.is_none());
    assert_eq!(resolved.command.command(), "rust-analyzer");
}

#[test]
fn placeholder_values_are_not_reprocessed() {
    assert_eq!(
        resolve_launch_placeholders(
            "${workspace}",
            "/tmp/${lsp_data_dir}/project",
            Some("/cache/jdtls")
        ),
        "/tmp/${lsp_data_dir}/project"
    );
}

#[test]
fn placeholders_are_filled_in_anywhere() {
    assert_eq!(
        resolve_launch_placeholders(
            "${${workspace}$${lsp_data_dir}}${workspace",
            "${lsp_data_dir}",
            Some("${workspace}")
        ),
        "${${lsp_data_dir}$${workspace}}${workspace"
    );
}

#[test]
fn data_placeholder_is_found_anywhere() {
    assert!(needs_data_dir(&ProcessCommand::new("x-${lsp_data_dir}", &[])));
    assert!(needs_data_dir(&ProcessCommand::new(
        "x",
        &strings(&["a", "--data=${lsp_data_dir}/x"])
    )));
    let mut environment = TextTable::new();
    environment.insert("A", "1");
    environment.insert("DATA", "${lsp_data_dir}");
    assert!(needs_data_dir(&ProcessCommand::with_environment(
        "x",
        &[],
        &environment
    )));
    assert!(!needs_data_dir(&ProcessCommand::new(
        "x",
        &strings(&["${lsp_data_dir"])
    )));
}

#[test]
fn data_placeholder_without_directory_stays() {
    assert_eq!(
        resolve_launch_placeholders("a${lsp_data_dir}b${workspace}c", "/w", None),
        "a${lsp_data_dir}b/wc"
    );
}

#[test]
fn options_are_resolved_at_any_depth() {
    let options = json(
        "{\"a\": [\"${workspace}/x\", 1, null, true, -2, 1.5], \"b\": {\"c\": \"${vue_typescript_plugin}\"}, \"${workspace}\": \"\"}",
    );
    let resolved =
        resolve_initialization_options(Some(&options), &root(), Some("/plugin")).unwrap();
    let expected: serde_json::Value = serde_json::from_str(
        "{\"a\": [\"/tmp/ki-workspace/x\", 1, null, true, -2, 1.5], \"b\": {\"c\": \"/plugin\"}, \"${workspace}\": \"\"}",
    )
    .unwrap();
    assert_eq!(value(&resolved), expected);
    assert!(resolve_initialization_options(None, &root(), None).is_none());
    let unresolved = resolve_initialization_options(Some(&options), &root(), None).unwrap();
    assert_eq!(value(&unresolved)["b"]["c"], "${vue_typescript_plugin}");
}

#[test]
fn configured_paths_are_taken_from_the_root() {
    assert_eq!(
        resolve_configured_path(&root(), "lib", None).unwrap(),
        "/tmp/ki-workspace/lib"
    );
    assert_eq!(
        resolve_configured_path(&root(), "${workspace}/lib", None).unwrap(),
        "/tmp/ki-workspace/lib"
    );
    assert_eq!(
        resolve_configured_path(&root(), "/abs/lib", None).unwrap(),
        "/abs/lib"
    );
    assert_eq!(
        resolve_configured_path(&root(), "${vue_typescript_plugin}", Some("/p")).unwrap(),
        "/p"
    );
    assert!(resolve_configured_path(&root(), "${vue_typescript_plugin}", None).is_none());
}

#[test]
fn package_is_found_above_a_path() {
    let manifests = vec![
        None,
        Some("not json".to_string()),
        Some("{\"name\": \"other\"}".to_string()),
        Some("{\"name\": \"@vue/language-server\"}".to_string()),
        Some("{\"name\": \"@vue/language-server\"}".to_string()),
    ];
    assert_eq!(
        find_package_ancestor("/a/b/c/d", "@vue/language-server", &manifests).unwrap(),
        "/a"
    );
    assert!(find_package_ancestor("/a/b/c/d", "nothing", &manifests).is_none());
    assert!(find_package_ancestor("/a", "@vue/language-server", &[]).is_none());
}

#[test]
fn command_is_found_in_the_search_path() {
    assert_eq!(
        search_candidates("/a:/b/:", "x"),
        strings(&["/a/x", "/b/x", "x"])
    );
    assert_eq!(
        find_in_path("/a:/b", "x", &[false, true]).unwrap(),
        "/b/x"
    );
    assert!(find_in_path("/a:/b", "x", &[false, false]).is_none());
}

fn places() -> VuePlaces {
    VuePlaces {
        in_workspace: false,
        language_server: Some("/opt/vue/bin/vue-language-server".to_string()),
        manifests: vec![],
        in_tools: false,
        in_modules: false,
    }
}

#[test]
fn vue_plugin_is_looked_for_in_order() {
    let mut all = places();
    all.in_workspace = true;
    all.in_tools = true;
    assert_eq!(
        vue_typescript_plugin_location(&root(), &all).unwrap(),
        "/tmp/ki-workspace/node_modules/@vue/typescript-plugin"
    );
    let mut package = places();
    package.in_tools = true;
    package.manifests = vec![
        None,
        None,
        Some("{\"name\": \"@vue/language-server\"}".to_string()),
    ];
    assert_eq!(
        vue_typescript_plugin_location(&root(), &package).unwrap(),
        "/opt/vue"
    );
    let mut tools = places();
    tools.in_tools = true;
    tools.in_modules = true;
    assert_eq!(
        vue_typescript_plugin_location(&root(), &tools).unwrap(),
        "/opt/vue/lib/language-tools/packages/language-server"
    );
    let mut modules = places();
    modules.in_modules = true;
    assert_eq!(
        vue_typescript_plugin_location(&root(), &modules).unwrap(),
        "/opt/vue/lib/node_modules/@vue/language-server"
    );
    assert!(vue_typescript_plugin_location(&root(), &places()).is_none());
    let mut nowhere = places();
    nowhere.language_server = None;
    nowhere.in_modules = true;
    assert!(vue_typescript_plugin_location(&root(), &nowhere).is_none());
}
