use ki::json::{parse_json, Json};
use ki::lsp::channel::{
    is_transport_error, ChildPoll, LspServerProcessChannel, OpenDocument,
    ProcessGroup, SendError, Spawned, StartConfig, StartError, WaitAction,
};
use ki::lsp::key_table::LspServerKey;
use ki::lsp::manager::{
    Delivery, LanguageInfo, LspManager, OpenAction, SendStep, ServerInfo, SHUTDOWN_GRACE,
};
use ki::lsp::process::{LspServerProcess, LspServerProcessMessage};
use ki::lsp::protocol::{FromEditor, Position, RequestParams, ResponseContext};
use ki::lsp::roots::{Directory, Entry};
use ki::lsp::server_config::LspDiagnosticMode;
use ki::lsp::warnings::{configured_lsp_paths, warn_missing_configured_lsp_paths, warn_of_path};
use ki::path::{ancestors_of, AbsolutePath};

const SECOND: u64 = 1_000_000_000;

fn path(text: &str) -> AbsolutePath {
    AbsolutePath::new(text).unwrap()
}

fn language() -> LanguageInfo {
    LanguageInfo {
        id: Some("rust".to_string()),
        is_csharp: false,
        servers: vec![
            ServerInfo {
                id: "first".to_string(),
                primary: true,
            },
            ServerInfo {
                id: "second".to_string(),
                primary: false,
            },
        ],
    }
}

fn channel(is_initialized: bool) -> LspServerProcessChannel {
    LspServerProcessChannel {
        language_id: Some("rust".to_string()),
        is_initialized,
        process_group: ProcessGroup(7),
    }
}

fn key(server: &str) -> LspServerKey {
    LspManager::server_key(&language(), server, &path("/work")).unwrap()
}

fn document(version: usize) -> OpenDocument {
    OpenDocument {
        path: path("/work/main.rs"),
        version,
        content: "fn main() {}".to_string(),
    }
}

fn hover() -> FromEditor {
    let place = || Position {
        line: 0,
        character: 0,
    };
    FromEditor::TextDocumentHover(RequestParams {
        path: path("/work/main.rs"),
        position: place(),
        selection_end: place(),
        context: ResponseContext::default(),
    })
}

fn change() -> FromEditor {
    FromEditor::TextDocumentDidChange {
        file_path: path("/work/main.rs"),
        version: 1,
        content: "fn main() {}".to_string(),
    }
}

fn manager_with_server() -> LspManager {
    let mut manager = LspManager::new(path("/work"));
    manager.server_started(key("first"), channel(true), 0);
    manager
}

fn targets(manager: &LspManager, message: &FromEditor, now: u64) -> Vec<LspServerKey> {
    match manager.send_message(&language(), &path("/work"), message, now) {
        SendStep::Deliver(keys) => keys,
        SendStep::RestartFirst { .. } => panic!("expected the message to be delivered"),
    }
}

#[test]
fn did_close_is_a_lifecycle_message() {
    assert!(LspManager::is_lifecycle_message(
        &FromEditor::TextDocumentDidClose {
            file_path: path("/work")
        }
    ));
    assert!(!LspManager::is_lifecycle_message(&hover()));
}

#[test]
fn disconnected_server_does_not_fail_document_lifecycle() {
    let mut manager = manager_with_server();
    let keys = targets(&manager, &change(), 0);
    assert_eq!(keys.len(), 1);
    let deliveries = keys
        .into_iter()
        .map(|key| (key, Delivery::Stopped))
        .collect();

    assert!(manager.deliveries_done(&change(), deliveries, SECOND).is_ok());

    assert!(targets(&manager, &change(), SECOND).is_empty());
    assert!(!manager.should_restart_for_path(&language(), &path("/work"), SECOND));
    let later = SECOND + SECOND / 4;
    assert!(!manager.should_restart_for_path(&language(), &path("/work"), later - 1));
    assert!(manager.should_restart_for_path(&language(), &path("/work"), later));
    assert!(matches!(
        manager.send_message(&language(), &path("/work"), &change(), later),
        SendStep::RestartFirst {
            errors_matter: false
        }
    ));
}

#[test]
fn disconnected_server_still_fails_interactive_request() {
    let mut manager = manager_with_server();
    let deliveries = targets(&manager, &hover(), 0)
        .into_iter()
        .map(|key| (key, Delivery::Stopped))
        .collect();

    let error = manager.deliveries_done(&hover(), deliveries, 0).unwrap_err();
    assert!(error.contains("stopped"));
    assert!(!error.contains("closed channel"));
    assert_eq!(
        error,
        "Failed to send TextDocumentHover to LSP servers: [LSP server 'first' stopped]"
    );
    assert!(targets(&manager, &hover(), 0).is_empty());
    assert!(!manager.server_can_start(&key("first"), 0));
    assert!(matches!(
        manager.send_message(&language(), &path("/work"), &hover(), SECOND),
        SendStep::RestartFirst {
            errors_matter: true
        }
    ));
}

#[test]
fn failed_deliveries_are_all_told() {
    let mut manager = manager_with_server();
    let error = manager
        .deliveries_done(
            &hover(),
            vec![
                (key("first"), Delivery::Failed("a".to_string())),
                (key("second"), Delivery::Done),
                (key("third"), Delivery::Failed("b".to_string())),
            ],
            0,
        )
        .unwrap_err();
    assert_eq!(
        error,
        "Failed to send TextDocumentHover to LSP servers: [a, b]"
    );
    assert!(manager.deliveries_done(&hover(), vec![], 0).is_ok());
}

#[test]
fn a_server_that_is_configured_twice_fails_once() {
    let mut manager = manager_with_server();
    let error = manager
        .deliveries_done(
            &hover(),
            vec![
                (key("first"), Delivery::Done),
                (key("first"), Delivery::Stopped),
                (key("first"), Delivery::Stopped),
                (key("first"), Delivery::Done),
            ],
            0,
        )
        .unwrap_err();
    assert_eq!(
        error,
        "Failed to send TextDocumentHover to LSP servers: [LSP server 'first' stopped]"
    );
    assert!(!manager.server_can_start(&key("first"), SECOND / 4 - 1));
    assert!(manager.server_can_start(&key("first"), SECOND / 4));
}

#[test]
fn restart_delay_is_exponential_and_bounded() {
    assert_eq!(LspManager::restart_delay(1), SECOND / 4);
    assert_eq!(LspManager::restart_delay(2), SECOND / 2);
    assert_eq!(LspManager::restart_delay(8), 30 * SECOND);
    assert_eq!(LspManager::restart_delay(u32::MAX), 30 * SECOND);
    assert_eq!(LspManager::restart_delay(0), SECOND / 4);
    assert_eq!(LspManager::restart_delay(7), 16 * SECOND);
}

#[test]
fn failures_add_up_unless_the_server_was_stable() {
    let mut manager = LspManager::new(path("/work"));
    manager.record_server_failure(key("first"), 0);
    assert!(!manager.server_can_start(&key("first"), SECOND / 4 - 1));
    assert!(manager.server_can_start(&key("first"), SECOND / 4));
    manager.record_server_failure(key("first"), 0);
    assert!(!manager.server_can_start(&key("first"), SECOND / 2 - 1));
    assert!(manager.server_can_start(&key("first"), SECOND / 2));
    manager.record_server_started(key("first"), SECOND);
    assert!(manager.server_can_start(&key("first"), 0));
    manager.record_server_failure(key("first"), 31 * SECOND - 1);
    assert!(!manager.server_can_start(&key("first"), 32 * SECOND - 2));
    assert!(manager.server_can_start(&key("first"), 32 * SECOND - 1));
    manager.record_server_started(key("first"), 40 * SECOND);
    manager.record_server_failure(key("first"), 70 * SECOND);
    assert!(!manager.server_can_start(&key("first"), 70 * SECOND + SECOND / 4 - 1));
    assert!(manager.server_can_start(&key("first"), 70 * SECOND + SECOND / 4));
    assert!(manager.server_can_start(&key("second"), 0));
}

#[test]
fn requests_go_to_primary_servers_only() {
    let mut manager = manager_with_server();
    manager.server_started(key("second"), channel(true), 0);
    let names = |keys: Vec<LspServerKey>| -> Vec<String> {
        keys.into_iter().map(|key| key.server_id).collect()
    };
    assert_eq!(names(targets(&manager, &hover(), 0)), vec!["first"]);
    assert_eq!(
        names(targets(&manager, &change(), 0)),
        vec!["first", "second"]
    );
    let nameless = LanguageInfo {
        id: None,
        ..language()
    };
    assert!(manager
        .invoke_channels(&nameless, &path("/work"), &change())
        .is_empty());
    assert!(manager
        .invoke_channels(&language(), &path("/other"), &change())
        .is_empty());
}

#[test]
fn opening_a_file_starts_or_tells_the_server() {
    let mut manager = LspManager::new(path("/work"));
    match manager.open_file(key("first"), document(1), false, 0) {
        OpenAction::Start(started) => assert!(started.same(&key("first"))),
        _ => panic!("expected the server to be started"),
    }
    manager.server_started(key("first"), channel(false), 0);
    assert!(matches!(
        manager.open_file(key("first"), document(1), true, 0),
        OpenAction::Nothing
    ));
    assert!(manager
        .channel(&key("first"))
        .unwrap()
        .send_from_editor(hover())
        .is_none());
    assert!(manager.channel(&key("second")).is_none());
    let messages = manager.initialized(&key("first"), vec![document(3), document(4)]);
    assert!(manager
        .channel(&key("first"))
        .unwrap()
        .send_from_editor(hover())
        .is_some());
    assert_eq!(messages.len(), 2);
    match &messages[1] {
        LspServerProcessMessage::FromEditor(FromEditor::TextDocumentDidOpen {
            file_path,
            language_id,
            version,
            content,
        }) => {
            assert_eq!(file_path.as_str(), "/work/main.rs");
            assert_eq!(language_id, "rust");
            assert_eq!(*version, 4);
            assert_eq!(content, "fn main() {}");
        }
        _ => panic!("expected the document to be opened"),
    }
    assert!(matches!(
        manager.open_file(key("first"), document(1), true, 0),
        OpenAction::Notify(_)
    ));
    assert!(matches!(
        manager.ensure_file_server(key("first"), document(1), true, 0),
        OpenAction::Nothing
    ));
    assert!(matches!(
        manager.open_file(key("first"), document(1), false, 0),
        OpenAction::Nothing
    ));
    assert!(matches!(
        manager.ensure_file_server(key("first"), document(1), false, SECOND / 4),
        OpenAction::Start(_)
    ));
    assert!(manager.initialized(&key("first"), vec![document(3)]).is_empty());
}

#[test]
fn only_primary_servers_fail_loudly() {
    let mut manager = LspManager::new(path("/work"));
    assert!(manager.server_start_failed(key("first"), true, 0));
    assert!(!manager.server_start_failed(key("second"), false, 0));
    assert!(!manager.server_can_start(&key("second"), 0));
}

#[test]
fn shutdown_takes_out_all_servers() {
    let mut manager = manager_with_server();
    manager.server_started(key("second"), channel(false), 0);
    let taken = manager.shutdown();
    assert_eq!(taken.len(), 2);
    assert!(manager.shutdown().is_empty());
    assert_eq!(SHUTDOWN_GRACE, SECOND / 2);
    assert!(matches!(
        taken[0].1.request_shutdown(),
        LspServerProcessMessage::Shutdown
    ));
}

#[test]
fn restart_takes_out_the_servers_of_a_workspace() {
    let mut manager = manager_with_server();
    manager.server_started(key("second"), channel(false), 0);
    let elsewhere = LspManager::server_key(&language(), "first", &path("/other")).unwrap();
    manager.server_started(elsewhere, channel(false), 0);
    assert!(manager.restart("java", &path("/work")).is_empty());
    assert_eq!(manager.restart("rust", &path("/work")).len(), 2);
    assert_eq!(manager.shutdown().len(), 1);
}

/// A file system, as the paths that exist. A path that ends in `/` is a directory.
fn directories(paths: &[&str], file: &str) -> Vec<Directory> {
    let mut all = ancestors_of(file);
    all.remove(0);
    all.iter()
        .map(|directory| {
            let prefix = if directory == "/" {
                "/".to_string()
            } else {
                format!("{directory}/")
            };
            let mut entries: Vec<Entry> = Vec::new();
            for existing in paths {
                if let Some(rest) = existing.strip_prefix(&prefix) {
                    let name = rest.split('/').next().unwrap().to_string();
                    if !name.is_empty() {
                        entries.push(Entry {
                            is_directory: rest.contains('/'),
                            exists: true,
                            name,
                        });
                    }
                }
            }
            Directory {
                path: path(directory),
                entries,
            }
        })
        .collect()
}

fn root_in(cwd: &str, language_id: &str, is_csharp: bool, paths: &[&str], file: &str) -> String {
    let language = LanguageInfo {
        id: Some(language_id.to_string()),
        is_csharp,
        servers: vec![],
    };
    LspManager::new(path(cwd))
        .lsp_root_for_path(&language, &directories(paths, file))
        .display_absolute()
}

#[test]
fn lsp_root_prefers_nested_package_workspace_root() {
    let file = "/tmp/frontends/apps/launch/app/app.vue";
    assert_eq!(
        root_in(
            "/tmp",
            "vue",
            false,
            &["/tmp/frontends/pnpm-workspace.yaml", file],
            file
        ),
        "/tmp/frontends"
    );
}

#[test]
fn lsp_root_treats_pnpm_lockfile_as_package_root() {
    let file = "/tmp/frontends/apps/launch/app/app.vue";
    assert_eq!(
        root_in(
            "/tmp",
            "vue",
            false,
            &["/tmp/frontends/pnpm-lock.yaml", file],
            file
        ),
        "/tmp/frontends"
    );
}

#[test]
fn lsp_root_falls_back_to_package_and_cwd() {
    let file = "/tmp/a/b/app.vue";
    assert_eq!(
        root_in("/tmp", "vue", false, &["/tmp/a/package.json", file], file),
        "/tmp/a"
    );
    assert_eq!(
        root_in(
            "/tmp",
            "vue",
            false,
            &["/tmp/a/package.json", "/tmp/yarn.lock", file],
            file
        ),
        "/tmp"
    );
    assert_eq!(
        root_in("/tmp/a", "vue", false, &["/tmp/yarn.lock", file], file),
        "/tmp/a"
    );
    for marker in [
        "pnpm-workspace.yml",
        "package-lock.json",
        "bun.lockb",
        "bun.lock",
    ] {
        let marker = format!("/tmp/a/{marker}");
        assert_eq!(
            root_in("/", "vue", false, &[&marker, file], file),
            "/tmp/a"
        );
    }
}

#[test]
fn csharp_lsp_root_prefers_solution_over_project() {
    let file = "/tmp/services/api/src/App/Program.cs";
    assert_eq!(
        root_in(
            "/tmp",
            "csharp",
            true,
            &[
                "/tmp/services/api/App.sln",
                "/tmp/services/api/src/App/App.csproj",
                file
            ],
            file
        ),
        "/tmp/services/api"
    );
}

#[test]
fn csharp_lsp_root_falls_back_to_nearest_project() {
    let file = "/tmp/src/App/Program.cs";
    assert_eq!(
        root_in(
            "/tmp",
            "csharp",
            true,
            &["/tmp/src/App/App.csproj", "/tmp/App.csproj", file],
            file
        ),
        "/tmp/src/App"
    );
}

#[test]
fn csharp_extensions_are_recognized_in_any_case() {
    let file = "/tmp/a/b/Program.cs";
    assert_eq!(
        root_in("/tmp", "csharp", true, &["/tmp/a/App.SlnX", file], file),
        "/tmp/a"
    );
    assert_eq!(
        root_in("/tmp", "csharp", true, &["/tmp/a/.sln", file], file),
        "/tmp"
    );
    assert_eq!(
        root_in(
            "/tmp",
            "csharp",
            true,
            &["/tmp/a/package.json", "/tmp/yarn.lock", file],
            file
        ),
        "/tmp/a"
    );
}

fn java(cwd: &str, paths: &[&str], file: &str) -> String {
    root_in(cwd, "java", false, paths, file)
}

#[test]
fn java_lsp_root_falls_back_to_maven_project() {
    let file = "/tmp/service/src/main/java/App.java";
    assert_eq!(
        java("/tmp", &["/tmp/service/pom.xml", file], file),
        "/tmp/service"
    );
}

#[test]
fn java_lsp_root_falls_back_to_gradle_projects() {
    for (name, marker) in [("groovy", "build.gradle"), ("kotlin", "build.gradle.kts")] {
        let file = format!("/tmp/{name}/src/main/java/App.java");
        let marker = format!("/tmp/{name}/{marker}");
        assert_eq!(
            java("/tmp", &[&marker, &file], &file),
            format!("/tmp/{name}")
        );
    }
}

#[test]
fn java_lsp_root_prefers_wrapper_over_child_project() {
    let file = "/tmp/services/app/src/App.java";
    assert_eq!(
        java(
            "/tmp",
            &["/tmp/gradlew", "/tmp/services/app/pom.xml", file],
            file
        ),
        "/tmp"
    );
}

#[test]
fn java_lsp_root_prefers_nearest_nested_settings() {
    let file = "/tmp/platform/app/src/App.java";
    assert_eq!(
        java(
            "/tmp",
            &[
                "/tmp/settings.gradle",
                "/tmp/platform/settings.gradle.kts",
                file
            ],
            file
        ),
        "/tmp/platform"
    );
}

#[test]
fn java_lsp_root_recognizes_all_workspace_markers() {
    for (index, marker) in [
        "settings.gradle",
        "settings.gradle.kts",
        "gradlew",
        "gradlew.bat",
        "mvnw",
        "mvnw.cmd",
        ".mvn/",
    ]
    .into_iter()
    .enumerate()
    {
        let file = format!("/tmp/project-{index}/src/App.java");
        let marker = format!("/tmp/project-{index}/{marker}");
        assert_eq!(
            java("/tmp", &[&marker, &file], &file),
            format!("/tmp/project-{index}")
        );
    }
    let file = "/tmp/project/src/App.java";
    assert_eq!(
        java("/tmp", &["/tmp/project/.mvn", file], file),
        "/tmp/project/src"
    );
}

#[test]
fn java_lsp_root_ignores_node_package_markers() {
    let file = "/tmp/web/src/App.java";
    assert_eq!(
        java(
            "/tmp",
            &["/tmp/pnpm-workspace.yaml", "/tmp/web/src/package.json", file],
            file
        ),
        "/tmp/web/src"
    );
}

#[test]
fn java_lsp_root_for_standalone_file_is_file_parent() {
    let file = "/tmp/scratch/deep/App.java";
    assert_eq!(java("/tmp", &[file], file), "/tmp/scratch/deep");
}

#[test]
fn java_lsp_root_does_not_search_above_cwd() {
    let file = "/tmp/workspace/scratch/App.java";
    assert_eq!(
        java("/tmp/workspace", &["/tmp/settings.gradle", file], file),
        "/tmp/workspace/scratch"
    );
}

#[test]
fn java_lsp_root_outside_cwd_searches_file_ancestors() {
    let file = "/tmp/outside/service/src/App.java";
    assert_eq!(
        java(
            "/tmp/cwd",
            &["/tmp/cwd/", "/tmp/outside/service/pom.xml", file],
            file
        ),
        "/tmp/outside/service"
    );
}

#[test]
fn java_lsp_root_outside_cwd_standalone_falls_back_to_file_parent() {
    let file = "/tmp/outside/scratch/App.java";
    assert_eq!(
        java("/tmp/cwd", &["/tmp/cwd/", file], file),
        "/tmp/outside/scratch"
    );
}

#[test]
fn java_lsp_root_keeps_projects_distinct() {
    let paths = [
        "/tmp/api/pom.xml",
        "/tmp/api/src/App.java",
        "/tmp/worker/pom.xml",
        "/tmp/worker/src/App.java",
    ];
    assert_ne!(
        java("/tmp", &paths, "/tmp/api/src/App.java"),
        java("/tmp", &paths, "/tmp/worker/src/App.java")
    );
}

#[test]
fn broken_pipe_is_a_transport_error() {
    assert!(is_transport_error(&SendError::BrokenPipe));
    assert!(!is_transport_error(&SendError::Other(
        "invalid request".to_string()
    )));
}

fn shutdown_ends_with_a_kill() {
    let channel = channel(false);
    assert!(channel.send_from_editor(hover()).is_none());
    assert!(matches!(
        channel.request_shutdown(),
        LspServerProcessMessage::Shutdown
    ));
    // The leader of the group may be gone while what it started sleeps on.
    for (poll, expected) in [
        (ChildPoll::Exited, WaitAction::KillGroup),
        (ChildPoll::Running, WaitAction::Kill),
        (ChildPoll::Failed, WaitAction::Kill),
    ] {
        assert_eq!(channel.wait_for_exit_until(poll, 10, 10), expected);
    }
    assert_eq!(channel.process_group.target(), Some(-7));
    assert!(channel.process_group.is_gone(0, false));
    assert!(channel.process_group.is_gone(-1, true));
    assert!(!channel.process_group.is_gone(-1, false));
    assert_eq!(ProcessGroup(u32::MAX).target(), None);
}

#[test]
fn process_shutdown_before_initialization_kills_the_process_tree() {
    shutdown_ends_with_a_kill();
}

#[test]
fn lifecycle_shutdown_before_initialization_kills_the_process_tree() {
    shutdown_ends_with_a_kill();
}

#[test]
fn process_channel_reports_exited_child() {
    let channel = channel(false);
    assert!(!channel.is_running(ChildPoll::Exited));
    assert!(!channel.is_running(ChildPoll::Failed));
    assert!(channel.is_running(ChildPoll::Running));
}

#[test]
fn waiting_goes_on_until_the_deadline() {
    let channel = channel(true);
    assert_eq!(
        channel.wait_for_exit_until(ChildPoll::Running, 9, 10),
        WaitAction::Sleep
    );
    assert_eq!(
        channel.wait_for_exit_until(ChildPoll::Exited, 9, 10),
        WaitAction::KillGroup
    );
    assert_eq!(
        channel.wait_for_exit_until(ChildPoll::Failed, 0, 10),
        WaitAction::Kill
    );
}

fn start_config(server_language_id: Option<&str>) -> StartConfig {
    StartConfig {
        server_id: "test".to_string(),
        root: path("/work"),
        diagnostic_mode: LspDiagnosticMode::Pull,
        initialization_options: None,
        vue_typescript_plugin: None,
        server_language_id: server_language_id.map(str::to_string),
        language_id: Some("rust".to_string()),
    }
}

#[test]
fn starting_needs_all_streams() {
    let spawned = |has_stdin, has_stdout, has_stderr| Spawned {
        id: 7,
        has_stdin,
        has_stdout,
        has_stderr,
    };
    let error = |spawned| LspServerProcess::start(start_config(None), spawned).err();
    assert_eq!(
        error(spawned(false, false, false)),
        Some(StartError::NoStdin)
    );
    assert_eq!(error(spawned(true, true, false)), Some(StartError::NoStderr));
    assert_eq!(error(spawned(true, false, true)), Some(StartError::NoStdout));
    assert_eq!(StartError::NoStdin.message(), "Unable to obtain stdin");
    assert_eq!(StartError::NoStderr.message(), "Unable to obtain stderr");
    assert_eq!(StartError::NoStdout.message(), "Unable to obtain stdout");
    let started =
        LspServerProcess::start(start_config(Some("other")), spawned(true, true, true)).unwrap();
    assert_eq!(started.channel.language_id.as_deref(), Some("other"));
    assert_eq!(started.channel.process_group, ProcessGroup(7));
    assert!(!started.channel.is_initialized());
    assert_eq!(started.outcome.actions.len(), 1);
    assert_eq!(started.process.next_request_id, 1);
    let started =
        LspServerProcess::start(start_config(None), spawned(true, true, true)).unwrap();
    assert_eq!(started.channel.language_id.as_deref(), Some("rust"));
}

#[test]
fn documents_without_a_language_are_not_opened() {
    let mut nameless = channel(true);
    nameless.language_id = None;
    assert!(nameless.document_did_open(document(1)).is_none());
    assert!(channel(false).document_did_open(document(1)).is_none());
    let mut channel = channel(false);
    channel.initialized();
    assert!(channel.document_did_open(document(1)).is_some());
    assert_eq!(channel.documents_did_open(vec![document(1)]).len(), 1);
}

fn options(text: &str) -> Json {
    parse_json(text).unwrap()
}

#[test]
fn missing_configured_paths_are_warned_of() {
    let options = options(
        "{\"typescript\":{\"tsdk\":\"lib\"},\"vtsls\":{\"tsserver\":{\"globalPlugins\":[{\"name\":\"p\",\"location\":\"/there\"},{\"name\":\"none\"},{\"location\":\"${vue_typescript_plugin}\"},{\"name\":\"q\\\"\",\"location\":\"gone\"}]}}}",
    );
    let paths = configured_lsp_paths(&options, &path("/work"), None);
    let resolved: Vec<Option<&str>> = paths.iter().map(|path| path.resolved.as_deref()).collect();
    assert_eq!(
        resolved,
        vec![Some("/work/lib"), Some("/there"), None, Some("/work/gone")]
    );
    let warnings =
        warn_missing_configured_lsp_paths("vtsls", &paths, &[false, true, false, false]);
    assert_eq!(
        warnings,
        vec![
            "Configured LSP path for server 'vtsls' does not exist: typescript tsdk \"lib\" resolved to /work/lib. If the server is installed/configured through Nix or another package manager, override this path in Ki config.",
            "Unable to resolve configured LSP plugin placeholder for server 'vtsls': plugin \"<unknown plugin>\" location \"${vue_typescript_plugin}\". If the plugin is provided by Nix or another package manager, override this location in Ki config.",
            "Configured LSP plugin path for server 'vtsls' does not exist: plugin \"q\\\"\" location \"gone\" resolved to /work/gone. If the plugin is provided by Nix or another package manager, override this location in Ki config.",
        ]
    );
}

#[test]
fn unresolved_sdk_is_the_only_warning() {
    let options = options(
        "{\"typescript.tsdk\":\"${vue_typescript_plugin}\",\"vtsls\":{\"tsserver\":{\"globalPlugins\":[{\"location\":\"gone\"}]}}}",
    );
    let paths = configured_lsp_paths(&options, &path("/work"), None);
    assert_eq!(paths.len(), 1);
    assert_eq!(
        warn_of_path("s", &paths[0], false, "'shown'", "").unwrap(),
        "Unable to resolve configured TypeScript SDK placeholder 'shown' for LSP server 's'"
    );
    let paths = configured_lsp_paths(&options_without_sdk(), &path("/work"), None);
    assert!(paths.is_empty());
}

fn options_without_sdk() -> Json {
    options("{\"typescript\":{\"tsdk\":17},\"typescript.tsdk\":\"lib\"}")
}
