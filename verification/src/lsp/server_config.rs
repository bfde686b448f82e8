//! How a language server is configured, and what the placeholders in its configuration stand for.

use crate::json::{member, parse_json, parsed_json, Json, JsonSpec};
use crate::lsp::workspace_data::WorkspaceDataLease;
use crate::path::{
    ancestors, ancestors_of, join, joined, law_joined_paths_follow_the_directory, parent, parent_of,
    AbsolutePath,
};
use crate::process_command::ProcessCommand;
use crate::table::TextTable;
use crate::text::{
    contains_text, law_replacements_are_not_reprocessed, law_substitution_keeps_other_text,
    law_substitution_splits, occurs_at, pieces, replace, replaced, rule_applies, rules_view, split,
    str_contains, str_eq, substitute, substituted, text_of, texts,
};
use vstd::prelude::*;

verus! {

/// How a server tells about diagnostics.
#[derive(Clone, Copy, Debug, PartialEq, Eq, Structural)]
pub enum LspDiagnosticMode {
    /// The server sends them.
    Push,
    /// The editor asks for them.
    Pull,
    Both,
}

/// What the placeholders of a launch command stand for. Without a directory for the server's data,
/// its placeholder stands for itself.
pub open spec fn launch_rules(workspace: Seq<char>, data_dir: Option<Seq<char>>) -> Seq<
    (Seq<char>, Seq<char>),
> {
    seq![
        ("${workspace}"@, workspace),
        (
            "${lsp_data_dir}"@,
            match data_dir {
                Some(data_dir) => data_dir,
                None => "${lsp_data_dir}"@,
            },
        ),
    ]
}

/// The text that a value of a launch command comes to.
pub open spec fn launch_text(
    value: Seq<char>,
    workspace: Seq<char>,
    data_dir: Option<Seq<char>>,
) -> Seq<char> {
    substituted(value, launch_rules(workspace, data_dir))
}

/// Fills in the placeholders of a launch command. What is filled in is not read again.
pub fn resolve_launch_placeholders(value: &str, workspace: &str, data_dir: Option<&str>) -> (result:
    String)
    ensures
        result@ == launch_text(value@, workspace@, text_of(data_dir)),
{
    let given = match data_dir {
        Some(data_dir) => data_dir,
        None => "${lsp_data_dir}",
    };
    let rules = [("${workspace}", workspace), ("${lsp_data_dir}", given)];
    let rules: &[(&str, &str)] = &rules;
    assert(rules_view(rules@) =~= launch_rules(workspace@, text_of(data_dir)));
    substitute(value, rules)
}

/// Whether a text asks for a directory for the server's data.
pub open spec fn wants_data_dir(value: Seq<char>) -> bool {
    contains_text(value, "${lsp_data_dir}"@)
}

/// Whether a command asks for a directory for the server's data: in its name, in an argument, or in
/// what it adds to the environment.
pub open spec fn command_wants_data_dir(command: ProcessCommand) -> bool {
    ||| wants_data_dir(command.spec_command())
    ||| exists|i: int|
        0 <= i < command.spec_arguments().len() && wants_data_dir(
            #[trigger] command.spec_arguments()[i],
        )
    ||| exists|key: Seq<char>|
        command.spec_environment().dom().contains(key) && wants_data_dir(
            #[trigger] command.spec_environment()[key],
        )
}

/// Whether a command asks for a directory for the server's data. See [`command_wants_data_dir`].
pub fn needs_data_dir(command: &ProcessCommand) -> (needs: bool)
    ensures
        needs == command_wants_data_dir(*command),
{
    if str_contains(command.command(), "${lsp_data_dir}") {
        return true;
    }
    let arguments = command.arguments();
    let mut i: usize = 0;
    while i < arguments.len()
        invariant
            i <= arguments.len(),
            texts(arguments@) == command.spec_arguments(),
            forall|j: int|
                0 <= j < i ==> !wants_data_dir(#[trigger] command.spec_arguments()[j]),
        decreases arguments.len() - i,
    {
        if str_contains(arguments[i].as_str(), "${lsp_data_dir}") {
            assert(wants_data_dir(command.spec_arguments()[i as int]));
            return true;
        }
        i += 1;
    }
    let environment = command.environment();
    let keys = environment.keys();
    let mut k: usize = 0;
    while k < keys.len()
        invariant
            k <= keys.len(),
            environment@ == command.spec_environment(),
            forall|key: Seq<char>|
                environment@.dom().contains(key) <==> exists|i: int|
                    0 <= i < keys@.len() && #[trigger] keys@[i]@ == key,
            forall|j: int|
                0 <= j < k ==> !wants_data_dir(
                    command.spec_environment()[(#[trigger] keys@[j])@],
                ),
        decreases keys.len() - k,
    {
        if let Some(value) = environment.get(keys[k].as_str()) {
            if str_contains(value, "${lsp_data_dir}") {
                assert(wants_data_dir(command.spec_environment()[keys@[k as int]@]));
                return true;
            }
        } else {
            assert(environment@.dom().contains(keys@[k as int]@));
        }
        k += 1;
    }
    assert forall|key: Seq<char>| command.spec_environment().dom().contains(key) implies
        !wants_data_dir(#[trigger] command.spec_environment()[key]) by {
        let i = choose|i: int| 0 <= i < keys@.len() && #[trigger] keys@[i]@ == key;
    }
    false
}

/// The arguments with their placeholders filled in.
pub open spec fn launch_arguments(
    arguments: Seq<Seq<char>>,
    workspace: Seq<char>,
    data_dir: Option<Seq<char>>,
) -> Seq<Seq<char>> {
    Seq::new(arguments.len(), |i: int| launch_text(arguments[i], workspace, data_dir))
}

/// The environment with the placeholders in its values filled in.
pub open spec fn launch_environment(
    environment: Map<Seq<char>, Seq<char>>,
    workspace: Seq<char>,
    data_dir: Option<Seq<char>>,
) -> Map<Seq<char>, Seq<char>> {
    environment.map_values(|value: Seq<char>| launch_text(value, workspace, data_dir))
}

/// A command that starts a server, with the directory for the server's data, if it has one.
pub struct ResolvedProcessCommand {
    pub command: ProcessCommand,
    pub workspace_data_lease: Option<WorkspaceDataLease>,
}

/// The directory of a lease, where there is one.
pub open spec fn leased_dir(lease: Option<WorkspaceDataLease>) -> Option<Seq<char>> {
    match lease {
        Some(lease) => Some(lease.spec_data_dir()),
        None => None,
    }
}

/// The command that starts a server for the workspace `root`. The lease is for the directory of the
/// server's data, if the command asks for one: see [`needs_data_dir`].
pub fn resolve_process_command(
    command: &ProcessCommand,
    root: &AbsolutePath,
    workspace_data_lease: Option<WorkspaceDataLease>,
) -> (resolved: ResolvedProcessCommand)
    ensures
        resolved.workspace_data_lease == workspace_data_lease,
        resolved.command.spec_command() == launch_text(
            command.spec_command(),
            root@,
            leased_dir(workspace_data_lease),
        ),
        resolved.command.spec_arguments() == launch_arguments(
            command.spec_arguments(),
            root@,
            leased_dir(workspace_data_lease),
        ),
        resolved.command.spec_environment() == launch_environment(
            command.spec_environment(),
            root@,
            leased_dir(workspace_data_lease),
        ),
{
    let data_dir = match &workspace_data_lease {
        Some(lease) => Some(lease.data_dir()),
        None => None,
    };
    let command = resolve_command(command, root, data_dir);
    ResolvedProcessCommand { command, workspace_data_lease }
}

fn resolve_command(command: &ProcessCommand, root: &AbsolutePath, data_dir: Option<&str>) -> (
resolved: ProcessCommand)
    ensures
        resolved.spec_command() == launch_text(command.spec_command(), root@, text_of(data_dir)),
        resolved.spec_arguments() == launch_arguments(
            command.spec_arguments(),
            root@,
            text_of(data_dir),
        ),
        resolved.spec_environment() == launch_environment(
            command.spec_environment(),
            root@,
            text_of(data_dir),
        ),
{
    let workspace = root.as_str();
    let name = resolve_launch_placeholders(command.command(), workspace, data_dir);
    let arguments = command.arguments();
    let mut resolved: Vec<String> = Vec::new();
    let mut i: usize = 0;
    while i < arguments.len()
        invariant
            i <= arguments.len(),
            resolved@.len() == i,
            forall|j: int|
                0 <= j < i ==> (#[trigger] resolved@[j])@ == launch_text(
                    arguments@[j]@,
                    workspace@,
                    text_of(data_dir),
                ),
        decreases arguments.len() - i,
    {
        resolved.push(resolve_launch_placeholders(arguments[i].as_str(), workspace, data_dir));
        i += 1;
    }
    assert(texts(resolved@) =~= launch_arguments(texts(arguments@), root@, text_of(data_dir)));
    let environment = command.environment();
    let keys = environment.keys();
    let mut filled = TextTable::new();
    let mut k: usize = 0;
    while k < keys.len()
        invariant
            k <= keys.len(),
            forall|key: Seq<char>|
                environment@.dom().contains(key) <==> exists|i: int|
                    0 <= i < keys@.len() && #[trigger] keys@[i]@ == key,
            forall|key: Seq<char>|
                filled@.dom().contains(key) <==> exists|i: int|
                    0 <= i < k && #[trigger] keys@[i]@ == key,
            forall|key: Seq<char>| #[trigger]
                filled@.dom().contains(key) ==> filled@[key] == launch_text(
                    environment@[key],
                    workspace@,
                    text_of(data_dir),
                ),
        decreases keys.len() - k,
    {
        if let Some(value) = environment.get(keys[k].as_str()) {
            let text = resolve_launch_placeholders(value, workspace, data_dir);
            let ghost before = filled@;
            filled.insert(keys[k].as_str(), text.as_str());
            assert forall|key: Seq<char>|
                filled@.dom().contains(key) <==> exists|i: int|
                    0 <= i < k + 1 && #[trigger] keys@[i]@ == key by {
                if before.dom().contains(key) {
                    let i = choose|i: int| 0 <= i < k && #[trigger] keys@[i]@ == key;
                    assert(keys@[i]@ == key);
                }
                if key == keys@[k as int]@ {
                    assert(keys@[k as int]@ == key);
                }
            }
        } else {
            assert(environment@.dom().contains(keys@[k as int]@));
        }
        k += 1;
    }
    assert(filled@ =~= launch_environment(environment@, root@, text_of(data_dir)));
    ProcessCommand::with_environment(name.as_str(), resolved.as_slice(), &filled)
}

/// The text that a text of a server's options comes to. `plugin` is where the TypeScript plugin for
/// Vue is, if it is there.
pub open spec fn option_text(
    text: Seq<char>,
    root: Seq<char>,
    plugin: Option<Seq<char>>,
) -> Seq<char> {
    if text == "${vue_typescript_plugin}"@ {
        match plugin {
            Some(plugin) => plugin,
            None => text,
        }
    } else {
        replaced(text, "${workspace}"@, root)
    }
}

/// What a server's options come to: the same value, with the placeholders in its texts filled in.
pub open spec fn option_value(
    value: JsonSpec,
    root: Seq<char>,
    plugin: Option<Seq<char>>,
) -> JsonSpec
    decreases value,
{
    match value {
        JsonSpec::Text(text) => JsonSpec::Text(option_text(text, root, plugin)),
        JsonSpec::Array(items) => JsonSpec::Array(
            Seq::new(
                items.len(),
                |i: int|
                    if 0 <= i < items.len() {
                        option_value(items[i], root, plugin)
                    } else {
                        JsonSpec::Null
                    },
            ),
        ),
        JsonSpec::Object(members) => JsonSpec::Object(
            Seq::new(
                members.len(),
                |i: int|
                    if 0 <= i < members.len() {
                        (members[i].0, option_value(members[i].1, root, plugin))
                    } else {
                        (Seq::empty(), JsonSpec::Null)
                    },
            ),
        ),
        other => other,
    }
}

/// Fills in the placeholders of a value of a server's options. See [`option_value`].
pub fn resolve_value(value: &Json, root: &AbsolutePath, plugin: Option<&str>) -> (resolved: Json)
    ensures
        resolved@ == option_value(value@, root@, text_of(plugin)),
    decreases value,
{
    match value {
        Json::Text(text) => resolve_string(text.as_str(), root, plugin),
        Json::Array(items) => {
            let mut resolved: Vec<Json> = Vec::new();
            let mut i: usize = 0;
            while i < items.len()
                invariant
                    i <= items.len(),
                    *value == Json::Array(*items),
                    resolved@.len() == i,
                    forall|j: int|
                        0 <= j < i ==> (#[trigger] resolved@[j])@ == option_value(
                            items@[j]@,
                            root@,
                            text_of(plugin),
                        ),
                decreases items.len() - i,
            {
                assert(decreases_to!(*value => value->Array_0@[i as int]));
                resolved.push(resolve_value(&items[i], root, plugin));
                i += 1;
            }
            let json = Json::Array(resolved);
            assert(json@->Array_0 =~= option_value(value@, root@, text_of(plugin))->Array_0);
            json
        },
        Json::Object(members) => {
            let mut resolved: Vec<(String, Json)> = Vec::new();
            let mut i: usize = 0;
            while i < members.len()
                invariant
                    i <= members.len(),
                    *value == Json::Object(*members),
                    resolved@.len() == i,
                    forall|j: int|
                        0 <= j < i ==> (#[trigger] resolved@[j]).0@ == members@[j].0@
                            && resolved@[j].1@ == option_value(
                            members@[j].1@,
                            root@,
                            text_of(plugin),
                        ),
                decreases members.len() - i,
            {
                assert(decreases_to!(*value => value->Object_0@[i as int].1));
                let member = (
                    members[i].0.clone(),
                    resolve_value(&members[i].1, root, plugin),
                );
                resolved.push(member);
                i += 1;
            }
            let json = Json::Object(resolved);
            assert(json@->Object_0 =~= option_value(value@, root@, text_of(plugin))->Object_0);
            json
        },
        _ => value.copy(),
    }
}

fn resolve_string(value: &str, root: &AbsolutePath, plugin: Option<&str>) -> (resolved: Json)
    ensures
        resolved@ == JsonSpec::Text(option_text(value@, root@, text_of(plugin))),
{
    if str_eq(value, "${vue_typescript_plugin}") {
        return match plugin {
            Some(plugin) => Json::text(plugin),
            None => Json::text(value),
        };
    }
    Json::Text(replace(value, "${workspace}", root.as_str()))
}

/// The options that a server is started with: the configured ones, with their placeholders filled
/// in.
pub fn resolve_initialization_options(
    value: Option<&Json>,
    root: &AbsolutePath,
    plugin: Option<&str>,
) -> (resolved: Option<Json>)
    ensures
        match (value, resolved) {
            (Some(value), Some(resolved)) => resolved@ == option_value(
                value@,
                root@,
                text_of(plugin),
            ),
            (None, None) => true,
            _ => false,
        },
{
    match value {
        Some(value) => Some(resolve_value(value, root, plugin)),
        None => None,
    }
}

/// The path that a path in a server's configuration comes to.
pub open spec fn configured_path(
    path: Seq<char>,
    root: Seq<char>,
    plugin: Option<Seq<char>>,
) -> Option<Seq<char>> {
    if path == "${vue_typescript_plugin}"@ {
        plugin
    } else {
        Some(joined(root, replaced(path, "${workspace}"@, root)))
    }
}

/// The path that a path in a server's configuration comes to. `plugin` is where the TypeScript
/// plugin for Vue is, if it is there.
pub fn resolve_configured_path(root: &AbsolutePath, path: &str, plugin: Option<&str>) -> (resolved:
    Option<String>)
    ensures
        match resolved {
            Some(resolved) => configured_path(path@, root@, text_of(plugin)) == Some(resolved@),
            None => configured_path(path@, root@, text_of(plugin)) is None,
        },
{
    if str_eq(path, "${vue_typescript_plugin}") {
        return match plugin {
            Some(plugin) => Some(plugin.to_owned()),
            None => None,
        };
    }
    let path = replace(path, "${workspace}", root.as_str());
    Some(join(root.as_str(), path.as_str()))
}

/// Whether a package manifest gives the package the name `package`.
pub open spec fn names_package(manifest: JsonSpec, package: Seq<char>) -> bool {
    match manifest.get("name"@) {
        Some(name) => name.as_text() == Some(package),
        None => false,
    }
}

/// Whether a package manifest gives the package the name `package`.
pub fn manifest_names(manifest: &Json, package: &str) -> (names: bool)
    ensures
        names == names_package(manifest@, package@),
{
    match manifest.get("name") {
        Some(name) => match name.as_text() {
            Some(name) => str_eq(name, package),
            None => false,
        },
        None => false,
    }
}

/// Whether the file `manifest`, where it can be read, is the manifest of the package `package`.
pub open spec fn is_manifest_of(manifest: Option<String>, package: Seq<char>) -> bool {
    match manifest {
        Some(text) => match parsed_json(text@) {
            Some(value) => names_package(value, package),
            None => false,
        },
        None => false,
    }
}

/// The first of `directories` whose package manifest names the package `package`. The manifests, as
/// far as they can be read, are given in the same order.
pub open spec fn package_directory(
    directories: Seq<Seq<char>>,
    manifests: Seq<Option<String>>,
    package: Seq<char>,
) -> Option<Seq<char>>
    decreases directories.len(),
{
    if directories.len() == 0 || manifests.len() == 0 {
        None
    } else if is_manifest_of(manifests[0], package) {
        Some(directories[0])
    } else {
        package_directory(directories.skip(1), manifests.skip(1), package)
    }
}

/// The nearest directory, from `path` up, that holds the package `package`. The package manifests
/// of `path` and the directories above it, as far as they can be read, are given in that order.
pub fn find_package_ancestor(path: &str, package: &str, manifests: &[Option<String>]) -> (directory:
    Option<String>)
    ensures
        match directory {
            Some(directory) => package_directory(ancestors(path@), manifests@, package@) == Some(
                directory@,
            ),
            None => package_directory(ancestors(path@), manifests@, package@) is None,
        },
{
    let directories = ancestors_of(path);
    let ghost all = texts(directories@);
    let mut i: usize = 0;
    assert(all.skip(0) == all);
    assert(manifests@.skip(0) == manifests@);
    while i < directories.len() && i < manifests.len()
        invariant
            i <= directories.len(),
            i <= manifests.len(),
            all == texts(directories@),
            all == ancestors(path@),
            package_directory(all, manifests@, package@) == package_directory(
                all.skip(i as int),
                manifests@.skip(i as int),
                package@,
            ),
        decreases directories.len() - i,
    {
        assert(all.skip(i as int).skip(1) == all.skip(i + 1));
        assert(manifests@.skip(i as int).skip(1) == manifests@.skip(i + 1));
        if let Some(text) = &manifests[i] {
            if let Some(manifest) = parse_json(text.as_str()) {
                if manifest_names(&manifest, package) {
                    assert(is_manifest_of(manifests@[i as int], package@));
                    return Some(directories[i].clone());
                }
            }
        }
        i += 1;
    }
    None
}

/// The paths at which a command is looked for: in each directory of the search path.
pub open spec fn command_candidates(directories: Seq<Seq<char>>, command: Seq<char>) -> Seq<
    Seq<char>,
> {
    Seq::new(directories.len(), |i: int| joined(directories[i], command))
}

/// The paths at which a command is looked for, in the order in which they are tried. `search_path`
/// holds directories with `:` between them.
pub fn search_candidates(search_path: &str, command: &str) -> (candidates: Vec<String>)
    ensures
        texts(candidates@) == command_candidates(pieces(search_path@, ':'), command@),
{
    let directories = split(search_path, ':');
    let mut candidates: Vec<String> = Vec::new();
    let mut i: usize = 0;
    while i < directories.len()
        invariant
            i <= directories.len(),
            candidates@.len() == i,
            forall|j: int|
                0 <= j < i ==> (#[trigger] candidates@[j])@ == joined(directories@[j]@, command@),
        decreases directories.len() - i,
    {
        candidates.push(join(directories[i].as_str(), command));
        i += 1;
    }
    assert(texts(candidates@) =~= command_candidates(texts(directories@), command@));
    candidates
}

/// The first of `candidates` that is there.
pub open spec fn first_existing(candidates: Seq<Seq<char>>, exists_at: Seq<bool>) -> Option<
    Seq<char>,
>
    decreases candidates.len(),
{
    if candidates.len() == 0 || exists_at.len() == 0 {
        None
    } else if exists_at[0] {
        Some(candidates[0])
    } else {
        first_existing(candidates.skip(1), exists_at.skip(1))
    }
}

/// Where a command is: the first of the candidates of the search path that is there. `exists_at`
/// says of each candidate whether it is.
pub fn find_in_path(search_path: &str, command: &str, exists_at: &[bool]) -> (found: Option<String>)
    ensures
        match found {
            Some(found) => first_existing(
                command_candidates(pieces(search_path@, ':'), command@),
                exists_at@,
            ) == Some(found@),
            None => first_existing(
                command_candidates(pieces(search_path@, ':'), command@),
                exists_at@,
            ) is None,
        },
{
    let candidates = search_candidates(search_path, command);
    let ghost all = texts(candidates@);
    let mut i: usize = 0;
    assert(all.skip(0) == all);
    assert(exists_at@.skip(0) == exists_at@);
    while i < candidates.len() && i < exists_at.len()
        invariant
            i <= candidates.len(),
            i <= exists_at.len(),
            all == texts(candidates@),
            all == command_candidates(pieces(search_path@, ':'), command@),
            first_existing(all, exists_at@) == first_existing(
                all.skip(i as int),
                exists_at@.skip(i as int),
            ),
        decreases candidates.len() - i,
    {
        assert(all.skip(i as int).skip(1) == all.skip(i + 1));
        assert(exists_at@.skip(i as int).skip(1) == exists_at@.skip(i + 1));
        if exists_at[i] {
            return Some(candidates[i].clone());
        }
        i += 1;
    }
    None
}

/// What is known of the places where the TypeScript plugin for Vue can be.
pub struct VuePlaces {
    /// Whether the workspace has the plugin installed.
    pub in_workspace: bool,
    /// The Vue language server of the search path, with all links followed.
    pub language_server: Option<String>,
    /// The package manifests of that path and of the directories above it, as far as they can be
    /// read.
    pub manifests: Vec<Option<String>>,
    /// Whether the installation has the package among its language tools.
    pub in_tools: bool,
    /// Whether the installation has the package among its modules.
    pub in_modules: bool,
}

/// The directory into which the program `program` is installed.
pub open spec fn installation(program: Seq<char>) -> Option<Seq<char>> {
    match parent(program) {
        Some(directory) => parent(directory),
        None => None,
    }
}

/// Where the TypeScript plugin for Vue is: in the workspace, or else in the package of the Vue
/// language server, which is looked for above the server's program and then in two places of its
/// installation.
pub open spec fn plugin_location(root: Seq<char>, places: VuePlaces) -> Option<Seq<char>> {
    if places.in_workspace {
        Some(joined(root, "node_modules/@vue/typescript-plugin"@))
    } else {
        match places.language_server {
            None => None,
            Some(server) => match package_directory(
                ancestors(server@),
                places.manifests@,
                "@vue/language-server"@,
            ) {
                Some(directory) => Some(directory),
                None => match installation(server@) {
                    None => None,
                    Some(directory) => if places.in_tools {
                        Some(joined(directory, "lib/language-tools/packages/language-server"@))
                    } else if places.in_modules {
                        Some(joined(directory, "lib/node_modules/@vue/language-server"@))
                    } else {
                        None
                    },
                },
            },
        }
    }
}

/// Where the TypeScript plugin for Vue is. See [`plugin_location`].
pub fn vue_typescript_plugin_location(root: &AbsolutePath, places: &VuePlaces) -> (location: Option<
    String,
>)
    ensures
        match location {
            Some(location) => plugin_location(root@, *places) == Some(location@),
            None => plugin_location(root@, *places) is None,
        },
{
    if places.in_workspace {
        return Some(join(root.as_str(), "node_modules/@vue/typescript-plugin"));
    }
    let server = match &places.language_server {
        Some(server) => server,
        None => {
            return None;
        },
    };
    if let Some(directory) = find_package_ancestor(
        server.as_str(),
        "@vue/language-server",
        places.manifests.as_slice(),
    ) {
        return Some(directory);
    }
    let directory = match parent_of(server.as_str()) {
        Some(directory) => match parent_of(directory.as_str()) {
            Some(directory) => directory,
            None => {
                return None;
            },
        },
        None => {
            return None;
        },
    };
    if places.in_tools {
        Some(join(directory.as_str(), "lib/language-tools/packages/language-server"))
    } else if places.in_modules {
        Some(join(directory.as_str(), "lib/node_modules/@vue/language-server"))
    } else {
        None
    }
}

/// What a launch placeholder stands for is not read again, whatever it holds: wherever a
/// placeholder stands in a text, what it stands for takes its place, between what the text before
/// it and the text behind it come to. Without a directory for data, the placeholder for it stands
/// for itself.
pub proof fn law_launch_values_are_not_reprocessed(
    before: Seq<char>,
    behind: Seq<char>,
    workspace: Seq<char>,
    data_dir: Option<Seq<char>>,
)
    ensures
        launch_text(before + "${workspace}"@ + behind, workspace, data_dir) == launch_text(
            before,
            workspace,
            data_dir,
        ) + workspace + launch_text(behind, workspace, data_dir),
        launch_text(before + "${lsp_data_dir}"@ + behind, workspace, data_dir) == launch_text(
            before,
            workspace,
            data_dir,
        ) + (match data_dir {
            Some(data_dir) => data_dir,
            None => "${lsp_data_dir}"@,
        }) + launch_text(behind, workspace, data_dir),
{
    let rules = launch_rules(workspace, data_dir);
    reveal_strlit("${workspace}");
    reveal_strlit("${lsp_data_dir}");
    let start = launch_text(before, workspace, data_dir);
    let rest = launch_text(behind, workspace, data_dir);
    let first = "${workspace}"@ + behind;
    assert(first.subrange(0, "${workspace}"@.len() as int) =~= "${workspace}"@);
    assert(first.skip("${workspace}"@.len() as int) =~= behind);
    law_replacements_are_not_reprocessed(first, rules, 0);
    law_substitution_splits(before, first, rules, '$');
    assert(before + "${workspace}"@ + behind =~= before + first);
    assert(start + (workspace + rest) =~= start + workspace + rest);
    let second = "${lsp_data_dir}"@ + behind;
    assert(second.subrange(0, "${lsp_data_dir}"@.len() as int) =~= "${lsp_data_dir}"@);
    assert(second.skip("${lsp_data_dir}"@.len() as int) =~= behind);
    assert(second[2] == 'l');
    assert(!rule_applies(second, rules, 0, 0)) by {
        if rule_applies(second, rules, 0, 0) {
            assert("${workspace}"@[2] == second.subrange(0, "${workspace}"@.len() as int)[2]);
        }
    }
    law_replacements_are_not_reprocessed(second, rules, 1);
    law_substitution_splits(before, second, rules, '$');
    assert(before + "${lsp_data_dir}"@ + behind =~= before + second);
    let given = rules[1].1;
    assert(start + (given + rest) =~= start + given + rest);
}

/// Filling in placeholders keeps the shape of a server's options: an array keeps its length, an
/// object keeps the names of its members and their order, and what is neither of them nor a text
/// stays the same.
pub proof fn law_resolution_keeps_the_shape(
    value: JsonSpec,
    root: Seq<char>,
    plugin: Option<Seq<char>>,
)
    ensures
        match (value, option_value(value, root, plugin)) {
            (JsonSpec::Array(items), JsonSpec::Array(resolved)) => {
                &&& items.len() == resolved.len()
                &&& forall|i: int|
                    0 <= i < items.len() ==> #[trigger] resolved[i] == option_value(
                        items[i],
                        root,
                        plugin,
                    )
            },
            (JsonSpec::Object(members), JsonSpec::Object(resolved)) => {
                &&& members.len() == resolved.len()
                &&& forall|i: int|
                    0 <= i < members.len() ==> (#[trigger] resolved[i]).0 == members[i].0
                        && resolved[i].1 == option_value(members[i].1, root, plugin)
            },
            (JsonSpec::Text(text), JsonSpec::Text(resolved)) => resolved == option_text(
                text,
                root,
                plugin,
            ),
            (other, resolved) => other == resolved,
        },
{
}

proof fn lemma_option_member(
    members: Seq<(Seq<char>, JsonSpec)>,
    resolved: Seq<(Seq<char>, JsonSpec)>,
    name: Seq<char>,
    root: Seq<char>,
    plugin: Option<Seq<char>>,
)
    requires
        members.len() == resolved.len(),
        forall|i: int|
            0 <= i < members.len() ==> (#[trigger] resolved[i]).0 == members[i].0 && resolved[i].1
                == option_value(members[i].1, root, plugin),
    ensures
        member(resolved, name) == match member(members, name) {
            Some(value) => Some(option_value(value, root, plugin)),
            None => None,
        },
    decreases members.len(),
{
    if members.len() > 0 {
        let rest = members.drop_last();
        let others = resolved.drop_last();
        assert(resolved[members.len() - 1].0 == members[members.len() - 1].0);
        assert forall|i: int| 0 <= i < rest.len() implies (#[trigger] others[i]).0 == rest[i].0
            && others[i].1 == option_value(rest[i].1, root, plugin) by {
            assert(others[i] == resolved[i]);
        }
        lemma_option_member(rest, others, name, root, plugin);
    }
}

/// What a server's options have under a name is what they had there before, with its placeholders
/// filled in.
pub proof fn law_options_keep_their_members(
    value: JsonSpec,
    name: Seq<char>,
    root: Seq<char>,
    plugin: Option<Seq<char>>,
)
    ensures
        option_value(value, root, plugin).get(name) == match value.get(name) {
            Some(member) => Some(option_value(member, root, plugin)),
            None => None,
        },
        value is Bool || value is Null || value is Unsigned || value is Negative || value is Fraction
            ==> option_value(value, root, plugin) == value,
        value is Text ==> option_value(value, root, plugin) == JsonSpec::Text(
            option_text(value->Text_0, root, plugin),
        ),
{
    if let JsonSpec::Object(members) = value {
        lemma_option_member(
            members,
            option_value(value, root, plugin)->Object_0,
            name,
            root,
            plugin,
        );
    }
}

/// In a text of a server's options, the root of the workspace takes the place of `${workspace}`,
/// wherever it stands, and the rest stays. A text that is just the placeholder for the plugin
/// becomes where the plugin is, where it is known, and else stays.
pub proof fn law_option_texts_are_filled_in(
    before: Seq<char>,
    behind: Seq<char>,
    root: Seq<char>,
    plugin: Option<Seq<char>>,
)
    ensures
        ({
            let text = before + "${workspace}"@ + behind;
            text != "${vue_typescript_plugin}"@ && before != "${vue_typescript_plugin}"@ && behind
                != "${vue_typescript_plugin}"@ ==> option_text(text, root, plugin) == option_text(
                before,
                root,
                plugin,
            ) + root + option_text(behind, root, plugin)
        }),
        before != "${vue_typescript_plugin}"@ && !contains_text(before, "${workspace}"@)
            ==> option_text(before, root, plugin) == before,
        plugin is Some ==> option_text("${vue_typescript_plugin}"@, root, plugin) == plugin->0,
        plugin is None ==> option_text("${vue_typescript_plugin}"@, root, plugin)
            == "${vue_typescript_plugin}"@,
{
    let rules = seq![("${workspace}"@, root)];
    lemma_workspace_replaced(before, behind, root);
    if !contains_text(before, "${workspace}"@) {
        assert forall|at: int, k: int| 0 <= at implies !rule_applies(before, rules, at, k) by {
            if rule_applies(before, rules, at, k) {
                assert(occurs_at(before, "${workspace}"@, at));
            }
        }
        law_substitution_keeps_other_text(before, rules, 0);
        assert(before.skip(0) =~= before);
    }
}

proof fn lemma_workspace_replaced(before: Seq<char>, behind: Seq<char>, root: Seq<char>)
    ensures
        replaced(before + "${workspace}"@ + behind, "${workspace}"@, root) == replaced(
            before,
            "${workspace}"@,
            root,
        ) + root + replaced(behind, "${workspace}"@, root),
{
    let rules = seq![("${workspace}"@, root)];
    reveal_strlit("${workspace}");
    let rest = "${workspace}"@ + behind;
    assert(rest.subrange(0, "${workspace}"@.len() as int) =~= "${workspace}"@);
    assert(rest.skip("${workspace}"@.len() as int) =~= behind);
    law_replacements_are_not_reprocessed(rest, rules, 0);
    law_substitution_splits(before, rest, rules, '$');
    assert(before + "${workspace}"@ + behind =~= before + rest);
    let start = replaced(before, "${workspace}"@, root);
    let end = replaced(behind, "${workspace}"@, root);
    assert(start + (root + end) =~= start + root + end);
}

/// A path in a server's configuration begins at the root of the workspace, unless it begins at the
/// root of the file system. `${workspace}` at its beginning stands for the root of the workspace,
/// and the placeholder for the plugin for where the plugin is.
pub proof fn law_configured_paths_begin_at_the_workspace(
    path: Seq<char>,
    root: Seq<char>,
    plugin: Option<Seq<char>>,
)
    requires
        !contains_text(path, "${workspace}"@),
        path != "${vue_typescript_plugin}"@,
        root.len() > 0 && root[0] == '/',
    ensures
        path.len() > 0 && path[0] == '/' ==> configured_path(path, root, plugin) == Some(path),
        path.len() > 0 && path[0] != '/' && root.last() != '/' ==> configured_path(
            path,
            root,
            plugin,
        ) == Some(root + seq!['/'] + path),
        "${workspace}"@ + path != "${vue_typescript_plugin}"@ ==> configured_path(
            "${workspace}"@ + path,
            root,
            plugin,
        ) == Some(root + path),
        configured_path("${vue_typescript_plugin}"@, root, plugin) == plugin,
{
    law_option_texts_are_filled_in(path, path, root, plugin);
    law_joined_paths_follow_the_directory(root, path);
    let empty = Seq::<char>::empty();
    lemma_workspace_replaced(empty, path, root);
    assert(empty + "${workspace}"@ + path =~= "${workspace}"@ + path);
    reveal_strlit("${workspace}");
    assert(!contains_text(empty, "${workspace}"@)) by {
        if contains_text(empty, "${workspace}"@) {
            let at = choose|at: int| occurs_at(empty, "${workspace}"@, at);
            assert(at + "${workspace}"@.len() <= 0);
        }
    }
    reveal_strlit("${vue_typescript_plugin}");
    assert(empty.len() != "${vue_typescript_plugin}"@.len());
    law_option_texts_are_filled_in(empty, empty, root, plugin);
    assert(empty + root + path =~= root + path);
    law_joined_paths_follow_the_directory(root, root + path);
}

/// Each argument of a command, each value of its environment and its name are filled in on their
/// own, and none is added or lost.
pub proof fn law_commands_are_filled_in_part_by_part(
    arguments: Seq<Seq<char>>,
    environment: Map<Seq<char>, Seq<char>>,
    workspace: Seq<char>,
    data_dir: Option<Seq<char>>,
)
    ensures
        launch_arguments(arguments, workspace, data_dir).len() == arguments.len(),
        forall|i: int|
            0 <= i < arguments.len() ==> #[trigger] launch_arguments(
                arguments,
                workspace,
                data_dir,
            )[i] == launch_text(arguments[i], workspace, data_dir),
        launch_environment(environment, workspace, data_dir).dom() =~= environment.dom(),
        forall|key: Seq<char>|
            environment.dom().contains(key) ==> #[trigger] launch_environment(
                environment,
                workspace,
                data_dir,
            )[key] == launch_text(environment[key], workspace, data_dir),
{
}

/// The package is found in the nearest directory whose manifest gives its name, and nowhere where
/// no manifest does.
pub proof fn law_packages_are_found_in_the_nearest_directory(
    directories: Seq<Seq<char>>,
    manifests: Seq<Option<String>>,
    package: Seq<char>,
    i: int,
)
    requires
        0 <= i <= directories.len(),
        directories.len() == manifests.len(),
        forall|j: int| 0 <= j < i ==> !is_manifest_of(#[trigger] manifests[j], package),
    ensures
        i < directories.len() && is_manifest_of(manifests[i], package) ==> package_directory(
            directories,
            manifests,
            package,
        ) == Some(directories[i]),
        i == directories.len() ==> package_directory(directories, manifests, package) is None,
    decreases i,
{
    if i > 0 {
        assert(!is_manifest_of(manifests[0], package));
        let rest = manifests.skip(1);
        assert forall|j: int| 0 <= j < i - 1 implies !is_manifest_of(
            #[trigger] rest[j],
            package,
        ) by {
            assert(rest[j] == manifests[j + 1]);
        }
        law_packages_are_found_in_the_nearest_directory(
            directories.skip(1),
            rest,
            package,
            i - 1,
        );
    }
}

/// A manifest is that of a package if it has the name of the package as its name.
pub proof fn law_manifests_give_the_name(manifest: String, value: JsonSpec, package: Seq<char>)
    requires
        parsed_json(manifest@) == Some(value),
    ensures
        is_manifest_of(Some(manifest), package) <==> value.get("name"@) == Some(
            JsonSpec::Text(package),
        ),
        !is_manifest_of(None, package),
{
}

/// A command is found in the first directory of the search path that has it, and nowhere where none
/// has it.
pub proof fn law_commands_are_found_in_the_first_directory(
    directories: Seq<Seq<char>>,
    command: Seq<char>,
    exists_at: Seq<bool>,
    i: int,
)
    requires
        0 <= i <= directories.len(),
        directories.len() == exists_at.len(),
        forall|j: int| 0 <= j < i ==> !#[trigger] exists_at[j],
    ensures
        i < directories.len() && exists_at[i] ==> first_existing(
            command_candidates(directories, command),
            exists_at,
        ) == Some(joined(directories[i], command)),
        i == directories.len() ==> first_existing(
            command_candidates(directories, command),
            exists_at,
        ) is None,
    decreases i,
{
    let candidates = command_candidates(directories, command);
    if i > 0 {
        let rest = exists_at.skip(1);
        assert(!exists_at[0]);
        assert forall|j: int| 0 <= j < i - 1 implies !#[trigger] rest[j] by {
            assert(!exists_at[j + 1]);
        }
        assert(candidates.skip(1) =~= command_candidates(directories.skip(1), command));
        law_commands_are_found_in_the_first_directory(
            directories.skip(1),
            command,
            rest,
            i - 1,
        );
        if i < directories.len() {
            assert(rest[i - 1] == exists_at[i]);
            assert(directories.skip(1)[i - 1] == directories[i]);
        }
    }
}

/// The plugin of the workspace is taken before any other. Else that of the package of the language
/// server is, which lies in a directory above the program of the server, or in its installation:
/// there among the language tools, or else among the modules. Without a language server there is
/// none.
pub proof fn law_the_plugin_of_the_workspace_comes_first(root: Seq<char>, places: VuePlaces)
    ensures
        places.in_workspace ==> plugin_location(root, places) == Some(
            joined(root, "node_modules/@vue/typescript-plugin"@),
        ),
        !places.in_workspace && places.language_server is None ==> plugin_location(root, places)
            is None,
        !places.in_workspace && places.language_server is Some ==> {
            let server = places.language_server->0@;
            let package = package_directory(
                ancestors(server),
                places.manifests@,
                "@vue/language-server"@,
            );
            let above = parent(server);
            &&& package is Some ==> plugin_location(root, places) == package
            &&& package is None && (above is None || parent(above->0) is None) ==> plugin_location(
                root,
                places,
            ) is None
            &&& package is None && above is Some && parent(above->0) is Some && places.in_tools
                ==> plugin_location(root, places) == Some(
                joined(parent(above->0)->0, "lib/language-tools/packages/language-server"@),
            )
            &&& package is None && above is Some && parent(above->0) is Some && !places.in_tools
                && places.in_modules ==> plugin_location(root, places) == Some(
                joined(parent(above->0)->0, "lib/node_modules/@vue/language-server"@),
            )
            &&& package is None && !places.in_tools && !places.in_modules ==> plugin_location(
                root,
                places,
            ) is None
        },
{
}

/// A command asks for a directory for data if the placeholder for it stands anywhere in its name,
/// in an argument or in a value of its environment.
pub proof fn law_the_placeholder_asks_for_a_directory(before: Seq<char>, behind: Seq<char>)
    ensures
        wants_data_dir(before + "${lsp_data_dir}"@ + behind),
        !before.contains('$') ==> !wants_data_dir(before),
{
    let token = "${lsp_data_dir}"@;
    let text = before + token + behind;
    reveal_strlit("${lsp_data_dir}");
    assert(text.subrange(before.len() as int, before.len() as int + token.len()) =~= token);
    assert(occurs_at(text, token, before.len() as int));
    if wants_data_dir(before) {
        let at = choose|at: int| occurs_at(before, token, at);
        assert(before.subrange(at, at + token.len())[0] == token[0]);
        assert(before[at] == '$');
    }
}

/// The directory of a lease is where the lease keeps the data.
pub proof fn law_leases_give_their_directory(lease: WorkspaceDataLease)
    ensures
        leased_dir(Some(lease)) == Some(lease.spec_data_dir()),
        leased_dir(None) is None,
{
}

} // verus!
