//! The configuration that servers ask for, and hints for the errors that they report.

use crate::json::{law_members_are_found, Json, JsonSpec};
use crate::lsp::server_config::{
    law_option_texts_are_filled_in, law_options_keep_their_members, law_resolution_keeps_the_shape,
    option_text, option_value, resolve_value,
};
use crate::path::AbsolutePath;
use crate::text::{contains_text, occurs_at, pieces, split, str_contains, str_eq, text_of, texts};
use vstd::prelude::*;

verus! {

/// The settings of `vtsls`. Here and in the other settings the members of objects come by their
/// names.
pub open spec fn vtsls_settings() -> JsonSpec {
    JsonSpec::object()
        .with("tsserver"@, JsonSpec::object()
                .with("globalPlugins"@, JsonSpec::array()
                        .item(JsonSpec::object()
                                .with("enableForWorkspaceTypeScriptVersions"@, JsonSpec::Bool(true))
                                .with("languages"@, JsonSpec::array()
                                        .item(JsonSpec::Text("vue"@)))
                                .with("location"@, JsonSpec::Text("${vue_typescript_plugin}"@))
                                .with("name"@, JsonSpec::Text("@vue/typescript-plugin"@)))))
}

fn make_vtsls_settings() -> (json: Json)
    ensures
        json@ == vtsls_settings(),
{
    Json::object()
        .with("tsserver", Json::object()
                .with("globalPlugins", Json::array()
                        .item(Json::object()
                                .with("enableForWorkspaceTypeScriptVersions", Json::Bool(true))
                                .with("languages", Json::array()
                                        .item(Json::text("vue")))
                                .with("location", Json::text("${vue_typescript_plugin}"))
                                .with("name", Json::text("@vue/typescript-plugin")))))
}

/// The settings of all servers.
pub open spec fn all_settings() -> JsonSpec {
    JsonSpec::object()
        .with("javascript.validate.enable"@, JsonSpec::Bool(true))
        .with("typescript.tsdk"@, JsonSpec::Text("${workspace}/node_modules/typescript/lib"@))
        .with("typescript.validate.enable"@, JsonSpec::Bool(true))
        .with("vtsls"@, vtsls_settings())
}

fn make_all_settings() -> (json: Json)
    ensures
        json@ == all_settings(),
{
    Json::object()
        .with("javascript.validate.enable", Json::Bool(true))
        .with("typescript.tsdk", Json::text("${workspace}/node_modules/typescript/lib"))
        .with("typescript.validate.enable", Json::Bool(true))
        .with("vtsls", make_vtsls_settings())
}

/// The settings of TypeScript.
pub open spec fn typescript_settings() -> JsonSpec {
    JsonSpec::object()
        .with("tsdk"@, JsonSpec::Text("${workspace}/node_modules/typescript/lib"@))
        .with("validate"@, JsonSpec::object()
                .with("enable"@, JsonSpec::Bool(true)))
}

fn make_typescript_settings() -> (json: Json)
    ensures
        json@ == typescript_settings(),
{
    Json::object()
        .with("tsdk", Json::text("${workspace}/node_modules/typescript/lib"))
        .with("validate", Json::object()
                .with("enable", Json::Bool(true)))
}

/// The languages that ESLint checks.
pub open spec fn eslint_languages() -> JsonSpec {
    JsonSpec::array()
        .item(JsonSpec::Text("javascript"@))
        .item(JsonSpec::Text("javascriptreact"@))
        .item(JsonSpec::Text("typescript"@))
        .item(JsonSpec::Text("typescriptreact"@))
        .item(JsonSpec::Text("vue"@))
}

fn make_eslint_languages() -> (json: Json)
    ensures
        json@ == eslint_languages(),
{
    Json::array()
        .item(Json::text("javascript"))
        .item(Json::text("javascriptreact"))
        .item(Json::text("typescript"))
        .item(Json::text("typescriptreact"))
        .item(Json::text("vue"))
}

/// How ESLint finds the directories that it works in.
pub open spec fn eslint_directories() -> JsonSpec {
    JsonSpec::array()
        .item(JsonSpec::object()
                .with("mode"@, JsonSpec::Text("auto"@)))
}

fn make_eslint_directories() -> (json: Json)
    ensures
        json@ == eslint_directories(),
{
    Json::array()
        .item(Json::object()
                .with("mode", Json::text("auto")))
}

/// The settings of ESLint.
pub open spec fn eslint_settings() -> JsonSpec {
    JsonSpec::object()
        .with("enable"@, JsonSpec::Bool(true))
        .with("probe"@, eslint_languages())
        .with("run"@, JsonSpec::Text("onType"@))
        .with("validate"@, eslint_languages())
        .with("workingDirectories"@, eslint_directories())
}

fn make_eslint_settings() -> (json: Json)
    ensures
        json@ == eslint_settings(),
{
    Json::object()
        .with("enable", Json::Bool(true))
        .with("probe", make_eslint_languages())
        .with("run", Json::text("onType"))
        .with("validate", make_eslint_languages())
        .with("workingDirectories", make_eslint_directories())
}

/// The settings that are built in for a section of the configuration.
pub open spec fn built_in_settings(section: Seq<char>) -> Option<JsonSpec> {
    if section == ""@ {
        Some(all_settings())
    } else if section == "typescript"@ {
        Some(typescript_settings())
    } else if section == "vtsls"@ {
        Some(vtsls_settings())
    } else if section == "eslint"@ {
        Some(eslint_settings())
    } else if section == "eslint.enable"@ {
        Some(JsonSpec::Bool(true))
    } else if section == "eslint.run"@ {
        Some(JsonSpec::Text("onType"@))
    } else if section == "eslint.validate"@ {
        Some(eslint_languages())
    } else if section == "eslint.probe"@ {
        Some(eslint_languages())
    } else if section == "eslint.workingDirectories"@ {
        Some(eslint_directories())
    } else {
        None
    }
}

fn find_built_in_settings(section: &str) -> (settings: Option<Json>)
    ensures
        match settings {
            Some(settings) => built_in_settings(section@) == Some(settings@),
            None => built_in_settings(section@) is None,
        },
{
    if str_eq(section, "") {
        Some(make_all_settings())
    } else if str_eq(section, "typescript") {
        Some(make_typescript_settings())
    } else if str_eq(section, "vtsls") {
        Some(make_vtsls_settings())
    } else if str_eq(section, "eslint") {
        Some(make_eslint_settings())
    } else if str_eq(section, "eslint.enable") {
        Some(Json::Bool(true))
    } else if str_eq(section, "eslint.run") {
        Some(Json::text("onType"))
    } else if str_eq(section, "eslint.validate") {
        Some(make_eslint_languages())
    } else if str_eq(section, "eslint.probe") {
        Some(make_eslint_languages())
    } else if str_eq(section, "eslint.workingDirectories") {
        Some(make_eslint_directories())
    } else {
        None
    }
}

/// What may help against an error of a server.
pub open spec fn hint_text(message: Seq<char>) -> Option<Seq<char>> {
    if contains_text(message, "Cannot find provider for definition"@) {
        Some(
            "For .vue files with vtsls, ensure the Vue TypeScript plugin is installed and configured for the server you are running. If using Nix-managed vtsls, make sure @vue/typescript-plugin is also available to that vtsls instance, or override the Vue lsp_servers initialization_options in Ki config to point to the plugin location."@,
        )
    } else if contains_text(message, "The \"path\" argument must be of type string"@) {
        Some(
            "The ESLint server failed while resolving a file path. Check that the ESLint server, eslint package, parser/plugins, and working-directory/config setup match your project. If using a non-node_modules install, ensure the server can still resolve the project eslint package and vue parser."@,
        )
    } else if contains_text(message, "Cannot find module"@) || contains_text(message, "Failed to load plugin"@) {
        Some(
            "This usually means the language server could not resolve a required project package or plugin. Check the server command environment and package/plugin install location."@,
        )
    } else {
        None
    }
}

/// What may help against an error of a server. See [`hint_text`].
pub fn hint_for_lsp_error(message: &str) -> (hint: Option<&'static str>)
    ensures
        match hint {
            Some(hint) => hint_text(message@) == Some(hint@),
            None => hint_text(message@) is None,
        },
{
    if str_contains(message, "Cannot find provider for definition") {
        Some(
            "For .vue files with vtsls, ensure the Vue TypeScript plugin is installed and configured for the server you are running. If using Nix-managed vtsls, make sure @vue/typescript-plugin is also available to that vtsls instance, or override the Vue lsp_servers initialization_options in Ki config to point to the plugin location.",
        )
    } else if str_contains(message, "The \"path\" argument must be of type string") {
        Some(
            "The ESLint server failed while resolving a file path. Check that the ESLint server, eslint package, parser/plugins, and working-directory/config setup match your project. If using a non-node_modules install, ensure the server can still resolve the project eslint package and vue parser.",
        )
    } else if str_contains(message, "Cannot find module") || str_contains(message, "Failed to load plugin") {
        Some(
            "This usually means the language server could not resolve a required project package or plugin. Check the server command environment and package/plugin install location.",
        )
    } else {
        None
    }
}

/// The value that the path `keys` leads to, from `value` on.
pub open spec fn at_path(value: JsonSpec, keys: Seq<Seq<char>>) -> Option<JsonSpec>
    decreases keys.len(),
{
    if keys.len() == 0 {
        Some(value)
    } else {
        match value.get(keys[0]) {
            Some(member) => at_path(member, keys.skip(1)),
            None => None,
        }
    }
}

/// What a server's options set for a section of the configuration, whose name is a path with `.`
/// between its steps.
pub open spec fn option_settings(options: Option<JsonSpec>, section: Seq<char>) -> Option<
    JsonSpec,
> {
    match options {
        Some(options) => match options.get("settings"@) {
            Some(settings) => at_path(settings, pieces(section, '.')),
            None => None,
        },
        None => None,
    }
}

/// The configuration of a section: what is built in, else what the server's options set, with the
/// placeholders filled in, or `null`.
pub open spec fn section_settings(
    section: Option<Seq<char>>,
    root: Seq<char>,
    options: Option<JsonSpec>,
    plugin: Option<Seq<char>>,
) -> JsonSpec {
    match section {
        Some(section) => match built_in_settings(section) {
            Some(settings) => option_value(settings, root, plugin),
            None => match option_settings(options, section) {
                Some(settings) => option_value(settings, root, plugin),
                None => JsonSpec::Null,
            },
        },
        None => JsonSpec::Null,
    }
}

/// The JSON of an optional value.
pub open spec fn json_of(json: Option<&Json>) -> Option<JsonSpec> {
    match json {
        Some(json) => Some(json@),
        None => None,
    }
}

fn find_at_path<'a>(value: &'a Json, keys: &[String]) -> (found: Option<&'a Json>)
    ensures
        match found {
            Some(found) => at_path(value@, texts(keys@)) == Some(found@),
            None => at_path(value@, texts(keys@)) is None,
        },
{
    let ghost all = texts(keys@);
    let mut current = value;
    let mut i: usize = 0;
    assert(all.skip(0) == all);
    while i < keys.len()
        invariant
            i <= keys.len(),
            all == texts(keys@),
            at_path(value@, all) == at_path(current@, all.skip(i as int)),
        decreases keys.len() - i,
    {
        assert(all.skip(i as int).skip(1) == all.skip(i + 1));
        assert(all.skip(i as int)[0] == keys@[i as int]@);
        current = match current.get(keys[i].as_str()) {
            Some(member) => member,
            None => {
                return None;
            },
        };
        i += 1;
    }
    assert(all.skip(i as int).len() == 0);
    Some(current)
}

/// The configuration of a section. See [`section_settings`].
pub fn configuration_value(
    section: Option<&str>,
    root: &AbsolutePath,
    options: Option<&Json>,
    plugin: Option<&str>,
) -> (value: Json)
    ensures
        value@ == section_settings(text_of(section), root@, json_of(options), text_of(plugin)),
{
    let section = match section {
        Some(section) => section,
        None => {
            return Json::Null;
        },
    };
    if let Some(settings) = find_built_in_settings(section) {
        return resolve_value(&settings, root, plugin);
    }
    if let Some(options) = options {
        if let Some(settings) = options.get("settings") {
            let keys = split(section, '.');
            if let Some(value) = find_at_path(settings, keys.as_slice()) {
                return resolve_value(value, root, plugin);
            }
        }
    }
    Json::Null
}

/// The section that an item of a request for configuration names.
pub open spec fn item_section(item: JsonSpec) -> Option<Seq<char>> {
    match item.get("section"@) {
        Some(section) => section.as_text(),
        None => None,
    }
}

/// The items of a request for configuration.
pub open spec fn configuration_items(params: JsonSpec) -> Seq<JsonSpec> {
    match params.get("items"@) {
        Some(JsonSpec::Array(items)) => items,
        _ => Seq::empty(),
    }
}

/// The answer to a request for configuration: for each item the configuration of its section.
pub open spec fn configuration_response(
    params: JsonSpec,
    root: Seq<char>,
    options: Option<JsonSpec>,
    plugin: Option<Seq<char>>,
) -> JsonSpec {
    JsonSpec::Array(
        configuration_items(params).map_values(
            |item: JsonSpec| section_settings(item_section(item), root, options, plugin),
        ),
    )
}

/// The answer to a request for configuration. See [`configuration_response`].
pub fn workspace_configuration_response(
    params: &Json,
    root: &AbsolutePath,
    options: Option<&Json>,
    plugin: Option<&str>,
) -> (response: Json)
    ensures
        response@ == configuration_response(params@, root@, json_of(options), text_of(plugin)),
{
    let mut values: Vec<Json> = Vec::new();
    if let Some(Json::Array(items)) = params.get("items") {
        let mut i: usize = 0;
        while i < items.len()
            invariant
                i <= items.len(),
                values@.len() == i,
                forall|j: int|
                    0 <= j < i ==> (#[trigger] values@[j])@ == section_settings(
                        item_section(items@[j]@),
                        root@,
                        json_of(options),
                        text_of(plugin),
                    ),
            decreases items.len() - i,
        {
            let section = match items[i].get("section") {
                Some(section) => section.as_text(),
                None => None,
            };
            values.push(configuration_value(section, root, options, plugin));
            i += 1;
        }
        assert(configuration_items(params@).len() == items@.len());
    }
    let response = Json::list(values);
    assert(response@->Array_0 =~= configuration_response(
        params@,
        root@,
        json_of(options),
        text_of(plugin),
    )->Array_0);
    response
}

/// The names of the sections that are built in are different ones.
proof fn lemma_sections()
    ensures
        ""@ != "typescript"@,
        ""@ != "vtsls"@,
        ""@ != "eslint"@,
        "typescript"@ != "vtsls"@,
        "typescript"@ != "eslint"@,
        "vtsls"@ != "eslint"@,
        forall|section: Seq<char>|
            section == "eslint.enable"@ || section == "eslint.run"@ || section
                == "eslint.validate"@ || section == "eslint.probe"@ || section
                == "eslint.workingDirectories"@ ==> #[trigger] is_part_of_eslint(section),
        "eslint.enable"@ != "eslint.run"@,
        "eslint.enable"@ != "eslint.validate"@,
        "eslint.enable"@ != "eslint.probe"@,
        "eslint.enable"@ != "eslint.workingDirectories"@,
        "eslint.run"@ != "eslint.validate"@,
        "eslint.run"@ != "eslint.probe"@,
        "eslint.run"@ != "eslint.workingDirectories"@,
        "eslint.validate"@ != "eslint.probe"@,
        "eslint.validate"@ != "eslint.workingDirectories"@,
        "eslint.probe"@ != "eslint.workingDirectories"@,
{
    reveal_strlit("");
    reveal_strlit("typescript");
    reveal_strlit("vtsls");
    reveal_strlit("eslint");
    reveal_strlit("eslint.enable");
    reveal_strlit("eslint.run");
    reveal_strlit("eslint.validate");
    reveal_strlit("eslint.probe");
    reveal_strlit("eslint.workingDirectories");
    assert(""@.len() == 0 && "typescript"@.len() == 10 && "vtsls"@.len() == 5 && "eslint"@.len()
        == 6 && "eslint.enable"@.len() == 13 && "eslint.run"@.len() == 10
        && "eslint.validate"@.len() == 15 && "eslint.probe"@.len() == 12
        && "eslint.workingDirectories"@.len() == 25);
    assert("typescript"@[0] == 't');
    assert("eslint.run"@[0] == 'e' && "eslint.enable"@[0] == 'e' && "eslint.validate"@[0] == 'e'
        && "eslint.probe"@[0] == 'e' && "eslint.workingDirectories"@[0] == 'e');
}

/// Whether a section is none of those that are named by one word.
spec fn is_part_of_eslint(section: Seq<char>) -> bool {
    section != ""@ && section != "typescript"@ && section != "vtsls"@ && section != "eslint"@
}

proof fn lemma_setting_names()
    ensures
        "enable"@ != "probe"@,
        "enable"@ != "run"@,
        "enable"@ != "validate"@,
        "enable"@ != "workingDirectories"@,
        "probe"@ != "run"@,
        "probe"@ != "validate"@,
        "probe"@ != "workingDirectories"@,
        "run"@ != "validate"@,
        "run"@ != "workingDirectories"@,
        "validate"@ != "workingDirectories"@,
        "tsdk"@ != "validate"@,
        "javascript.validate.enable"@ != "typescript.tsdk"@,
        "javascript.validate.enable"@ != "typescript.validate.enable"@,
        "javascript.validate.enable"@ != "vtsls"@,
        "typescript.tsdk"@ != "typescript.validate.enable"@,
        "typescript.tsdk"@ != "vtsls"@,
        "typescript.validate.enable"@ != "vtsls"@,
        "enableForWorkspaceTypeScriptVersions"@ != "languages"@,
        "enableForWorkspaceTypeScriptVersions"@ != "location"@,
        "enableForWorkspaceTypeScriptVersions"@ != "name"@,
        "languages"@ != "location"@,
        "languages"@ != "name"@,
        "location"@ != "name"@,
{
    reveal_strlit("enable");
    reveal_strlit("probe");
    reveal_strlit("run");
    reveal_strlit("validate");
    reveal_strlit("workingDirectories");
    reveal_strlit("tsdk");
    reveal_strlit("javascript.validate.enable");
    reveal_strlit("typescript.tsdk");
    reveal_strlit("typescript.validate.enable");
    reveal_strlit("vtsls");
    reveal_strlit("enableForWorkspaceTypeScriptVersions");
    reveal_strlit("languages");
    reveal_strlit("location");
    reveal_strlit("name");
    assert("enable"@.len() == 6 && "probe"@.len() == 5 && "run"@.len() == 3 && "validate"@.len()
        == 8 && "workingDirectories"@.len() == 18 && "tsdk"@.len() == 4);
    assert("javascript.validate.enable"@[0] == 'j' && "typescript.tsdk"@.len() == 15
        && "typescript.validate.enable"@.len() == 26 && "typescript.validate.enable"@[0] == 't'
        && "vtsls"@.len() == 5);
    assert("javascript.validate.enable"@.len() == 26);
    assert("enableForWorkspaceTypeScriptVersions"@.len() == 36 && "languages"@.len() == 9
        && "location"@.len() == 8 && "name"@.len() == 4);
}

/// What is found under a name in what was found before.
pub open spec fn inside(value: Option<JsonSpec>, name: Seq<char>) -> Option<JsonSpec> {
    match value {
        Some(value) => value.get(name),
        None => None,
    }
}

/// A part of a section that is asked for by its own name is the same as in the section: each part
/// of the settings of ESLint, and each part of the settings of all servers.
pub proof fn law_parts_of_sections_are_the_same_alone(
    root: Seq<char>,
    options: Option<JsonSpec>,
    plugin: Option<Seq<char>>,
)
    ensures
        ({
            let eslint = section_settings(Some("eslint"@), root, options, plugin);
            let all = section_settings(Some(""@), root, options, plugin);
            let typescript = section_settings(Some("typescript"@), root, options, plugin);
            let vtsls = section_settings(Some("vtsls"@), root, options, plugin);
            &&& eslint.get("enable"@) == Some(
                section_settings(Some("eslint.enable"@), root, options, plugin),
            )
            &&& eslint.get("run"@) == Some(
                section_settings(Some("eslint.run"@), root, options, plugin),
            )
            &&& eslint.get("validate"@) == Some(
                section_settings(Some("eslint.validate"@), root, options, plugin),
            )
            &&& eslint.get("probe"@) == Some(
                section_settings(Some("eslint.probe"@), root, options, plugin),
            )
            &&& eslint.get("workingDirectories"@) == Some(
                section_settings(Some("eslint.workingDirectories"@), root, options, plugin),
            )
            &&& all.get("vtsls"@) == Some(vtsls)
            &&& all.get("typescript.tsdk"@) == typescript.get("tsdk"@)
            &&& all.get("typescript.tsdk"@) is Some
            &&& all.get("typescript.validate.enable"@) == Some(JsonSpec::Bool(true))
            &&& all.get("javascript.validate.enable"@) == Some(JsonSpec::Bool(true))
            &&& typescript.get("validate"@) is Some && typescript.get("validate"@)->0.get(
                "enable"@,
            ) == Some(JsonSpec::Bool(true))
        }),
{
    broadcast use law_members_are_found;

    lemma_sections();
    lemma_setting_names();
    assert(is_part_of_eslint("eslint.enable"@));
    assert(is_part_of_eslint("eslint.run"@));
    assert(is_part_of_eslint("eslint.validate"@));
    assert(is_part_of_eslint("eslint.probe"@));
    assert(is_part_of_eslint("eslint.workingDirectories"@));
    law_options_keep_their_members(eslint_settings(), "enable"@, root, plugin);
    law_options_keep_their_members(eslint_settings(), "run"@, root, plugin);
    law_options_keep_their_members(eslint_settings(), "validate"@, root, plugin);
    law_options_keep_their_members(eslint_settings(), "probe"@, root, plugin);
    law_options_keep_their_members(eslint_settings(), "workingDirectories"@, root, plugin);
    law_options_keep_their_members(all_settings(), "vtsls"@, root, plugin);
    law_options_keep_their_members(all_settings(), "typescript.tsdk"@, root, plugin);
    law_options_keep_their_members(all_settings(), "typescript.validate.enable"@, root, plugin);
    law_options_keep_their_members(all_settings(), "javascript.validate.enable"@, root, plugin);
    law_options_keep_their_members(typescript_settings(), "tsdk"@, root, plugin);
    law_options_keep_their_members(typescript_settings(), "validate"@, root, plugin);
    let validate = typescript_settings().get("validate"@)->0;
    law_options_keep_their_members(validate, "enable"@, root, plugin);
    law_options_keep_their_members(JsonSpec::Bool(true), ""@, root, plugin);
}

/// A text without a placeholder stays as it is.
proof fn lemma_plain_option(text: Seq<char>, root: Seq<char>, plugin: Option<Seq<char>>)
    requires
        text.len() > 0,
        forall|i: int| 0 <= i < text.len() ==> #[trigger] text[i] != '$',
    ensures
        option_text(text, root, plugin) == text,
{
    reveal_strlit("${workspace}");
    reveal_strlit("${vue_typescript_plugin}");
    assert(text[0] != "${vue_typescript_plugin}"@[0]);
    if contains_text(text, "${workspace}"@) {
        let at = choose|at: int| occurs_at(text, "${workspace}"@, at);
        assert(text.subrange(at, at + "${workspace}"@.len())[0] == "${workspace}"@[0]);
        assert(text[at] == '$');
    }
    law_option_texts_are_filled_in(text, text, root, plugin);
}

/// ESLint is switched on, runs while the user types, checks JavaScript, TypeScript, their React
/// forms and Vue, and finds the directories that it works in by itself.
pub proof fn law_eslint_is_set_up(
    root: Seq<char>,
    options: Option<JsonSpec>,
    plugin: Option<Seq<char>>,
)
    ensures
        section_settings(Some("eslint.enable"@), root, options, plugin) == JsonSpec::Bool(true),
        section_settings(Some("eslint.run"@), root, options, plugin) == JsonSpec::Text("onType"@),
        ({
            let languages = section_settings(Some("eslint.validate"@), root, options, plugin);
            &&& languages is Array
            &&& languages->Array_0.len() == 5
            &&& section_settings(Some("eslint.probe"@), root, options, plugin) == languages
            &&& languages->Array_0[0] == JsonSpec::Text("javascript"@)
            &&& languages->Array_0[1] == JsonSpec::Text("javascriptreact"@)
            &&& languages->Array_0[2] == JsonSpec::Text("typescript"@)
            &&& languages->Array_0[3] == JsonSpec::Text("typescriptreact"@)
            &&& languages->Array_0[4] == JsonSpec::Text("vue"@)
        }),
        ({
            let directories = section_settings(
                Some("eslint.workingDirectories"@),
                root,
                options,
                plugin,
            );
            &&& directories is Array
            &&& directories->Array_0.len() == 1
            &&& directories->Array_0[0].get("mode"@) == Some(JsonSpec::Text("auto"@))
        }),
{
    broadcast use law_members_are_found;

    lemma_sections();
    assert(is_part_of_eslint("eslint.enable"@));
    assert(is_part_of_eslint("eslint.run"@));
    assert(is_part_of_eslint("eslint.validate"@));
    assert(is_part_of_eslint("eslint.probe"@));
    assert(is_part_of_eslint("eslint.workingDirectories"@));
    reveal_strlit("onType");
    reveal_strlit("javascript");
    reveal_strlit("javascriptreact");
    reveal_strlit("typescript");
    reveal_strlit("typescriptreact");
    reveal_strlit("vue");
    reveal_strlit("auto");
    lemma_plain_option("onType"@, root, plugin);
    lemma_plain_option("javascript"@, root, plugin);
    lemma_plain_option("javascriptreact"@, root, plugin);
    lemma_plain_option("typescript"@, root, plugin);
    lemma_plain_option("typescriptreact"@, root, plugin);
    lemma_plain_option("vue"@, root, plugin);
    lemma_plain_option("auto"@, root, plugin);
    let mode = eslint_directories()->Array_0[0];
    law_options_keep_their_members(mode, "mode"@, root, plugin);
    law_resolution_keeps_the_shape(eslint_languages(), root, plugin);
    law_resolution_keeps_the_shape(eslint_directories(), root, plugin);
}

/// The plugin for Vue is set up for `vtsls`, under its name, for Vue, and where the plugin is. The
/// TypeScript of the workspace is the one of its own packages.
pub proof fn law_vtsls_is_set_up_for_vue(
    root: Seq<char>,
    options: Option<JsonSpec>,
    plugin: Seq<char>,
)
    ensures
        ({
            let vtsls = section_settings(Some("vtsls"@), root, options, Some(plugin));
            let plugins = inside(vtsls.get("tsserver"@), "globalPlugins"@);
            let vue = plugins->0->Array_0[0];
            &&& plugins is Some && plugins->0 is Array && plugins->0->Array_0.len() == 1
            &&& vue.get("location"@) == Some(JsonSpec::Text(plugin))
            &&& vue.get("name"@) == Some(JsonSpec::Text("@vue/typescript-plugin"@))
            &&& vue.get("enableForWorkspaceTypeScriptVersions"@) == Some(JsonSpec::Bool(true))
            &&& vue.get("languages"@) is Some && vue.get("languages"@)->0 is Array && vue.get(
                "languages"@,
            )->0->Array_0 =~= seq![JsonSpec::Text("vue"@)]
        }),
        section_settings(Some("typescript"@), root, options, Some(plugin)).get("tsdk"@) == Some(
            JsonSpec::Text(root + "/node_modules/typescript/lib"@),
        ),
{
    broadcast use law_members_are_found;

    lemma_sections();
    lemma_setting_names();
    let settings = vtsls_settings();
    let server = settings.get("tsserver"@)->0;
    let plugins = server.get("globalPlugins"@)->0;
    let vue = plugins->Array_0[0];
    let languages = vue.get("languages"@)->0;
    law_options_keep_their_members(settings, "tsserver"@, root, Some(plugin));
    law_options_keep_their_members(server, "globalPlugins"@, root, Some(plugin));
    law_resolution_keeps_the_shape(plugins, root, Some(plugin));
    law_options_keep_their_members(vue, "location"@, root, Some(plugin));
    law_options_keep_their_members(vue, "name"@, root, Some(plugin));
    law_options_keep_their_members(
        vue,
        "enableForWorkspaceTypeScriptVersions"@,
        root,
        Some(plugin),
    );
    law_options_keep_their_members(vue, "languages"@, root, Some(plugin));
    law_resolution_keeps_the_shape(languages, root, Some(plugin));
    law_options_keep_their_members(typescript_settings(), "tsdk"@, root, Some(plugin));
    reveal_strlit("@vue/typescript-plugin");
    reveal_strlit("vue");
    lemma_plain_option("@vue/typescript-plugin"@, root, Some(plugin));
    lemma_plain_option("vue"@, root, Some(plugin));
    let empty = Seq::<char>::empty();
    let lib = "/node_modules/typescript/lib"@;
    reveal_strlit("/node_modules/typescript/lib");
    reveal_strlit("${workspace}");
    reveal_strlit("${workspace}/node_modules/typescript/lib");
    reveal_strlit("${vue_typescript_plugin}");
    assert("${workspace}/node_modules/typescript/lib"@ =~= empty + "${workspace}"@ + lib);
    assert("${workspace}/node_modules/typescript/lib"@[2] != "${vue_typescript_plugin}"@[2]);
    assert(lib[0] != "${vue_typescript_plugin}"@[0]);
    assert(empty.len() != "${vue_typescript_plugin}"@.len());
    law_option_texts_are_filled_in(empty, lib, root, Some(plugin));
    lemma_plain_option(lib, root, Some(plugin));
    assert(!contains_text(empty, "${workspace}"@)) by {
        if contains_text(empty, "${workspace}"@) {
            let at = choose|at: int| occurs_at(empty, "${workspace}"@, at);
            assert(at + "${workspace}"@.len() <= 0);
        }
    }
    assert(empty + root + lib =~= root + lib);
}

/// A request for configuration is answered item by item: as many values as there are items, in
/// their order, each the configuration of the section that its item names. An item that names none
/// gets `null`.
pub proof fn law_configuration_is_answered_item_by_item(
    params: JsonSpec,
    items: Seq<JsonSpec>,
    root: Seq<char>,
    options: Option<JsonSpec>,
    plugin: Option<Seq<char>>,
    i: int,
    section: Seq<char>,
)
    requires
        params.get("items"@) == Some(JsonSpec::Array(items)),
        0 <= i < items.len(),
    ensures
        ({
            let response = configuration_response(params, root, options, plugin);
            &&& response is Array
            &&& response->Array_0.len() == items.len()
            &&& items[i].get("section"@) == Some(JsonSpec::Text(section)) ==> response->Array_0[i]
                == section_settings(Some(section), root, options, plugin)
            &&& items[i].get("section"@) is None ==> response->Array_0[i] is Null
        }),
{
}

/// A section that is not built in is looked up in the settings of the server's options, step by
/// step along the dots of its name. Where the settings do not have it, or there are none, its
/// configuration is `null`.
pub proof fn law_other_sections_are_looked_up(
    section: Seq<char>,
    root: Seq<char>,
    options: JsonSpec,
    settings: JsonSpec,
    plugin: Option<Seq<char>>,
)
    requires
        built_in_settings(section) is None,
        options.get("settings"@) == Some(settings),
    ensures
        pieces(section, '.').len() == 1 ==> section_settings(
            Some(section),
            root,
            Some(options),
            plugin,
        ) == match settings.get(pieces(section, '.')[0]) {
            Some(value) => option_value(value, root, plugin),
            None => JsonSpec::Null,
        },
        pieces(section, '.').len() == 2 ==> section_settings(
            Some(section),
            root,
            Some(options),
            plugin,
        ) == match inside(settings.get(pieces(section, '.')[0]), pieces(section, '.')[1]) {
            Some(value) => option_value(value, root, plugin),
            None => JsonSpec::Null,
        },
        section_settings(Some(section), root, None, plugin) is Null,
        section_settings(None, root, Some(options), plugin) is Null,
{
    reveal_with_fuel(at_path, 3);
    let keys = pieces(section, '.');
    if keys.len() == 1 {
        assert(keys.skip(1).len() == 0);
    }
    if keys.len() == 2 {
        assert(keys.skip(1)[0] == keys[1]);
        assert(keys.skip(1).skip(1).len() == 0);
    }
}

/// One step more along a path leads to the member of that name of what the path led to.
pub proof fn law_paths_lead_step_by_step(value: JsonSpec, keys: Seq<Seq<char>>, key: Seq<char>)
    ensures
        at_path(value, keys.push(key)) == match at_path(value, keys) {
            Some(found) => found.get(key),
            None => None,
        },
        at_path(value, Seq::empty()) == Some(value),
    decreases keys.len(),
{
    let longer = keys.push(key);
    if keys.len() == 0 {
        assert(longer.skip(1).len() == 0);
        assert(longer[0] == key);
        if let Some(found) = value.get(key) {
            assert(at_path(found, longer.skip(1)) == Some(found));
        }
    } else {
        assert(longer[0] == keys[0]);
        assert(longer.skip(1) =~= keys.skip(1).push(key));
        if let Some(found) = value.get(keys[0]) {
            law_paths_lead_step_by_step(found, keys.skip(1), key);
        }
    }
}

/// There is a hint for an error that speaks of a provider that is missing, of a path that is no
/// text, of a module that is missing or of a plugin that does not load, and for no other. The
/// first of these that the error speaks of decides.
pub proof fn law_hints_are_for_known_errors(message: Seq<char>)
    ensures
        hint_text(message) is Some <==> (contains_text(
            message,
            "Cannot find provider for definition"@,
        ) || contains_text(message, "The \"path\" argument must be of type string"@)
            || contains_text(message, "Cannot find module"@) || contains_text(
            message,
            "Failed to load plugin"@,
        )),
{
}

} // verus!
