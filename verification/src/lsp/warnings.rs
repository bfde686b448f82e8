//! Warnings about paths in the configuration of language servers that lead nowhere.

use crate::json::{items_view, Json, JsonSpec};
use crate::lsp::configuration::at_path;
use crate::lsp::server_config::{configured_path, resolve_configured_path};
use crate::path::AbsolutePath;
use crate::text::{contains_text, law_parts_are_contained, quote, quoted_text, text_of, texts};
use vstd::prelude::*;

verus! {

/// A path in the configuration of a server. `T` is how texts are held.
pub struct ConfiguredPath<T> {
    /// The name of the plugin that is to be there, or nothing for the TypeScript SDK.
    pub plugin: Option<T>,
    /// The path as it is configured.
    pub location: T,
    /// The path that it comes to, where it comes to one.
    pub resolved: Option<T>,
}

/// The meaning of a [`ConfiguredPath`].
pub open spec fn path_view(path: ConfiguredPath<String>) -> ConfiguredPath<Seq<char>> {
    ConfiguredPath {
        plugin: match path.plugin {
            Some(name) => Some(name@),
            None => None,
        },
        location: path.location@,
        resolved: match path.resolved {
            Some(resolved) => Some(resolved@),
            None => None,
        },
    }
}

/// The meaning of a list of paths.
pub open spec fn paths_view(paths: Seq<ConfiguredPath<String>>) -> Seq<ConfiguredPath<Seq<char>>> {
    paths.map_values(|path: ConfiguredPath<String>| path_view(path))
}

/// The text that a value is, where there is a value that is a text.
pub open spec fn text_in(value: Option<JsonSpec>) -> Option<Seq<char>> {
    match value {
        Some(value) => value.as_text(),
        None => None,
    }
}

/// Where the TypeScript SDK is configured to be.
pub open spec fn configured_sdk(options: JsonSpec) -> Option<Seq<char>> {
    match at_path(options, seq!["typescript"@, "tsdk"@]) {
        Some(value) => value.as_text(),
        None => text_in(options.get("typescript.tsdk"@)),
    }
}

/// The plugins that are configured.
pub open spec fn configured_plugins(options: JsonSpec) -> Seq<JsonSpec> {
    match at_path(options, seq!["vtsls"@, "tsserver"@, "globalPlugins"@]) {
        Some(JsonSpec::Array(plugins)) => plugins,
        _ => Seq::empty(),
    }
}

/// The name of a plugin.
pub open spec fn plugin_name(plugin: JsonSpec) -> Seq<char> {
    match text_in(plugin.get("name"@)) {
        Some(name) => name,
        None => "<unknown plugin>"@,
    }
}

/// The paths at which plugins are configured to be.
pub open spec fn plugin_paths(
    plugins: Seq<JsonSpec>,
    root: Seq<char>,
    vue_plugin: Option<Seq<char>>,
) -> Seq<ConfiguredPath<Seq<char>>>
    decreases plugins.len(),
{
    if plugins.len() == 0 {
        Seq::empty()
    } else {
        let before = plugin_paths(plugins.drop_last(), root, vue_plugin);
        match text_in(plugins.last().get("location"@)) {
            Some(location) => before.push(
                ConfiguredPath {
                    plugin: Some(plugin_name(plugins.last())),
                    location,
                    resolved: configured_path(location, root, vue_plugin),
                },
            ),
            None => before,
        }
    }
}

/// The paths in the options of a server. Where the TypeScript SDK is configured by a placeholder
/// that stands for nothing, no other path is looked at.
pub open spec fn configured_paths(
    options: JsonSpec,
    root: Seq<char>,
    vue_plugin: Option<Seq<char>>,
) -> Seq<ConfiguredPath<Seq<char>>> {
    let plugins = plugin_paths(configured_plugins(options), root, vue_plugin);
    match configured_sdk(options) {
        None => plugins,
        Some(location) => {
            let resolved = configured_path(location, root, vue_plugin);
            let sdk = ConfiguredPath { plugin: None, location, resolved };
            if resolved is None {
                seq![sdk]
            } else {
                seq![sdk] + plugins
            }
        },
    }
}

fn find_text<'a>(value: Option<&'a Json>) -> (text: Option<&'a str>)
    ensures
        text_of(text) == text_in(
            match value {
                Some(value) => Some(value@),
                None => None,
            },
        ),
{
    match value {
        Some(value) => value.as_text(),
        None => None,
    }
}

fn find_sdk<'a>(options: &'a Json) -> (sdk: Option<&'a str>)
    ensures
        text_of(sdk) == configured_sdk(options@),
{
    proof {
        reveal_with_fuel(at_path, 3);
        let keys = seq!["typescript"@, "tsdk"@];
        assert(keys.skip(1) =~= seq!["tsdk"@]);
        assert(keys.skip(1).skip(1) =~= Seq::<Seq<char>>::empty());
    }
    let nested = match options.get("typescript") {
        Some(typescript) => typescript.get("tsdk"),
        None => None,
    };
    match nested {
        Some(value) => value.as_text(),
        None => find_text(options.get("typescript.tsdk")),
    }
}

fn find_plugins<'a>(options: &'a Json) -> (plugins: Option<&'a Vec<Json>>)
    ensures
        match plugins {
            Some(plugins) => configured_plugins(options@) == items_view(plugins@),
            None => configured_plugins(options@).len() == 0,
        },
{
    proof {
        reveal_with_fuel(at_path, 4);
        let keys = seq!["vtsls"@, "tsserver"@, "globalPlugins"@];
        assert(keys.skip(1) =~= seq!["tsserver"@, "globalPlugins"@]);
        assert(keys.skip(1).skip(1) =~= seq!["globalPlugins"@]);
        assert(keys.skip(1).skip(1).skip(1) =~= Seq::<Seq<char>>::empty());
    }
    let vtsls = match options.get("vtsls") {
        Some(vtsls) => vtsls,
        None => {
            return None;
        },
    };
    let tsserver = match vtsls.get("tsserver") {
        Some(tsserver) => tsserver,
        None => {
            return None;
        },
    };
    match tsserver.get("globalPlugins") {
        Some(Json::Array(plugins)) => {
            assert(configured_plugins(options@) =~= items_view(plugins@));
            Some(plugins)
        },
        _ => None,
    }
}

/// The paths in the options of a server. See [`configured_paths`].
pub fn configured_lsp_paths(
    options: &Json,
    root: &AbsolutePath,
    vue_plugin: Option<&str>,
) -> (paths:
    Vec<ConfiguredPath<String>>)
    ensures
        paths_view(paths@) == configured_paths(options@, root@, text_of(vue_plugin)),
{
    let mut paths: Vec<ConfiguredPath<String>> = Vec::new();
    if let Some(location) = find_sdk(options) {
        let resolved = resolve_configured_path(root, location, vue_plugin);
        let unresolved = resolved.is_none();
        paths.push(ConfiguredPath { plugin: None, location: location.to_owned(), resolved });
        if unresolved {
            assert(paths_view(paths@) =~= configured_paths(options@, root@, text_of(vue_plugin)));
            return paths;
        }
    }
    let ghost first = paths_view(paths@);
    let ghost plugins_spec = configured_plugins(options@);
    if let Some(plugins) = find_plugins(options) {
        let mut i: usize = 0;
        assert(first =~= first + plugin_paths(plugins_spec.take(0), root@, text_of(vue_plugin)));
        while i < plugins.len()
            invariant
                i <= plugins.len(),
                plugins_spec == items_view(plugins@),
                paths_view(paths@) == first + plugin_paths(
                    plugins_spec.take(i as int),
                    root@,
                    text_of(vue_plugin),
                ),
            decreases plugins.len() - i,
        {
            let ghost before = paths_view(paths@);
            assert(plugins_spec.take(i + 1).drop_last() == plugins_spec.take(i as int));
            assert(plugins_spec.take(i + 1).last() == plugins@[i as int]@);
            let plugin = &plugins[i];
            if let Some(location) = find_text(plugin.get("location")) {
                let name = match find_text(plugin.get("name")) {
                    Some(name) => name,
                    None => "<unknown plugin>",
                };
                let path = ConfiguredPath {
                    plugin: Some(name.to_owned()),
                    location: location.to_owned(),
                    resolved: resolve_configured_path(root, location, vue_plugin),
                };
                paths.push(path);
                assert(paths_view(paths@) =~= before.push(path_view(path)));
                assert(paths_view(paths@) =~= first + plugin_paths(
                    plugins_spec.take(i + 1),
                    root@,
                    text_of(vue_plugin),
                ));
            }
            i += 1;
        }
        assert(plugins_spec.take(plugins_spec.len() as int) == plugins_spec);
    } else {
        assert(first =~= first + plugin_paths(plugins_spec, root@, text_of(vue_plugin)));
    }
    assert(paths_view(paths@) =~= configured_paths(options@, root@, text_of(vue_plugin)));
    paths
}

/// What is to be said of a path in the configuration of a server, where it leads nowhere.
/// `location` is how the configured path is shown, and `name` how the name of the plugin is.
pub open spec fn path_warning(
    server_id: Seq<char>,
    path: ConfiguredPath<Seq<char>>,
    exists_there: bool,
    location: Seq<char>,
    name: Seq<char>,
) -> Option<Seq<char>> {
    match (path.plugin, path.resolved) {
        (None, None) => Some(
            "Unable to resolve configured TypeScript SDK placeholder "@ + location
                + " for LSP server '"@ + server_id + "'"@,
        ),
        (None, Some(resolved)) => if exists_there {
            None
        } else {
            Some(
                "Configured LSP path for server '"@ + server_id
                    + "' does not exist: typescript tsdk "@ + location
                    + " resolved to "@ + resolved
                    + ". If the server is installed/configured through Nix or another package manager, override this path in Ki config."@,
            )
        },
        (Some(_), None) => Some(
            "Unable to resolve configured LSP plugin placeholder for server '"@ + server_id
                + "': plugin "@ + name + " location "@ + location
                + ". If the plugin is provided by Nix or another package manager, override this location in Ki config."@,
        ),
        (Some(_), Some(resolved)) => if exists_there {
            None
        } else {
            Some(
                "Configured LSP plugin path for server '"@ + server_id
                    + "' does not exist: plugin "@ + name + " location "@
                    + location + " resolved to "@ + resolved
                    + ". If the plugin is provided by Nix or another package manager, override this location in Ki config."@,
            )
        },
    }
}

/// What is to be said of a path in the configuration of a server. See [`path_warning`].
pub fn warn_of_path(
    server_id: &str,
    path: &ConfiguredPath<String>,
    exists_there: bool,
    location: &str,
    name: &str,
) -> (warning: Option<String>)
    ensures
        match warning {
            Some(warning) => path_warning(
                server_id@,
                path_view(*path),
                exists_there,
                location@,
                name@,
            ) == Some(warning@),
            None => path_warning(
                server_id@,
                path_view(*path),
                exists_there,
                location@,
                name@,
            ) is None,
        },
{
    let mut text = String::new();
    match (&path.plugin, &path.resolved) {
        (None, None) => {
            text = "Unable to resolve configured TypeScript SDK placeholder ".to_owned();
            text.append(location);
            text.append(" for LSP server '");
            text.append(server_id);
            text.append("'");
        },
        (None, Some(resolved)) => {
            if exists_there {
                return None;
            }
            text = "Configured LSP path for server '".to_owned();
            text.append(server_id);
            text.append("' does not exist: typescript tsdk ");
            text.append(location);
            text.append(" resolved to ");
            text.append(resolved.as_str());
            text.append(
                ". If the server is installed/configured through Nix or another package manager, override this path in Ki config.",
            );
        },
        (Some(_), None) => {
            text =
                "Unable to resolve configured LSP plugin placeholder for server '".to_owned();
            text.append(server_id);
            text.append("': plugin ");
            text.append(name);
            text.append(" location ");
            text.append(location);
            text.append(
                ". If the plugin is provided by Nix or another package manager, override this location in Ki config.",
            );
        },
        (Some(_), Some(resolved)) => {
            if exists_there {
                return None;
            }
            text = "Configured LSP plugin path for server '".to_owned();
            text.append(server_id);
            text.append("' does not exist: plugin ");
            text.append(name);
            text.append(" location ");
            text.append(location);
            text.append(" resolved to ");
            text.append(resolved.as_str());
            text.append(
                ". If the plugin is provided by Nix or another package manager, override this location in Ki config.",
            );
        },
    }
    Some(text)
}

/// What is to be said of the paths in the configuration of a server that lead nowhere.
pub open spec fn path_warnings(
    server_id: Seq<char>,
    paths: Seq<ConfiguredPath<Seq<char>>>,
    exists_at: Seq<bool>,
) -> Seq<Seq<char>>
    decreases paths.len(),
{
    if paths.len() == 0 {
        Seq::empty()
    } else {
        let before = path_warnings(server_id, paths.drop_last(), exists_at);
        let path = paths.last();
        let name = match path.plugin {
            Some(name) => quoted_text(name),
            None => quoted_text(""@),
        };
        match path_warning(
            server_id,
            path,
            exists_at[paths.len() - 1],
            quoted_text(path.location),
            name,
        ) {
            Some(warning) => before.push(warning),
            None => before,
        }
    }
}

/// What is to be said of the paths in the configuration of a server that lead nowhere. `exists_at`
/// says of each path whether there is something at what it comes to.
pub fn warn_missing_configured_lsp_paths(
    server_id: &str,
    paths: &[ConfiguredPath<String>],
    exists_at: &[bool],
) -> (warnings: Vec<String>)
    requires
        exists_at.len() == paths.len(),
    ensures
        texts(warnings@) == path_warnings(server_id@, paths_view(paths@), exists_at@),
{
    let mut warnings: Vec<String> = Vec::new();
    let ghost all = paths_view(paths@);
    let mut i: usize = 0;
    assert(texts(warnings@) =~= path_warnings(server_id@, all.take(0), exists_at@));
    while i < paths.len()
        invariant
            i <= paths.len(),
            exists_at.len() == paths.len(),
            all == paths_view(paths@),
            texts(warnings@) == path_warnings(server_id@, all.take(i as int), exists_at@),
        decreases paths.len() - i,
    {
        let ghost before = texts(warnings@);
        assert(all.take(i + 1).drop_last() == all.take(i as int));
        assert(all.take(i + 1).last() == path_view(paths@[i as int]));
        let location = quote(paths[i].location.as_str());
        let name = match &paths[i].plugin {
            Some(name) => quote(name.as_str()),
            None => quote(""),
        };
        if let Some(warning) = warn_of_path(
            server_id,
            &paths[i],
            exists_at[i],
            location.as_str(),
            name.as_str(),
        ) {
            warnings.push(warning);
            assert(texts(warnings@) =~= before.push(warning@));
        }
        i += 1;
    }
    assert(all.take(all.len() as int) == all);
    warnings
}

/// The TypeScript SDK is looked for where the options have it under `typescript`, and else under
/// `typescript.tsdk`.
pub proof fn law_the_sdk_is_found_in_the_options(options: JsonSpec)
    ensures
        ({
            let nested = match options.get("typescript"@) {
                Some(typescript) => typescript.get("tsdk"@),
                None => None,
            };
            let flat = options.get("typescript.tsdk"@);
            &&& nested is Some && nested->0 is Text ==> configured_sdk(options) == Some(
                nested->0->Text_0,
            )
            &&& nested is None && flat is Some && flat->0 is Text ==> configured_sdk(options)
                == Some(flat->0->Text_0)
            &&& nested is None && flat is None ==> configured_sdk(options) is None
        }),
{
    reveal_with_fuel(at_path, 3);
    let keys = seq!["typescript"@, "tsdk"@];
    assert(keys.skip(1) =~= seq!["tsdk"@]);
    assert(keys.skip(1).skip(1) =~= Seq::<Seq<char>>::empty());
}

/// The plugins are those that the options list for the TypeScript server of `vtsls`.
pub proof fn law_plugins_are_found_in_the_options(
    options: JsonSpec,
    vtsls: JsonSpec,
    server: JsonSpec,
    plugins: Seq<JsonSpec>,
)
    requires
        options.get("vtsls"@) == Some(vtsls),
        vtsls.get("tsserver"@) == Some(server),
        server.get("globalPlugins"@) == Some(JsonSpec::Array(plugins)),
    ensures
        configured_plugins(options) == plugins,
{
    reveal_with_fuel(at_path, 4);
    let keys = seq!["vtsls"@, "tsserver"@, "globalPlugins"@];
    assert(keys.skip(1) =~= seq!["tsserver"@, "globalPlugins"@]);
    assert(keys.skip(1).skip(1) =~= seq!["globalPlugins"@]);
    assert(keys.skip(1).skip(1).skip(1) =~= Seq::<Seq<char>>::empty());
}

/// Each plugin that has a location has a path, in their order: that location and what it comes to,
/// under the name of the plugin.
pub proof fn law_plugins_with_a_location_have_a_path(
    plugins: Seq<JsonSpec>,
    root: Seq<char>,
    vue_plugin: Option<Seq<char>>,
)
    requires
        forall|i: int|
            0 <= i < plugins.len() ==> (#[trigger] plugins[i]).get("location"@) is Some
                && plugins[i].get("location"@)->0 is Text,
    ensures
        ({
            let paths = plugin_paths(plugins, root, vue_plugin);
            &&& paths.len() == plugins.len()
            &&& forall|i: int|
                0 <= i < paths.len() ==> {
                    &&& plugins[i].get("location"@) == Some(
                        JsonSpec::Text((#[trigger] paths[i]).location),
                    )
                    &&& paths[i].resolved == configured_path(paths[i].location, root, vue_plugin)
                    &&& paths[i].plugin is Some
                    &&& plugins[i].get("name"@) is Some && plugins[i].get("name"@)->0 is Text
                        ==> plugins[i].get("name"@) == Some(JsonSpec::Text(paths[i].plugin->0))
                }
        }),
    decreases plugins.len(),
{
    if plugins.len() > 0 {
        let rest = plugins.drop_last();
        assert forall|i: int| 0 <= i < rest.len() implies (#[trigger] rest[i]).get("location"@)
            is Some && rest[i].get("location"@)->0 is Text by {
            assert(rest[i] == plugins[i]);
        }
        law_plugins_with_a_location_have_a_path(rest, root, vue_plugin);
        assert(plugins[plugins.len() - 1].get("location"@) is Some);
        let before = plugin_paths(rest, root, vue_plugin);
        let paths = plugin_paths(plugins, root, vue_plugin);
        assert forall|i: int| 0 <= i < paths.len() implies {
            &&& plugins[i].get("location"@) == Some(JsonSpec::Text((#[trigger] paths[i]).location))
            &&& paths[i].resolved == configured_path(paths[i].location, root, vue_plugin)
            &&& paths[i].plugin is Some
            &&& plugins[i].get("name"@) is Some && plugins[i].get("name"@)->0 is Text
                ==> plugins[i].get("name"@) == Some(JsonSpec::Text(paths[i].plugin->0))
        } by {
            if i < before.len() {
                assert(paths[i] == before[i]);
                assert(rest[i] == plugins[i]);
            }
        }
    }
}

/// All paths of the options are looked at, that of the SDK first, unless the SDK is configured by a
/// placeholder that stands for nothing.
pub proof fn law_the_sdk_is_looked_at_first(
    options: JsonSpec,
    root: Seq<char>,
    vue_plugin: Option<Seq<char>>,
)
    ensures
        ({
            let paths = configured_paths(options, root, vue_plugin);
            let plugins = plugin_paths(configured_plugins(options), root, vue_plugin);
            let sdk = configured_sdk(options);
            &&& sdk is None ==> paths == plugins
            &&& sdk is Some ==> paths.len() > 0 && paths[0].plugin is None && paths[0].location
                == sdk->0 && paths[0].resolved == configured_path(sdk->0, root, vue_plugin)
            &&& sdk is Some && configured_path(sdk->0, root, vue_plugin) is Some ==> paths.skip(1)
                == plugins
            &&& sdk is Some && configured_path(sdk->0, root, vue_plugin) is None ==> paths.len()
                == 1
        }),
{
    let paths = configured_paths(options, root, vue_plugin);
    let plugins = plugin_paths(configured_plugins(options), root, vue_plugin);
    if configured_sdk(options) is Some {
        if configured_path(configured_sdk(options)->0, root, vue_plugin) is Some {
            assert(paths.skip(1) =~= plugins);
        }
    }
}

/// Whether there is something to say of a path: it comes to nothing, or nothing is there.
pub open spec fn leads_nowhere(path: ConfiguredPath<Seq<char>>, exists_there: bool) -> bool {
    path.resolved is None || !exists_there
}

/// Something is said of each path that leads nowhere, and nothing of the others. What is said of a
/// path does not depend on the others.
pub proof fn law_paths_that_lead_nowhere_are_told(
    server_id: Seq<char>,
    paths: Seq<ConfiguredPath<Seq<char>>>,
    exists_at: Seq<bool>,
)
    requires
        paths.len() <= exists_at.len(),
    ensures
        (forall|i: int|
            0 <= i < paths.len() ==> !leads_nowhere(#[trigger] paths[i], exists_at[i]))
            ==> path_warnings(server_id, paths, exists_at).len() == 0,
        (forall|i: int|
            0 <= i < paths.len() ==> leads_nowhere(#[trigger] paths[i], exists_at[i]))
            ==> path_warnings(server_id, paths, exists_at).len() == paths.len(),
        path_warnings(server_id, paths, exists_at).len() <= paths.len(),
        paths.len() > 0 ==> path_warnings(server_id, paths, exists_at).len() == path_warnings(
            server_id,
            paths.drop_last(),
            exists_at,
        ).len() + (if leads_nowhere(paths.last(), exists_at[paths.len() - 1]) {
            1nat
        } else {
            0
        }),
    decreases paths.len(),
{
    if paths.len() > 0 {
        let rest = paths.drop_last();
        law_paths_that_lead_nowhere_are_told(server_id, rest, exists_at);
        assert(paths[paths.len() - 1] == paths.last());
        if forall|i: int|
            0 <= i < paths.len() ==> !leads_nowhere(#[trigger] paths[i], exists_at[i]) {
            assert forall|i: int| 0 <= i < rest.len() implies !leads_nowhere(
                #[trigger] rest[i],
                exists_at[i],
            ) by {
                assert(rest[i] == paths[i]);
            }
        }
        if forall|i: int|
            0 <= i < paths.len() ==> leads_nowhere(#[trigger] paths[i], exists_at[i]) {
            assert forall|i: int| 0 <= i < rest.len() implies leads_nowhere(
                #[trigger] rest[i],
                exists_at[i],
            ) by {
                assert(rest[i] == paths[i]);
            }
        }
    }
}

/// A path means what it holds.
pub proof fn law_paths_mean_what_they_hold(path: ConfiguredPath<String>)
    ensures
        path_view(path).location == path.location@,
        path.plugin is Some ==> path_view(path).plugin == Some(path.plugin->0@),
        path.plugin is None ==> path_view(path).plugin is None,
        path.resolved is Some ==> path_view(path).resolved == Some(path.resolved->0@),
        path.resolved is None ==> path_view(path).resolved is None,
{
}

/// A warning names the server, the path as it is configured, what the path comes to and the plugin,
/// each in its place.
pub proof fn law_warnings_name_what_they_are_about(
    server_id: Seq<char>,
    path: ConfiguredPath<Seq<char>>,
    exists_there: bool,
    location: Seq<char>,
    name: Seq<char>,
)
    requires
        path_warning(server_id, path, exists_there, location, name) is Some,
    ensures
        ({
            let warning = path_warning(server_id, path, exists_there, location, name)->0;
            &&& contains_text(warning, "server '"@ + server_id + "'"@)
            &&& path.plugin is None ==> contains_text(warning, " "@ + location)
            &&& path.plugin is Some ==> contains_text(
                warning,
                "plugin "@ + name + " location "@ + location,
            )
            &&& path.resolved is Some ==> contains_text(
                warning,
                location + " resolved to "@ + path.resolved->0 + "."@,
            )
        }),
{
    let warning = path_warning(server_id, path, exists_there, location, name)->0;
    let none = Seq::<char>::empty();
    let server = "server '"@ + server_id + "'"@;
    let placed = " "@ + location;
    let plugin = "plugin "@ + name + " location "@ + location;
    reveal_strlit("server '");
    reveal_strlit("'");
    reveal_strlit(" ");
    reveal_strlit("plugin ");
    reveal_strlit(".");
    match (path.plugin, path.resolved) {
        (None, None) => {
            let front = "Unable to resolve configured TypeScript SDK placeholder "@;
            let middle = " for LSP server '"@;
            reveal_strlit("Unable to resolve configured TypeScript SDK placeholder ");
            reveal_strlit(" for LSP server '");
            assert(middle =~= middle.take(9) + "server '"@);
            assert(front =~= front.drop_last() + " "@);
            assert(warning =~= front + location + middle.take(9) + server + none);
            assert(warning =~= front.drop_last() + placed + (middle + server_id + "'"@));
            law_parts_are_contained(front + location + middle.take(9), server, none);
            law_parts_are_contained(front.drop_last(), placed, middle + server_id + "'"@);
        },
        (None, Some(resolved)) => {
            let front = "Configured LSP path for server '"@;
            let middle = "' does not exist: typescript tsdk "@;
            let end = ". If the server is installed/configured through Nix or another package manager, override this path in Ki config."@;
            reveal_strlit("Configured LSP path for server '");
            reveal_strlit("' does not exist: typescript tsdk ");
            reveal_strlit(". If the server is installed/configured through Nix or another package manager, override this path in Ki config.");
            let ended = location + " resolved to "@ + resolved + "."@;
            assert(front =~= front.take(24) + "server '"@);
            assert(middle =~= "'"@ + middle.skip(1));
            assert(middle =~= middle.drop_last() + " "@);
            assert(end =~= "."@ + end.skip(1));
            let behind = middle.skip(1) + location + " resolved to "@ + resolved + end;
            assert(warning =~= front.take(24) + server + behind);
            law_parts_are_contained(front.take(24), server, behind);
            let before = front + server_id + middle.drop_last();
            let rest = " resolved to "@ + resolved + end;
            assert(warning =~= before + placed + rest);
            law_parts_are_contained(before, placed, rest);
            assert(warning =~= front + server_id + middle + ended + end.skip(1));
            law_parts_are_contained(front + server_id + middle, ended, end.skip(1));
        },
        (Some(_), None) => {
            let front = "Unable to resolve configured LSP plugin placeholder for server '"@;
            let middle = "': plugin "@;
            let end = ". If the plugin is provided by Nix or another package manager, override this location in Ki config."@;
            reveal_strlit("Unable to resolve configured LSP plugin placeholder for server '");
            reveal_strlit("': plugin ");
            assert(front =~= front.take(56) + "server '"@);
            assert(middle =~= "'"@ + middle.skip(1));
            assert(middle =~= middle.take(3) + "plugin "@);
            let behind = middle.skip(1) + name + " location "@ + location + end;
            assert(warning =~= front.take(56) + server + behind);
            law_parts_are_contained(front.take(56), server, behind);
            assert(warning =~= front + server_id + middle.take(3) + plugin + end);
            law_parts_are_contained(front + server_id + middle.take(3), plugin, end);
        },
        (Some(_), Some(resolved)) => {
            let front = "Configured LSP plugin path for server '"@;
            let middle = "' does not exist: plugin "@;
            let end = ". If the plugin is provided by Nix or another package manager, override this location in Ki config."@;
            reveal_strlit("Configured LSP plugin path for server '");
            reveal_strlit("' does not exist: plugin ");
            reveal_strlit(". If the plugin is provided by Nix or another package manager, override this location in Ki config.");
            let ended = location + " resolved to "@ + resolved + "."@;
            let cut: int = middle.len() - 7;
            assert(front =~= front.take(31) + "server '"@);
            assert(middle =~= "'"@ + middle.skip(1));
            assert(middle =~= middle.take(cut) + "plugin "@);
            assert(end =~= "."@ + end.skip(1));
            let rest = " resolved to "@ + resolved + end;
            let behind = middle.skip(1) + name + " location "@ + location + rest;
            assert(warning =~= front.take(31) + server + behind);
            law_parts_are_contained(front.take(31), server, behind);
            assert(warning =~= front + server_id + middle.take(cut) + plugin + rest);
            law_parts_are_contained(front + server_id + middle.take(cut), plugin, rest);
            let before = front + server_id + middle + name + " location "@;
            assert(warning =~= before + ended + end.skip(1));
            law_parts_are_contained(before, ended, end.skip(1));
        },
    }
}

} // verus!
