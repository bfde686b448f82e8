//! What a language server says that it can do.

use crate::json::{Json, JsonSpec};
use crate::text::{str_eq, texts};
use vstd::prelude::*;

verus! {

/// How a server wants to hear of the changes of a document.
#[derive(Clone, Copy, Debug, PartialEq, Eq, Structural)]
pub enum TextDocumentSyncKind {
    /// Not at all.
    Nothing,
    /// By the whole text.
    Full,
    /// By the ranges that changed.
    Incremental,
    /// In a way that the protocol does not define.
    Other,
}

/// What a server wants to hear of the documents that are open.
#[derive(Clone, Copy, Debug, PartialEq, Eq, Structural)]
pub struct TextDocumentSyncOptions {
    pub open_close: Option<bool>,
    pub change: Option<TextDocumentSyncKind>,
    /// Whether the server wants to hear of saves, where it says so.
    pub save: Option<bool>,
}

/// What a server wants to hear of the documents that are open, in short or at length.
#[derive(Clone, Copy, Debug, PartialEq, Eq, Structural)]
pub enum TextDocumentSync {
    Kind(TextDocumentSyncKind),
    Options(TextDocumentSyncOptions),
}

/// The units in which a server counts the characters of a line.
#[derive(Clone, Copy, Debug, PartialEq, Eq, Structural)]
pub enum PositionEncoding {
    Utf8,
    Utf16,
    Utf32,
    /// Units that the protocol does not define.
    Other,
}

/// The requests that a server answers.
#[derive(Clone, Copy, Debug, PartialEq, Eq, Structural)]
pub struct Providers {
    pub hover: bool,
    pub signature_help: bool,
    pub definition: bool,
    pub type_definition: bool,
    pub implementation: bool,
    pub references: bool,
    pub document_symbol: bool,
    pub workspace_symbol: bool,
    pub code_action: bool,
    /// Whether the server completes code actions, where it says so.
    pub code_action_resolve: Option<bool>,
    pub rename: bool,
    pub declaration: bool,
    pub execute_command: bool,
    pub call_hierarchy: bool,
    pub diagnostic: bool,
    pub completion: bool,
    /// Whether the server completes completion items, where it says so.
    pub completion_resolve: Option<bool>,
    pub did_create_files: bool,
    pub did_rename_files: bool,
}

/// What a server says that it can do. `L` is how lists of texts are held.
pub struct Capabilities<L> {
    pub text_document_sync: Option<TextDocumentSync>,
    pub position_encoding: Option<PositionEncoding>,
    pub providers: Providers,
    /// The characters that ask for completion, where the server says which.
    pub trigger_characters: Option<L>,
}

/// What a server says that it can do.
pub type ServerCapabilities = Capabilities<Vec<String>>;

/// The meaning of what a server says that it can do.
pub type CapabilitiesSpec = Capabilities<Seq<Seq<char>>>;

impl View for Capabilities<Vec<String>> {
    type V = CapabilitiesSpec;

    open spec fn view(&self) -> CapabilitiesSpec {
        Capabilities {
            text_document_sync: self.text_document_sync,
            position_encoding: self.position_encoding,
            providers: self.providers,
            trigger_characters: match self.trigger_characters {
                Some(list) => Some(texts(list@)),
                None => None,
            },
        }
    }
}

impl Providers {
    /// No request is answered.
    pub open spec fn spec_none() -> Providers {
        Providers {
            hover: false,
            signature_help: false,
            definition: false,
            type_definition: false,
            implementation: false,
            references: false,
            document_symbol: false,
            workspace_symbol: false,
            code_action: false,
            code_action_resolve: None,
            rename: false,
            declaration: false,
            execute_command: false,
            call_hierarchy: false,
            diagnostic: false,
            completion: false,
            completion_resolve: None,
            did_create_files: false,
            did_rename_files: false,
        }
    }

    /// No request is answered.
    pub fn none() -> (providers: Providers)
        ensures
            providers == Providers::spec_none(),
    {
        Providers {
            hover: false,
            signature_help: false,
            definition: false,
            type_definition: false,
            implementation: false,
            references: false,
            document_symbol: false,
            workspace_symbol: false,
            code_action: false,
            code_action_resolve: None,
            rename: false,
            declaration: false,
            execute_command: false,
            call_hierarchy: false,
            diagnostic: false,
            completion: false,
            completion_resolve: None,
            did_create_files: false,
            did_rename_files: false,
        }
    }
}

impl<L> Default for Capabilities<L> {
    fn default() -> (capabilities: Capabilities<L>)
        ensures
            capabilities == (Capabilities::<L> {
                text_document_sync: None,
                position_encoding: None,
                providers: Providers::spec_none(),
                trigger_characters: None,
            }),
    {
        Capabilities {
            text_document_sync: None,
            position_encoding: None,
            providers: Providers::none(),
            trigger_characters: None,
        }
    }
}

impl<L> Capabilities<L> {
    /// Whether the server wants to hear of documents that are opened and closed.
    pub open spec fn spec_supports_open_close(self) -> bool {
        match self.text_document_sync {
            Some(TextDocumentSync::Kind(kind)) => !(kind is Nothing),
            Some(TextDocumentSync::Options(options)) => options.open_close == Some(true),
            None => false,
        }
    }

    /// How the server wants to hear of changes, where it wants to at all.
    pub open spec fn spec_sync_kind(self) -> Option<TextDocumentSyncKind> {
        match self.text_document_sync {
            Some(TextDocumentSync::Kind(kind)) => if kind is Nothing {
                None
            } else {
                Some(kind)
            },
            Some(TextDocumentSync::Options(options)) => match options.change {
                Some(kind) => if kind is Nothing {
                    None
                } else {
                    Some(kind)
                },
                None => None,
            },
            None => None,
        }
    }

    /// Whether the server wants to hear of documents that are saved.
    pub open spec fn spec_supports_save(self) -> bool {
        match self.text_document_sync {
            Some(TextDocumentSync::Options(options)) => options.save == Some(true),
            _ => false,
        }
    }

    /// The units in which the server counts characters.
    pub open spec fn spec_encoding(self) -> PositionEncoding {
        match self.position_encoding {
            Some(encoding) => encoding,
            None => PositionEncoding::Utf16,
        }
    }

    /// Whether the server wants to hear of documents that are opened and closed.
    pub fn server_supports_text_document_open_close(&self) -> (supports: bool)
        ensures
            supports == self.spec_supports_open_close(),
    {
        match &self.text_document_sync {
            Some(TextDocumentSync::Kind(kind)) => !matches!(kind, TextDocumentSyncKind::Nothing),
            Some(TextDocumentSync::Options(options)) => match options.open_close {
                Some(open_close) => open_close,
                None => false,
            },
            None => false,
        }
    }

    /// How the server wants to hear of changes, where it wants to at all.
    pub fn server_text_document_sync_kind(&self) -> (kind: Option<TextDocumentSyncKind>)
        ensures
            kind == self.spec_sync_kind(),
    {
        let kind = match &self.text_document_sync {
            Some(TextDocumentSync::Kind(kind)) => Some(*kind),
            Some(TextDocumentSync::Options(options)) => options.change,
            None => None,
        };
        match kind {
            Some(TextDocumentSyncKind::Nothing) => None,
            other => other,
        }
    }

    /// Whether the server wants to hear of changes.
    pub fn server_supports_text_document_change(&self) -> (supports: bool)
        ensures
            supports == self.spec_sync_kind() is Some,
    {
        self.server_text_document_sync_kind().is_some()
    }

    /// Whether the server wants to hear of documents that are saved.
    pub fn server_supports_text_document_save(&self) -> (supports: bool)
        ensures
            supports == self.spec_supports_save(),
    {
        match &self.text_document_sync {
            Some(TextDocumentSync::Options(options)) => match options.save {
                Some(save) => save,
                None => false,
            },
            _ => false,
        }
    }

    /// Whether the server wants to hear of files that are created.
    pub fn server_supports_workspace_did_create_files(&self) -> (supports: bool)
        ensures
            supports == self.providers.did_create_files,
    {
        self.providers.did_create_files
    }

    /// Whether the server wants to hear of files that are renamed.
    pub fn server_supports_workspace_did_rename_files(&self) -> (supports: bool)
        ensures
            supports == self.providers.did_rename_files,
    {
        self.providers.did_rename_files
    }

    /// The units in which the server counts characters.
    pub fn encoding(&self) -> (encoding: PositionEncoding)
        ensures
            encoding == self.spec_encoding(),
    {
        match self.position_encoding {
            Some(encoding) => encoding,
            None => PositionEncoding::Utf16,
        }
    }
}

/// The value of the member called `name`, where there is one that is not `null`.
pub open spec fn present(object: JsonSpec, name: Seq<char>) -> Option<JsonSpec> {
    match object.get(name) {
        Some(value) => if value is Null {
            None
        } else {
            Some(value)
        },
        None => None,
    }
}

/// Whether there is a member called `name` that is not `null`.
pub open spec fn provides(object: JsonSpec, name: Seq<char>) -> bool {
    present(object, name) is Some
}

/// The value of the member called `name`, where it is a truth value.
pub open spec fn flag(object: JsonSpec, name: Seq<char>) -> Option<bool> {
    match object.get(name) {
        Some(JsonSpec::Bool(value)) => Some(value),
        _ => None,
    }
}

/// The kind of synchronisation that a number stands for.
pub open spec fn sync_kind_of(value: JsonSpec) -> TextDocumentSyncKind {
    match value {
        JsonSpec::Unsigned(code) => if code == 0 {
            TextDocumentSyncKind::Nothing
        } else if code == 1 {
            TextDocumentSyncKind::Full
        } else if code == 2 {
            TextDocumentSyncKind::Incremental
        } else {
            TextDocumentSyncKind::Other
        },
        _ => TextDocumentSyncKind::Other,
    }
}

/// What the `textDocumentSync` member of a server's capabilities says.
pub open spec fn sync_of(value: JsonSpec) -> TextDocumentSync {
    match value {
        JsonSpec::Object(_) => TextDocumentSync::Options(
            TextDocumentSyncOptions {
                open_close: flag(value, "openClose"@),
                change: match present(value, "change"@) {
                    Some(kind) => Some(sync_kind_of(kind)),
                    None => None,
                },
                save: match present(value, "save"@) {
                    Some(JsonSpec::Bool(save)) => Some(save),
                    Some(_) => Some(true),
                    None => None,
                },
            },
        ),
        _ => TextDocumentSync::Kind(sync_kind_of(value)),
    }
}

/// The units that a text names.
pub open spec fn encoding_of(value: JsonSpec) -> PositionEncoding {
    match value {
        JsonSpec::Text(text) => if text == "utf-8"@ {
            PositionEncoding::Utf8
        } else if text == "utf-16"@ {
            PositionEncoding::Utf16
        } else if text == "utf-32"@ {
            PositionEncoding::Utf32
        } else {
            PositionEncoding::Other
        },
        _ => PositionEncoding::Other,
    }
}

/// The member of a member, where there is one that is not `null`.
pub open spec fn present_in(object: JsonSpec, outer: Seq<char>, inner: Seq<char>) -> Option<
    JsonSpec,
> {
    match object.get(outer) {
        Some(value) => present(value, inner),
        None => None,
    }
}

/// The requests that a server with these capabilities answers.
pub open spec fn providers_of(value: JsonSpec) -> Providers {
    let operations = match value.get("workspace"@) {
        Some(workspace) => match workspace.get("fileOperations"@) {
            Some(operations) => operations,
            None => JsonSpec::Null,
        },
        None => JsonSpec::Null,
    };
    Providers {
        hover: provides(value, "hoverProvider"@),
        signature_help: provides(value, "signatureHelpProvider"@),
        definition: provides(value, "definitionProvider"@),
        type_definition: provides(value, "typeDefinitionProvider"@),
        implementation: provides(value, "implementationProvider"@),
        references: provides(value, "referencesProvider"@),
        document_symbol: provides(value, "documentSymbolProvider"@),
        workspace_symbol: provides(value, "workspaceSymbolProvider"@),
        code_action: provides(value, "codeActionProvider"@),
        code_action_resolve: match value.get("codeActionProvider"@) {
            Some(provider) => flag(provider, "resolveProvider"@),
            None => None,
        },
        rename: provides(value, "renameProvider"@),
        declaration: provides(value, "declarationProvider"@),
        execute_command: provides(value, "executeCommandProvider"@),
        call_hierarchy: provides(value, "callHierarchyProvider"@),
        diagnostic: provides(value, "diagnosticProvider"@),
        completion: provides(value, "completionProvider"@),
        completion_resolve: match value.get("completionProvider"@) {
            Some(provider) => flag(provider, "resolveProvider"@),
            None => None,
        },
        did_create_files: provides(operations, "didCreate"@),
        did_rename_files: provides(operations, "didRename"@),
    }
}

/// The texts among the items of an array.
pub open spec fn texts_among(items: Seq<JsonSpec>) -> Seq<Seq<char>>
    decreases items.len(),
{
    if items.len() == 0 {
        Seq::empty()
    } else {
        match items.last() {
            JsonSpec::Text(text) => texts_among(items.drop_last()).push(text),
            _ => texts_among(items.drop_last()),
        }
    }
}

/// What a server with these capabilities can do.
pub open spec fn capabilities_of(value: JsonSpec) -> CapabilitiesSpec {
    Capabilities {
        text_document_sync: match present(value, "textDocumentSync"@) {
            Some(sync) => Some(sync_of(sync)),
            None => None,
        },
        position_encoding: match present(value, "positionEncoding"@) {
            Some(encoding) => Some(encoding_of(encoding)),
            None => None,
        },
        providers: providers_of(value),
        trigger_characters: match present_in(
            value,
            "completionProvider"@,
            "triggerCharacters"@,
        ) {
            Some(JsonSpec::Array(items)) => Some(texts_among(items)),
            _ => None,
        },
    }
}

/// The value of the member called `name`, where there is one that is not `null`.
pub fn find_present<'a>(object: &'a Json, name: &str) -> (value: Option<&'a Json>)
    ensures
        match value {
            Some(value) => present(object@, name@) == Some(value@),
            None => present(object@, name@) is None,
        },
{
    match object.get(name) {
        Some(value) => if value.is_null() {
            None
        } else {
            Some(value)
        },
        None => None,
    }
}

/// Whether there is a member called `name` that is not `null`.
pub fn find_provided(object: &Json, name: &str) -> (provided: bool)
    ensures
        provided == provides(object@, name@),
{
    find_present(object, name).is_some()
}

/// The value of the member called `name`, where it is a truth value.
pub fn find_flag(object: &Json, name: &str) -> (value: Option<bool>)
    ensures
        value == flag(object@, name@),
{
    match object.get(name) {
        Some(value) => match value {
            Json::Bool(value) => Some(*value),
            _ => None,
        },
        None => None,
    }
}

fn read_sync_kind(value: &Json) -> (kind: TextDocumentSyncKind)
    ensures
        kind == sync_kind_of(value@),
{
    match value.as_u64() {
        Some(0) => TextDocumentSyncKind::Nothing,
        Some(1) => TextDocumentSyncKind::Full,
        Some(2) => TextDocumentSyncKind::Incremental,
        _ => TextDocumentSyncKind::Other,
    }
}

fn read_sync(value: &Json) -> (sync: TextDocumentSync)
    ensures
        sync == sync_of(value@),
{
    match value {
        Json::Object(_) => {
            let change = match find_present(value, "change") {
                Some(kind) => Some(read_sync_kind(kind)),
                None => None,
            };
            let save = match find_present(value, "save") {
                Some(Json::Bool(save)) => Some(*save),
                Some(_) => Some(true),
                None => None,
            };
            TextDocumentSync::Options(
                TextDocumentSyncOptions { open_close: find_flag(value, "openClose"), change, save },
            )
        },
        _ => TextDocumentSync::Kind(read_sync_kind(value)),
    }
}

fn read_encoding(value: &Json) -> (encoding: PositionEncoding)
    ensures
        encoding == encoding_of(value@),
{
    match value.as_text() {
        Some(text) => if str_eq(text, "utf-8") {
            PositionEncoding::Utf8
        } else if str_eq(text, "utf-16") {
            PositionEncoding::Utf16
        } else if str_eq(text, "utf-32") {
            PositionEncoding::Utf32
        } else {
            PositionEncoding::Other
        },
        None => PositionEncoding::Other,
    }
}

fn read_texts(items: &Vec<Json>) -> (list: Vec<String>)
    ensures
        texts(list@) == texts_among(Json::Array(*items)@->Array_0),
{
    let mut list: Vec<String> = Vec::new();
    let ghost all = Json::Array(*items)@->Array_0;
    let mut i: usize = 0;
    assert(texts(list@) =~= texts_among(all.take(0)));
    while i < items.len()
        invariant
            i <= items.len(),
            all == Json::Array(*items)@->Array_0,
            texts(list@) == texts_among(all.take(i as int)),
        decreases items.len() - i,
    {
        assert(all.take(i + 1).drop_last() == all.take(i as int));
        assert(all.take(i + 1).last() == items@[i as int]@);
        if let Some(text) = items[i].as_text() {
            let ghost before = list@;
            list.push(text.to_owned());
            assert(texts(list@) =~= texts(before).push(text@));
        }
        i += 1;
    }
    assert(all.take(items@.len() as int) == all);
    list
}

fn read_providers(value: &Json) -> (providers: Providers)
    ensures
        providers == providers_of(value@),
{
    let (did_create_files, did_rename_files) = match value.get("workspace") {
        Some(workspace) => match workspace.get("fileOperations") {
            Some(operations) => (
                find_provided(operations, "didCreate"),
                find_provided(operations, "didRename"),
            ),
            None => (false, false),
        },
        None => (false, false),
    };
    let code_action_resolve = match value.get("codeActionProvider") {
        Some(provider) => find_flag(provider, "resolveProvider"),
        None => None,
    };
    let completion_resolve = match value.get("completionProvider") {
        Some(provider) => find_flag(provider, "resolveProvider"),
        None => None,
    };
    Providers {
        hover: find_provided(value, "hoverProvider"),
        signature_help: find_provided(value, "signatureHelpProvider"),
        definition: find_provided(value, "definitionProvider"),
        type_definition: find_provided(value, "typeDefinitionProvider"),
        implementation: find_provided(value, "implementationProvider"),
        references: find_provided(value, "referencesProvider"),
        document_symbol: find_provided(value, "documentSymbolProvider"),
        workspace_symbol: find_provided(value, "workspaceSymbolProvider"),
        code_action: find_provided(value, "codeActionProvider"),
        code_action_resolve,
        rename: find_provided(value, "renameProvider"),
        declaration: find_provided(value, "declarationProvider"),
        execute_command: find_provided(value, "executeCommandProvider"),
        call_hierarchy: find_provided(value, "callHierarchyProvider"),
        diagnostic: find_provided(value, "diagnosticProvider"),
        completion: find_provided(value, "completionProvider"),
        completion_resolve,
        did_create_files,
        did_rename_files,
    }
}

/// What a server with these capabilities can do.
pub fn read_capabilities(value: &Json) -> (capabilities: ServerCapabilities)
    ensures
        capabilities@ == capabilities_of(value@),
{
    let text_document_sync = match find_present(value, "textDocumentSync") {
        Some(sync) => Some(read_sync(sync)),
        None => None,
    };
    let position_encoding = match find_present(value, "positionEncoding") {
        Some(encoding) => Some(read_encoding(encoding)),
        None => None,
    };
    let trigger_characters = match value.get("completionProvider") {
        Some(provider) => match find_present(provider, "triggerCharacters") {
            Some(list) => match list {
                Json::Array(items) => Some(read_texts(items)),
                _ => None,
            },
            None => None,
        },
        None => None,
    };
    Capabilities {
        text_document_sync,
        position_encoding,
        providers: read_providers(value),
        trigger_characters,
    }
}

/// Whether an object has a member called `name` that is not `null`.
pub open spec fn names(object: JsonSpec, name: Seq<char>) -> bool {
    object.get(name) is Some && !(object.get(name)->0 is Null)
}

/// A server answers the requests that it names, each under its own name, and no others.
pub proof fn law_servers_answer_what_they_name(value: JsonSpec)
    ensures
        ({
            let providers = capabilities_of(value).providers;
            &&& providers.hover == names(value, "hoverProvider"@)
            &&& providers.signature_help == names(value, "signatureHelpProvider"@)
            &&& providers.definition == names(value, "definitionProvider"@)
            &&& providers.type_definition == names(value, "typeDefinitionProvider"@)
            &&& providers.implementation == names(value, "implementationProvider"@)
            &&& providers.references == names(value, "referencesProvider"@)
            &&& providers.document_symbol == names(value, "documentSymbolProvider"@)
            &&& providers.workspace_symbol == names(value, "workspaceSymbolProvider"@)
            &&& providers.code_action == names(value, "codeActionProvider"@)
            &&& providers.rename == names(value, "renameProvider"@)
            &&& providers.declaration == names(value, "declarationProvider"@)
            &&& providers.execute_command == names(value, "executeCommandProvider"@)
            &&& providers.call_hierarchy == names(value, "callHierarchyProvider"@)
            &&& providers.diagnostic == names(value, "diagnosticProvider"@)
            &&& providers.completion == names(value, "completionProvider"@)
            &&& value.get("codeActionProvider"@) is Some && value.get(
                "codeActionProvider"@,
            )->0.get("resolveProvider"@) == Some(JsonSpec::Bool(true)) <==>
                providers.code_action_resolve == Some(true)
            &&& value.get("completionProvider"@) is Some && value.get(
                "completionProvider"@,
            )->0.get("resolveProvider"@) == Some(JsonSpec::Bool(true)) <==>
                providers.completion_resolve == Some(true)
            &&& value.get("workspace"@) is None ==> !providers.did_create_files
                && !providers.did_rename_files
            &&& value.get("workspace"@) is Some && value.get("workspace"@)->0.get(
                "fileOperations"@,
            ) is Some ==> {
                let operations = value.get("workspace"@)->0.get("fileOperations"@)->0;
                &&& providers.did_create_files == names(operations, "didCreate"@)
                &&& providers.did_rename_files == names(operations, "didRename"@)
            }
        }),
{
}

/// Where a server says by a number how it wants to hear of documents, 1 means by their whole text,
/// 2 by ranges, and 0 not at all. It then wants to hear of documents that are opened and closed,
/// unless it is 0, and never of saves.
pub proof fn law_numbers_say_how_documents_are_told(value: JsonSpec, kind: u64)
    requires
        value.get("textDocumentSync"@) == Some(JsonSpec::Unsigned(kind)),
    ensures
        ({
            let capabilities = capabilities_of(value);
            &&& kind == 0 ==> capabilities.spec_sync_kind() is None
            &&& kind == 1 ==> capabilities.spec_sync_kind() == Some(TextDocumentSyncKind::Full)
            &&& kind == 2 ==> capabilities.spec_sync_kind() == Some(
                TextDocumentSyncKind::Incremental,
            )
            &&& capabilities.spec_supports_open_close() <==> kind != 0
            &&& !capabilities.spec_supports_save()
        }),
{
}

/// Where a server says at length how it wants to hear of documents, each wish stands under its own
/// name. What it does not say it does not want.
pub proof fn law_options_say_how_documents_are_told(value: JsonSpec)
    requires
        value.get("textDocumentSync"@) is Some,
        value.get("textDocumentSync"@)->0 is Object,
    ensures
        ({
            let capabilities = capabilities_of(value);
            let options = value.get("textDocumentSync"@)->0;
            let change = options.get("change"@);
            let save = options.get("save"@);
            &&& capabilities.spec_supports_open_close() <==> options.get("openClose"@) == Some(
                JsonSpec::Bool(true),
            )
            &&& change is None || change == Some(JsonSpec::Null) || change == Some(
                JsonSpec::Unsigned(0),
            ) ==> capabilities.spec_sync_kind() is None
            &&& change == Some(JsonSpec::Unsigned(1)) ==> capabilities.spec_sync_kind() == Some(
                TextDocumentSyncKind::Full,
            )
            &&& change == Some(JsonSpec::Unsigned(2)) ==> capabilities.spec_sync_kind() == Some(
                TextDocumentSyncKind::Incremental,
            )
            &&& capabilities.spec_supports_save() <==> save is Some && !(save->0 is Null) && save
                != Some(JsonSpec::Bool(false))
        }),
{
}

/// A server that says nothing of documents wants to hear nothing of them. Characters are counted in
/// the units that the server names, and in UTF-16 where it names none.
pub proof fn law_silence_says_nothing_of_documents(value: JsonSpec)
    ensures
        ({
            let capabilities = capabilities_of(value);
            let encoding = value.get("positionEncoding"@);
            &&& !names(value, "textDocumentSync"@) ==> capabilities.spec_sync_kind() is None
                && !capabilities.spec_supports_open_close() && !capabilities.spec_supports_save()
            &&& !names(value, "positionEncoding"@) ==> capabilities.spec_encoding()
                == PositionEncoding::Utf16
            &&& encoding == Some(JsonSpec::Text("utf-8"@)) ==> capabilities.spec_encoding()
                == PositionEncoding::Utf8
            &&& encoding == Some(JsonSpec::Text("utf-16"@)) ==> capabilities.spec_encoding()
                == PositionEncoding::Utf16
            &&& encoding == Some(JsonSpec::Text("utf-32"@)) ==> capabilities.spec_encoding()
                == PositionEncoding::Utf32
        }),
{
    reveal_strlit("utf-8");
    reveal_strlit("utf-16");
    reveal_strlit("utf-32");
    assert("utf-8"@.len() == 5 && "utf-16"@.len() == 6 && "utf-32"@.len() == 6);
    assert("utf-16"@[4] == '1' && "utf-32"@[4] == '3');
}

proof fn lemma_texts_among(items: Seq<JsonSpec>)
    requires
        forall|i: int| 0 <= i < items.len() ==> (#[trigger] items[i]) is Text,
    ensures
        texts_among(items).len() == items.len(),
        forall|i: int|
            0 <= i < items.len() ==> #[trigger] items[i] == JsonSpec::Text(texts_among(items)[i]),
    decreases items.len(),
{
    if items.len() > 0 {
        let rest = items.drop_last();
        assert forall|i: int| 0 <= i < rest.len() implies (#[trigger] rest[i]) is Text by {
            assert(rest[i] == items[i]);
        }
        lemma_texts_among(rest);
        assert(items[items.len() - 1] is Text);
        assert forall|i: int| 0 <= i < items.len() implies #[trigger] items[i] == JsonSpec::Text(
            texts_among(items)[i],
        ) by {
            if i < rest.len() {
                assert(rest[i] == items[i]);
            }
        }
    }
}

/// The characters that ask for completion are those that the server lists with what it says of
/// completion, in their order.
pub proof fn law_trigger_characters_are_those_listed(value: JsonSpec, items: Seq<JsonSpec>)
    requires
        value.get("completionProvider"@) is Some,
        value.get("completionProvider"@)->0.get("triggerCharacters"@) == Some(
            JsonSpec::Array(items),
        ),
        forall|i: int| 0 <= i < items.len() ==> (#[trigger] items[i]) is Text,
    ensures
        capabilities_of(value).trigger_characters is Some,
        capabilities_of(value).trigger_characters->0.len() == items.len(),
        forall|i: int|
            0 <= i < items.len() ==> #[trigger] items[i] == JsonSpec::Text(
                capabilities_of(value).trigger_characters->0[i],
            ),
{
    lemma_texts_among(items);
}

/// A server that says nothing answers no request: what is known of it is what is known of a server
/// that has not spoken.
pub proof fn law_servers_that_say_nothing_answer_nothing()
    ensures
        capabilities_of(JsonSpec::Null).providers == Providers::spec_none(),
        capabilities_of(JsonSpec::object()).providers == Providers::spec_none(),
{
}

} // verus!
