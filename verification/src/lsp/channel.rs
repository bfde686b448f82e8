//! The editor's end of a session with a language server: starting the server, talking to it, and
//! making sure that it ends.

use crate::json::Json;
use crate::lsp::outcome::Outcome;
use crate::lsp::process::{LspServerProcess, LspServerProcessMessage};
use crate::lsp::protocol::FromEditor;
use crate::lsp::server_config::LspDiagnosticMode;
use crate::lsp::session::{initialize_step, Session};
use crate::path::AbsolutePath;
use vstd::prelude::*;

verus! {

/// A group of processes, by the number of the process that leads it.
#[derive(Clone, Copy, Debug, PartialEq, Eq, Structural)]
pub struct ProcessGroup(pub u32);

impl ProcessGroup {
    /// The number that a signal for the whole group is addressed to: the number of the leader, with
    /// a minus. `None` where the system has no such number.
    pub fn target(self) -> (target: Option<i32>)
        ensures
            match target {
                Some(target) => self.0 <= i32::MAX && target == -(self.0 as int),
                None => self.0 > i32::MAX,
            },
    {
        if self.0 > i32::MAX as u32 {
            None
        } else {
            Some(-(self.0 as i32))
        }
    }

    /// Whether a group is gone after a signal that ends processes. `result` is what the system
    /// returned, and `no_such_process` says that it found none.
    pub fn is_gone(self, result: i32, no_such_process: bool) -> (gone: bool)
        ensures
            gone == (result == 0 || no_such_process),
    {
        result == 0 || no_such_process
    }
}

/// What keeps a message from reaching a server.
#[derive(Debug)]
pub enum SendError {
    /// The server has closed its input.
    BrokenPipe,
    Other(String),
}

/// Whether an error means that nothing will reach the server any more.
pub fn is_transport_error(error: &SendError) -> (transport: bool)
    ensures
        transport == error is BrokenPipe,
{
    matches!(error, SendError::BrokenPipe)
}

/// What a process that was started has to offer.
pub struct Spawned {
    pub id: u32,
    pub has_stdin: bool,
    pub has_stdout: bool,
    pub has_stderr: bool,
}

/// What keeps a session from being started.
#[derive(Clone, Copy, Debug, PartialEq, Eq, Structural)]
pub enum StartError {
    NoStdin,
    NoStderr,
    NoStdout,
}

impl StartError {
    /// What the error says.
    pub open spec fn spec_message(self) -> Seq<char> {
        match self {
            StartError::NoStdin => "Unable to obtain stdin"@,
            StartError::NoStderr => "Unable to obtain stderr"@,
            StartError::NoStdout => "Unable to obtain stdout"@,
        }
    }

    /// What the error says.
    pub fn message(self) -> (message: &'static str)
        ensures
            message@ == self.spec_message(),
    {
        match self {
            StartError::NoStdin => "Unable to obtain stdin",
            StartError::NoStderr => "Unable to obtain stderr",
            StartError::NoStdout => "Unable to obtain stdout",
        }
    }
}

/// How a server is to be started.
pub struct StartConfig {
    pub server_id: String,
    pub root: AbsolutePath,
    pub diagnostic_mode: LspDiagnosticMode,
    pub initialization_options: Option<Json>,
    pub vue_typescript_plugin: Option<String>,
    /// The language as the server calls it, where that differs.
    pub server_language_id: Option<String>,
    /// The language of the documents.
    pub language_id: Option<String>,
}

/// The session with a server that nothing was said to yet.
pub open spec fn new_session(config: StartConfig) -> Session {
    Session {
        server_id: config.server_id@,
        root: config.root@,
        diagnostic_mode: config.diagnostic_mode,
        options: match config.initialization_options {
            Some(options) => Some(options@),
            None => None,
        },
        plugin: match config.vue_typescript_plugin {
            Some(plugin) => Some(plugin@),
            None => None,
        },
        capabilities: None,
        documents: Map::empty(),
        next_request_id: 0,
        pending: Map::empty(),
        directions: Map::empty(),
        is_initialized: false,
    }
}

/// A document that is open in the editor.
#[derive(Debug)]
pub struct OpenDocument {
    pub path: AbsolutePath,
    pub version: usize,
    pub content: String,
}

impl OpenDocument {
    /// The same document.
    pub fn copy(&self) -> (copy: OpenDocument)
        ensures
            copy == *self,
    {
        OpenDocument {
            path: self.path.copy(),
            version: self.version,
            content: self.content.clone(),
        }
    }
}

/// The language in which a server is told of documents.
pub open spec fn chosen_language(
    server_language_id: Option<String>,
    language_id: Option<String>,
) -> Option<
    String,
> {
    match server_language_id {
        Some(id) => Some(id),
        None => language_id,
    }
}

/// The editor's end of a session.
pub struct LspServerProcessChannel {
    /// The language in which the server is told of documents.
    pub language_id: Option<String>,
    pub is_initialized: bool,
    pub process_group: ProcessGroup,
}

/// A session that was started: the editor's end, the session itself, and what it begins with.
pub struct Started {
    pub channel: LspServerProcessChannel,
    pub process: LspServerProcess,
    pub outcome: Outcome,
}

impl LspServerProcess {
    /// Starts a session with a process that was started for it.
    pub fn start(config: StartConfig, spawned: Spawned) -> (started: Result<Started, StartError>)
        ensures
            match started {
                Ok(started) => {
                    &&& spawned.has_stdin && spawned.has_stderr && spawned.has_stdout
                    &&& (started.process@, started.outcome@) == initialize_step(
                        new_session(config),
                    )
                    &&& !started.channel.is_initialized
                    &&& started.channel.process_group == ProcessGroup(spawned.id)
                    &&& started.channel.language_id == chosen_language(
                        config.server_language_id,
                        config.language_id,
                    )
                },
                Err(StartError::NoStdin) => !spawned.has_stdin,
                Err(StartError::NoStderr) => spawned.has_stdin && !spawned.has_stderr,
                Err(StartError::NoStdout) => spawned.has_stdin && spawned.has_stderr
                    && !spawned.has_stdout,
            },
    {
        if !spawned.has_stdin {
            return Err(StartError::NoStdin);
        }
        if !spawned.has_stderr {
            return Err(StartError::NoStderr);
        }
        if !spawned.has_stdout {
            return Err(StartError::NoStdout);
        }
        let mut process = LspServerProcess::new(
            config.server_id,
            config.root,
            config.diagnostic_mode,
            config.initialization_options,
            config.vue_typescript_plugin,
        );
        let outcome = process.initialize();
        let language_id = match config.server_language_id {
            Some(id) => Some(id),
            None => config.language_id,
        };
        let channel = LspServerProcessChannel {
            language_id,
            is_initialized: false,
            process_group: ProcessGroup(spawned.id),
        };
        Ok(Started { channel, process, outcome })
    }
}

/// The message that a document is open, where the server has a name for its language.
pub open spec fn opening(channel: LspServerProcessChannel, document: OpenDocument) -> Option<
    LspServerProcessMessage,
> {
    match channel.language_id {
        Some(language_id) => if channel.is_initialized {
            Some(
                LspServerProcessMessage::FromEditor(
                    FromEditor::TextDocumentDidOpen {
                        file_path: document.path,
                        language_id,
                        version: document.version,
                        content: document.content,
                    },
                ),
            )
        } else {
            None
        },
        None => None,
    }
}

/// The messages that documents are open, in their order.
pub open spec fn openings(channel: LspServerProcessChannel, documents: Seq<OpenDocument>) -> Seq<
    LspServerProcessMessage,
>
    decreases documents.len(),
{
    if documents.len() == 0 {
        Seq::empty()
    } else {
        let before = openings(channel, documents.drop_last());
        match opening(channel, documents.last()) {
            Some(message) => before.push(message),
            None => before,
        }
    }
}

impl LspServerProcessChannel {
    /// Whether the server has answered `initialize`.
    pub fn is_initialized(&self) -> (initialized: bool)
        ensures
            initialized == self.is_initialized,
    {
        self.is_initialized
    }

    /// Takes note that the server has answered `initialize`.
    pub fn initialized(&mut self)
        ensures
            *final(self) == (LspServerProcessChannel { is_initialized: true, ..*old(self) }),
    {
        self.is_initialized = true;
    }

    /// The message that is to be handed to the session: none before the server has answered
    /// `initialize`.
    fn send(&self, message: LspServerProcessMessage) -> (sent: Option<LspServerProcessMessage>)
        ensures
            sent == (if self.is_initialized {
                Some(message)
            } else {
                None
            }),
    {
        if self.is_initialized {
            Some(message)
        } else {
            None
        }
    }

    /// The message that is to be handed to the session for a message of the editor.
    pub fn send_from_editor(&self, message: FromEditor) -> (sent: Option<LspServerProcessMessage>)
        ensures
            sent == (if self.is_initialized {
                Some(LspServerProcessMessage::FromEditor(message))
            } else {
                None
            }),
    {
        self.send(LspServerProcessMessage::FromEditor(message))
    }

    /// The message that is to be handed to the session when a document is open.
    pub fn document_did_open(&self, document: OpenDocument) -> (sent: Option<
        LspServerProcessMessage,
    >)
        ensures
            sent == opening(*self, document),
    {
        let language_id = match &self.language_id {
            Some(language_id) => language_id.clone(),
            None => {
                return None;
            },
        };
        self.send(
            LspServerProcessMessage::FromEditor(
                FromEditor::TextDocumentDidOpen {
                    file_path: document.path,
                    language_id,
                    version: document.version,
                    content: document.content,
                },
            ),
        )
    }

    /// The messages that are to be handed to the session when documents are open.
    pub fn documents_did_open(&self, documents: Vec<OpenDocument>) -> (sent: Vec<
        LspServerProcessMessage,
    >)
        ensures
            sent@ == openings(*self, documents@),
    {
        let mut sent: Vec<LspServerProcessMessage> = Vec::new();
        let ghost all = documents@;
        for document in it: documents
            invariant
                it.seq() == all,
                sent@ == openings(*self, all.take(it.index())),
        {
            assert(all.take(it.index() + 1).drop_last() == all.take(it.index()));
            assert(all.take(it.index() + 1).last() == document);
            if let Some(message) = self.document_did_open(document) {
                sent.push(message);
            }
        }
        assert(all.take(all.len() as int) == all);
        sent
    }

    /// The message that asks the session to end. It is sent whether or not the session has begun.
    pub fn request_shutdown(&self) -> (message: LspServerProcessMessage)
        ensures
            message is Shutdown,
    {
        LspServerProcessMessage::Shutdown
    }
}

/// What is known of the process of a server.
#[derive(Clone, Copy, Debug, PartialEq, Eq, Structural)]
pub enum ChildPoll {
    Exited,
    Running,
    /// Nothing can be learned of the process.
    Failed,
}

/// What is to be done about the process of a server that is to end.
#[derive(Clone, Copy, Debug, PartialEq, Eq, Structural)]
pub enum WaitAction {
    /// Look again in a moment.
    Sleep,
    /// The process has ended. End what it started and left behind: all of its group.
    KillGroup,
    /// End the process, and all of its group.
    Kill,
}

impl WaitAction {
    /// Whether all of the group is ended.
    pub open spec fn ends_group(self) -> bool {
        self is KillGroup || self is Kill
    }
}

/// What is to be done about a process that is to end before `deadline`, at the time `now`.
pub open spec fn wait_action(poll: ChildPoll, now: u64, deadline: u64) -> WaitAction {
    match poll {
        ChildPoll::Exited => WaitAction::KillGroup,
        ChildPoll::Running => if now < deadline {
            WaitAction::Sleep
        } else {
            WaitAction::Kill
        },
        ChildPoll::Failed => WaitAction::Kill,
    }
}

impl LspServerProcessChannel {
    /// Whether the server runs. `poll` is what is known of its process.
    pub fn is_running(&self, poll: ChildPoll) -> (running: bool)
        ensures
            running == poll is Running,
    {
        matches!(poll, ChildPoll::Running)
    }

    /// What is to be done about the server, which is to end before `deadline`, at the time `now`.
    /// See [`wait_action`].
    pub fn wait_for_exit_until(&self, poll: ChildPoll, now: u64, deadline: u64) -> (action:
        WaitAction)
        ensures
            action == wait_action(poll, now, deadline),
    {
        match poll {
            ChildPoll::Exited => WaitAction::KillGroup,
            ChildPoll::Running => if now < deadline {
                WaitAction::Sleep
            } else {
                WaitAction::Kill
            },
            ChildPoll::Failed => WaitAction::Kill,
        }
    }
}

/// Waiting for a server never leaves behind what the server started: when it comes to an end, all
/// of the group is ended, also where the server itself is gone already. It comes to an end once the
/// server has ended, or the deadline has.
pub proof fn law_waiting_ends_the_group(poll: ChildPoll, now: u64, deadline: u64)
    ensures
        !(wait_action(poll, now, deadline) is Sleep) ==> wait_action(
            poll,
            now,
            deadline,
        ).ends_group(),
        poll is Exited || now >= deadline ==> wait_action(poll, now, deadline).ends_group(),
{
}

/// Until the server has answered `initialize`, nothing reaches the session but the wish to end it.
pub proof fn law_nothing_is_sent_before_initialized(
    channel: LspServerProcessChannel,
    documents: Seq<OpenDocument>,
)
    requires
        !channel.is_initialized,
    ensures
        openings(channel, documents).len() == 0,
    decreases documents.len(),
{
    if documents.len() > 0 {
        law_nothing_is_sent_before_initialized(channel, documents.drop_last());
    }
}

/// Whether a message tells a session that a document is open: of its path, its version and its
/// text, and of the language under that name.
pub open spec fn tells_that_open(
    message: LspServerProcessMessage,
    document: OpenDocument,
    language: String,
) -> bool {
    match message {
        LspServerProcessMessage::FromEditor(
            FromEditor::TextDocumentDidOpen { file_path, language_id, version, content },
        ) => {
            &&& file_path@ == document.path@
            &&& language_id@ == language@
            &&& version == document.version
            &&& content@ == document.content@
        },
        _ => false,
    }
}

/// A server that has answered `initialize` and has a name for the language is told of all documents
/// that are open, in their order, each with its own text and version. Any other server is told of
/// none.
pub proof fn law_all_open_documents_are_told(
    channel: LspServerProcessChannel,
    documents: Seq<OpenDocument>,
)
    ensures
        ({
            let told = openings(channel, documents);
            &&& channel.is_initialized && channel.language_id is Some ==> told.len()
                == documents.len() && forall|i: int|
                0 <= i < told.len() ==> tells_that_open(
                    #[trigger] told[i],
                    documents[i],
                    channel.language_id->0,
                )
            &&& !channel.is_initialized || channel.language_id is None ==> told.len() == 0
        }),
    decreases documents.len(),
{
    if documents.len() > 0 {
        let rest = documents.drop_last();
        let before = openings(channel, rest);
        let told = openings(channel, documents);
        law_all_open_documents_are_told(channel, rest);
        if channel.is_initialized && channel.language_id is Some {
            assert forall|i: int| 0 <= i < told.len() implies tells_that_open(
                #[trigger] told[i],
                documents[i],
                channel.language_id->0,
            ) by {
                if i < before.len() {
                    assert(told[i] == before[i]);
                    assert(rest[i] == documents[i]);
                }
            }
        }
    }
}

/// A server that is told of a document is told of that document, and in the language that it knows
/// the document by: its own name for it, where it has one, and else the name of the editor.
pub proof fn law_documents_are_told_in_the_language_of_the_server(
    channel: LspServerProcessChannel,
    document: OpenDocument,
    own: Option<String>,
    language: Option<String>,
)
    ensures
        opening(channel, document) is Some <==> channel.is_initialized && channel.language_id
            is Some,
        opening(channel, document) is Some ==> tells_that_open(
            opening(channel, document)->0,
            document,
            channel.language_id->0,
        ),
        own is Some ==> chosen_language(own, language) == own,
        own is None ==> chosen_language(own, language) == language,
{
}

/// A server that still runs is given the time until the deadline, and no more. One of which nothing
/// can be learned, and one that is gone, are not waited for.
pub proof fn law_servers_are_given_their_time(now: u64, deadline: u64)
    ensures
        now < deadline ==> wait_action(ChildPoll::Running, now, deadline) is Sleep,
        now >= deadline ==> wait_action(ChildPoll::Running, now, deadline) is Kill,
        wait_action(ChildPoll::Exited, now, deadline) is KillGroup,
        wait_action(ChildPoll::Failed, now, deadline) is Kill,
{
}

/// A session begins as it is configured, with nothing open, nothing waiting and nothing known of
/// the server.
pub proof fn law_sessions_begin_as_configured(config: StartConfig)
    ensures
        ({
            let session = new_session(config);
            &&& session.server_id == config.server_id@
            &&& session.root == config.root@
            &&& session.diagnostic_mode == config.diagnostic_mode
            &&& config.initialization_options is Some ==> session.options == Some(
                config.initialization_options->0@,
            )
            &&& config.initialization_options is None ==> session.options is None
            &&& config.vue_typescript_plugin is Some ==> session.plugin == Some(
                config.vue_typescript_plugin->0@,
            )
            &&& config.vue_typescript_plugin is None ==> session.plugin is None
            &&& session.capabilities is None
            &&& session.documents.dom().is_empty()
            &&& session.pending.dom().is_empty()
            &&& session.directions.dom().is_empty()
            &&& !session.is_initialized
        }),
{
    let session = new_session(config);
    assert(session.documents.dom() =~= Set::empty());
    assert(session.pending.dom() =~= Set::empty());
    assert(session.directions.dom() =~= Set::empty());
}

} // verus!
