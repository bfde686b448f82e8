//! The language servers of an editor: which of them run, when one that failed may start again, and
//! which of them a message is for.

use crate::lsp::channel::{
    opening, openings, tells_that_open, LspServerProcessChannel, OpenDocument,
};
use crate::lsp::key_table::{KeySpec, KeyTable, LspServerKey};
use crate::lsp::process::LspServerProcessMessage;
use crate::lsp::protocol::FromEditor;
use crate::lsp::roots::{lsp_root_for_path, workspace_root, Directory};
use crate::path::AbsolutePath;
use crate::text::{join_texts, joined_texts, str_eq, str_of, text_of, texts};
use vstd::prelude::*;

verus! {

/// How long a server that failed once has to wait, in nanoseconds.
pub const LSP_RESTART_BASE_DELAY: u64 = 250_000_000;

/// How long a server has to wait at most, in nanoseconds.
pub const LSP_RESTART_MAX_DELAY: u64 = 30_000_000_000;

/// How long a server has to run for its failures to be forgotten, in nanoseconds.
pub const LSP_STABLE_UPTIME: u64 = 30_000_000_000;

/// How long a server that is asked to end is waited for, in nanoseconds.
pub const SHUTDOWN_GRACE: u64 = 500_000_000;

/// A server as a language configures it.
pub struct ServerInfo {
    pub id: String,
    /// Whether requests go to this server.
    pub primary: bool,
}

/// A language, as far as its servers go.
pub struct LanguageInfo {
    pub id: Option<String>,
    /// Whether the language is parsed as C#.
    pub is_csharp: bool,
    pub servers: Vec<ServerInfo>,
}

/// What is known of the starts of a server.
#[derive(Clone, Copy, Debug, PartialEq, Eq, Structural)]
pub struct RestartState {
    /// How often the server failed in a row.
    pub failures: u32,
    /// When it may start again.
    pub retry_at: u64,
    /// When it was started, if it has not failed since.
    pub started_at: Option<u64>,
}

/// Two to the power of `n`.
pub open spec fn power_of_two(n: nat) -> nat
    decreases n,
{
    if n == 0 {
        1
    } else {
        2 * power_of_two((n - 1) as nat)
    }
}

/// How long a server has to wait after so many failures in a row: twice as long with each failure,
/// up to the longest delay.
pub open spec fn delay_after(failures: u32) -> u64 {
    let steps: nat = if failures == 0 {
        0
    } else if failures > 17 {
        16
    } else {
        (failures - 1) as nat
    };
    let delay = LSP_RESTART_BASE_DELAY * power_of_two(steps);
    if delay > LSP_RESTART_MAX_DELAY {
        LSP_RESTART_MAX_DELAY
    } else {
        delay as u64
    }
}

/// The state of a server that failed at the time `now`. A server that had run long enough fails for
/// the first time again.
pub open spec fn failed(state: Option<RestartState>, now: u64) -> RestartState {
    let stable = match state {
        Some(state) => match state.started_at {
            Some(started_at) => now - started_at >= LSP_STABLE_UPTIME,
            None => false,
        },
        None => true,
    };
    let failures: u32 = if stable {
        1
    } else if state->0.failures == u32::MAX {
        u32::MAX
    } else {
        (state->0.failures + 1) as u32
    };
    RestartState {
        failures,
        retry_at: (now + delay_after(failures)) as u64,
        started_at: None,
    }
}

/// The state of a server that was started at the time `now`.
pub open spec fn started(state: Option<RestartState>, now: u64) -> RestartState {
    match state {
        Some(state) => RestartState { started_at: Some(now), ..state },
        None => RestartState { failures: 0, retry_at: now, started_at: Some(now) },
    }
}

/// Whether a server may start at the time `now`.
pub open spec fn can_start(state: Option<RestartState>, now: u64) -> bool {
    match state {
        Some(state) => state.started_at is Some || now >= state.retry_at,
        None => true,
    }
}

/// What a manager knows.
#[verifier::ext_equal]
pub struct ManagerSpec {
    /// The servers that run.
    pub channels: Map<KeySpec, LspServerProcessChannel>,
    pub restart_states: Map<KeySpec, RestartState>,
    /// Where the editor runs.
    pub current_working_directory: Seq<char>,
}

impl ManagerSpec {
    /// What is known of the starts of a server.
    pub open spec fn state(self, key: KeySpec) -> Option<RestartState> {
        if self.restart_states.dom().contains(key) {
            Some(self.restart_states[key])
        } else {
            None
        }
    }

    /// The manager after a server failed: it does not run any more, and may not start at once.
    pub open spec fn after_failure(self, key: KeySpec, now: u64) -> ManagerSpec {
        ManagerSpec {
            channels: self.channels.remove(key),
            restart_states: self.restart_states.insert(key, failed(self.state(key), now)),
            ..self
        }
    }

    /// Whether a server that failed should be started again.
    pub open spec fn should_restart(self, key: KeySpec, now: u64) -> bool {
        &&& !self.channels.dom().contains(key)
        &&& self.restart_states.dom().contains(key)
        &&& can_start(self.state(key), now)
    }
}

/// The key of a server of a language.
pub open spec fn key_of(language: LanguageInfo, server_id: Seq<char>, root: Seq<char>) -> KeySpec {
    KeySpec { language_id: language.id->0@, server_id, root }
}

/// The servers of a language.
pub struct LspManager {
    lsp_server_process_channels: KeyTable<LspServerProcessChannel>,
    restart_states: KeyTable<RestartState>,
    current_working_directory: AbsolutePath,
}

impl View for LspManager {
    type V = ManagerSpec;

    closed spec fn view(&self) -> ManagerSpec {
        ManagerSpec {
            channels: self.lsp_server_process_channels@,
            restart_states: self.restart_states@,
            current_working_directory: self.current_working_directory@,
        }
    }
}

/// What is to be done about a server for a document that is opened.
pub enum OpenAction {
    Nothing,
    /// Hand the message to the session of the server.
    Notify(LspServerProcessMessage),
    /// Start the server.
    Start(LspServerKey),
}

/// How a message of the editor is to be sent.
pub enum SendStep {
    /// Start the servers that failed and may start again. If that fails, the message is not sent
    /// where errors matter.
    RestartFirst { errors_matter: bool },
    /// Hand the message to these servers.
    Deliver(Vec<LspServerKey>),
}

/// How handing a message to a server went.
pub enum Delivery {
    Done,
    /// The server does not run any more.
    Stopped,
    /// The message could not be handed over.
    Failed(String),
}

/// What an attempt to hand a message to a server says, where it failed.
pub open spec fn delivery_error(server_id: Seq<char>, delivery: Delivery) -> Option<Seq<char>> {
    match delivery {
        Delivery::Done => None,
        Delivery::Stopped => Some("LSP server '"@ + server_id + "' stopped"@),
        Delivery::Failed(error) => Some(error@),
    }
}

/// The servers to which a message could not be handed, each once, where it failed first.
pub open spec fn failed_keys(deliveries: Seq<(LspServerKey, Delivery)>) -> Seq<KeySpec>
    decreases deliveries.len(),
{
    if deliveries.len() == 0 {
        Seq::empty()
    } else {
        let before = failed_keys(deliveries.drop_last());
        if deliveries.last().1 is Done || before.contains(deliveries.last().0@) {
            before
        } else {
            before.push(deliveries.last().0@)
        }
    }
}

/// Whether the last of some attempts to hand a message to servers failed, and none before it did
/// for the same server. A server that failed once is not tried again.
pub open spec fn fails_anew(deliveries: Seq<(LspServerKey, Delivery)>) -> bool {
    deliveries.len() > 0 && !(deliveries.last().1 is Done) && !failed_keys(
        deliveries.drop_last(),
    ).contains(deliveries.last().0@)
}

/// The manager after attempts to hand a message to servers: those that failed do not run any more.
pub open spec fn after_deliveries(
    manager: ManagerSpec,
    deliveries: Seq<(LspServerKey, Delivery)>,
    now: u64,
) -> ManagerSpec
    decreases deliveries.len(),
{
    if deliveries.len() == 0 {
        manager
    } else {
        let before = after_deliveries(manager, deliveries.drop_last(), now);
        if fails_anew(deliveries) {
            before.after_failure(deliveries.last().0@, now)
        } else {
            before
        }
    }
}

/// What the attempts to hand a message to servers say, as far as they failed.
pub open spec fn delivery_errors(deliveries: Seq<(LspServerKey, Delivery)>) -> Seq<Seq<char>>
    decreases deliveries.len(),
{
    if deliveries.len() == 0 {
        Seq::empty()
    } else {
        let before = delivery_errors(deliveries.drop_last());
        if fails_anew(deliveries) {
            before.push(
                delivery_error(deliveries.last().0.server_id@, deliveries.last().1)->0,
            )
        } else {
            before
        }
    }
}

/// The servers of a language that a message is for, among the first `n`: all of them for a message
/// about the life of a document, and else those that requests go to. Only servers that run count.
pub open spec fn targets(
    manager: ManagerSpec,
    language: LanguageInfo,
    root: Seq<char>,
    message: FromEditor,
    n: nat,
) -> Seq<KeySpec>
    decreases n,
{
    if n == 0 || language.id is None {
        Seq::empty()
    } else {
        let before = targets(manager, language, root, message, (n - 1) as nat);
        let server = language.servers@[n - 1];
        let key = key_of(language, server.id@, root);
        if (server.primary || message.spec_is_lifecycle()) && manager.channels.dom().contains(key) {
            before.push(key)
        } else {
            before
        }
    }
}

/// The meaning of a list of keys.
pub open spec fn keys_view(keys: Seq<LspServerKey>) -> Seq<KeySpec> {
    keys.map_values(|key: LspServerKey| key@)
}

fn is_key_among(keys: &[LspServerKey], key: &LspServerKey) -> (found: bool)
    ensures
        found == keys_view(keys@).contains(key@),
{
    let ghost all = keys_view(keys@);
    let mut i: usize = 0;
    while i < keys.len()
        invariant
            i <= keys.len(),
            all == keys_view(keys@),
            forall|j: int| 0 <= j < i ==> #[trigger] all[j] != key@,
        decreases keys.len() - i,
    {
        if keys[i].same(key) {
            assert(all[i as int] == key@);
            return true;
        }
        i += 1;
    }
    false
}

/// Whether a key belongs to a language and a workspace, where these are given.
pub open spec fn belongs(
    key: KeySpec,
    language_id: Option<Seq<char>>,
    root: Option<Seq<char>>,
) -> bool {
    &&& language_id is Some ==> key.language_id == language_id->0
    &&& root is Some ==> key.root == root->0
}

impl LspManager {
    /// Whether the manager is in order.
    pub closed spec fn wf(self) -> bool {
        self.lsp_server_process_channels.wf() && self.restart_states.wf()
    }

    /// A manager with no server running.
    pub fn new(current_working_directory: AbsolutePath) -> (manager: LspManager)
        ensures
            manager.wf(),
            manager@ == (ManagerSpec {
                channels: Map::empty(),
                restart_states: Map::empty(),
                current_working_directory: current_working_directory@,
            }),
    {
        LspManager {
            lsp_server_process_channels: KeyTable::new(),
            restart_states: KeyTable::new(),
            current_working_directory,
        }
    }

    /// Where the editor runs.
    pub fn current_working_directory(&self) -> (directory: &AbsolutePath)
        ensures
            directory@ == self@.current_working_directory,
    {
        &self.current_working_directory
    }

    /// The editor's end of the session with a server, if it runs.
    pub fn channel(&self, key: &LspServerKey) -> (channel: Option<&LspServerProcessChannel>)
        requires
            self.wf(),
        ensures
            match channel {
                Some(channel) => self@.channels.dom().contains(key@) && self@.channels[key@]
                    == *channel,
                None => !self@.channels.dom().contains(key@),
            },
    {
        self.lsp_server_process_channels.get(key)
    }

    /// The key of a server of a language, where the language has a name.
    pub fn server_key(
        language: &LanguageInfo,
        server_id: &str,
        root: &AbsolutePath,
    ) -> (key: Option<
        LspServerKey,
    >)
        ensures
            match key {
                Some(key) => language.id is Some && key@ == key_of(*language, server_id@, root@),
                None => language.id is None,
            },
    {
        match &language.id {
            Some(id) => Some(
                LspServerKey {
                    language_id: id.clone(),
                    server_id: server_id.to_owned(),
                    root: root.copy(),
                },
            ),
            None => None,
        }
    }

    /// How long a server has to wait after so many failures in a row. See [`delay_after`].
    pub fn restart_delay(failures: u32) -> (delay: u64)
        ensures
            delay == delay_after(failures),
            delay <= LSP_RESTART_MAX_DELAY,
    {
        let steps: u32 = if failures == 0 {
            0
        } else if failures > 17 {
            16
        } else {
            failures - 1
        };
        let mut delay: u64 = LSP_RESTART_BASE_DELAY;
        let mut i: u32 = 0;
        assert(power_of_two(0) == 1);
        assert(power_of_two(16) == 65536) by {
            reveal_with_fuel(power_of_two, 17);
        }
        while i < steps
            invariant
                i <= steps <= 16,
                delay == LSP_RESTART_BASE_DELAY * power_of_two(i as nat),
                delay <= LSP_RESTART_BASE_DELAY * 65536,
                delay * power_of_two((16 - i) as nat) <= LSP_RESTART_BASE_DELAY * 65536,
            decreases steps - i,
        {
            assert(power_of_two((i + 1) as nat) == 2 * power_of_two(i as nat));
            assert(power_of_two((16 - i) as nat) == 2 * power_of_two((15 - i) as nat));
            assert(power_of_two((15 - i) as nat) >= 1) by {
                lemma_power_positive((15 - i) as nat);
            }
            assert(delay * (2 * power_of_two((15 - i) as nat)) == (delay * 2) * power_of_two(
                (15 - i) as nat,
            )) by (nonlinear_arith);
            assert(delay * 2 <= (delay * 2) * power_of_two((15 - i) as nat)) by (nonlinear_arith)
                requires
                    power_of_two((15 - i) as nat) >= 1,
                    delay >= 0,
            ;
            delay = delay * 2;
            i += 1;
        }
        if delay > LSP_RESTART_MAX_DELAY {
            LSP_RESTART_MAX_DELAY
        } else {
            delay
        }
    }

    /// Takes note that a server failed at the time `now`.
    pub fn record_server_failure(&mut self, key: LspServerKey, now: u64)
        requires
            old(self).wf(),
            now <= u64::MAX - LSP_RESTART_MAX_DELAY,
        ensures
            final(self).wf(),
            final(self)@ == (ManagerSpec {
                restart_states: old(self)@.restart_states.insert(
                    key@,
                    failed(old(self)@.state(key@), now),
                ),
                ..old(self)@
            }),
    {
        let failures: u32 = match self.restart_states.get(&key) {
            Some(state) => {
                let stable = match state.started_at {
                    Some(started_at) => now >= started_at && now - started_at >= LSP_STABLE_UPTIME,
                    None => false,
                };
                if stable {
                    1
                } else if state.failures == u32::MAX {
                    u32::MAX
                } else {
                    state.failures + 1
                }
            },
            None => 1,
        };
        let retry_at = now + LspManager::restart_delay(failures);
        self.restart_states.insert(key, RestartState { failures, retry_at, started_at: None });
    }

    /// Takes note that a server was started at the time `now`.
    pub fn record_server_started(&mut self, key: LspServerKey, now: u64)
        requires
            old(self).wf(),
        ensures
            final(self).wf(),
            final(self)@ == (ManagerSpec {
                restart_states: old(self)@.restart_states.insert(
                    key@,
                    started(old(self)@.state(key@), now),
                ),
                ..old(self)@
            }),
    {
        let state = match self.restart_states.get(&key) {
            Some(state) => RestartState {
                failures: state.failures,
                retry_at: state.retry_at,
                started_at: Some(now),
            },
            None => RestartState { failures: 0, retry_at: now, started_at: Some(now) },
        };
        self.restart_states.insert(key, state);
    }

    /// Whether a server may start at the time `now`.
    pub fn server_can_start(&self, key: &LspServerKey, now: u64) -> (can: bool)
        requires
            self.wf(),
        ensures
            can == can_start(self@.state(key@), now),
    {
        match self.restart_states.get(key) {
            Some(state) => state.started_at.is_some() || now >= state.retry_at,
            None => true,
        }
    }

    /// Whether a server of a language failed for the workspace `root` and should be started again.
    pub fn should_restart_for_path(
        &self,
        language: &LanguageInfo,
        root: &AbsolutePath,
        now: u64,
    ) -> (
    should: bool)
        requires
            self.wf(),
        ensures
            should == (language.id is Some && exists|i: int|
                0 <= i < language.servers@.len() && self@.should_restart(
                    key_of(*language, (#[trigger] language.servers@[i]).id@, root@),
                    now,
                )),
    {
        let mut i: usize = 0;
        while i < language.servers.len()
            invariant
                i <= language.servers.len(),
                self.wf(),
                language.id is Some ==> forall|j: int|
                    0 <= j < i ==> !self@.should_restart(
                        key_of(*language, (#[trigger] language.servers@[j]).id@, root@),
                        now,
                    ),
            decreases language.servers.len() - i,
        {
            if let Some(key) = LspManager::server_key(
                language,
                language.servers[i].id.as_str(),
                root,
            ) {
                if !self.lsp_server_process_channels.contains_key(&key)
                    && self.restart_states.contains_key(&key) && self.server_can_start(&key, now) {
                    return true;
                }
            }
            i += 1;
        }
        false
    }

    /// Takes note that a server was started, with this end of its session.
    pub fn server_started(&mut self, key: LspServerKey, channel: LspServerProcessChannel, now: u64)
        requires
            old(self).wf(),
        ensures
            final(self).wf(),
            final(self)@ == (ManagerSpec {
                channels: old(self)@.channels.insert(key@, channel),
                restart_states: old(self)@.restart_states.insert(
                    key@,
                    started(old(self)@.state(key@), now),
                ),
                ..old(self)@
            }),
    {
        self.lsp_server_process_channels.insert(key.copy(), channel);
        self.record_server_started(key, now);
    }

    /// Takes note that a server could not be started. Whether that is an error for the user: it is
    /// for a server that requests go to.
    pub fn server_start_failed(&mut self, key: LspServerKey, primary: bool, now: u64) -> (is_error:
        bool)
        requires
            old(self).wf(),
            now <= u64::MAX - LSP_RESTART_MAX_DELAY,
        ensures
            final(self).wf(),
            final(self)@ == (ManagerSpec {
                restart_states: old(self)@.restart_states.insert(
                    key@,
                    failed(old(self)@.state(key@), now),
                ),
                ..old(self)@
            }),
            is_error == primary,
    {
        self.record_server_failure(key, now);
        primary
    }
}

/// What a manager does about a server for a document that is opened, and what it knows then.
/// `running` says whether the server, if it was started, still runs.
pub open spec fn open_step(
    manager: ManagerSpec,
    key: KeySpec,
    document: OpenDocument,
    notify: bool,
    running: bool,
    now: u64,
) -> (ManagerSpec, Option<LspServerProcessMessage>, bool) {
    if manager.channels.dom().contains(key) && running {
        let channel = manager.channels[key];
        (
            manager,
            if notify {
                opening(channel, document)
            } else {
                None
            },
            false,
        )
    } else {
        let next = if manager.channels.dom().contains(key) {
            manager.after_failure(key, now)
        } else {
            manager
        };
        (next, None, can_start(next.state(key), now))
    }
}

impl LspManager {
    fn open_file_inner(
        &mut self,
        key: LspServerKey,
        document: OpenDocument,
        notify: bool,
        running: bool,
        now: u64,
    ) -> (action: OpenAction)
        requires
            old(self).wf(),
            now <= u64::MAX - LSP_RESTART_MAX_DELAY,
        ensures
            final(self).wf(),
            ({
                let (next, message, start) = open_step(
                    old(self)@,
                    key@,
                    document,
                    notify,
                    running,
                    now,
                );
                &&& final(self)@ == next
                &&& match action {
                    OpenAction::Nothing => message is None && !start,
                    OpenAction::Notify(sent) => message == Some(sent),
                    OpenAction::Start(started) => start && started@ == key@,
                }
            }),
    {
        let known = self.lsp_server_process_channels.contains_key(&key);
        if known && running {
            if let Some(channel) = self.lsp_server_process_channels.get(&key) {
                if notify {
                    if let Some(message) = channel.document_did_open(document) {
                        return OpenAction::Notify(message);
                    }
                }
            }
            return OpenAction::Nothing;
        }
        if known {
            let _ = self.lsp_server_process_channels.remove(&key);
            self.record_server_failure(key.copy(), now);
        }
        if self.server_can_start(&key, now) {
            OpenAction::Start(key)
        } else {
            OpenAction::Nothing
        }
    }

    /// What is to be done about a server for a document that is opened: tell it, if it runs, or
    /// start it, if it may start. See [`open_step`].
    pub fn open_file(
        &mut self,
        key: LspServerKey,
        document: OpenDocument,
        running: bool,
        now: u64,
    ) -> (
    action: OpenAction)
        requires
            old(self).wf(),
            now <= u64::MAX - LSP_RESTART_MAX_DELAY,
        ensures
            final(self).wf(),
            ({
                let (next, message, start) = open_step(
                    old(self)@,
                    key@,
                    document,
                    true,
                    running,
                    now,
                );
                &&& final(self)@ == next
                &&& match action {
                    OpenAction::Nothing => message is None && !start,
                    OpenAction::Notify(sent) => message == Some(sent),
                    OpenAction::Start(started) => start && started@ == key@,
                }
            }),
    {
        self.open_file_inner(key, document, true, running, now)
    }

    /// What is to be done about a server for a document that it does not have to be told of: start
    /// it, if it does not run and may start. See [`open_step`].
    pub fn ensure_file_server(
        &mut self,
        key: LspServerKey,
        document: OpenDocument,
        running: bool,
        now: u64,
    ) -> (action: OpenAction)
        requires
            old(self).wf(),
            now <= u64::MAX - LSP_RESTART_MAX_DELAY,
        ensures
            final(self).wf(),
            ({
                let (next, message, start) = open_step(
                    old(self)@,
                    key@,
                    document,
                    false,
                    running,
                    now,
                );
                &&& final(self)@ == next
                &&& match action {
                    OpenAction::Nothing => message is None && !start,
                    OpenAction::Notify(sent) => message == Some(sent),
                    OpenAction::Start(started) => start && started@ == key@,
                }
            }),
    {
        self.open_file_inner(key, document, false, running, now)
    }

    /// The workspace of a file, for the servers of its language. `directories` are the directory of
    /// the file and those above it. See [`workspace_root`].
    pub fn lsp_root_for_path(&self, language: &LanguageInfo, directories: &[Directory]) -> (root:
        AbsolutePath)
        requires
            directories.len() > 0,
        ensures
            root@ == workspace_root(
                match language.id {
                    Some(id) => Some(id@),
                    None => None,
                },
                language.is_csharp,
                directories@,
                self@.current_working_directory,
            ),
    {
        lsp_root_for_path(
            str_of(&language.id),
            language.is_csharp,
            directories,
            &self.current_working_directory,
        )
    }

    /// Whether a message tells of the life of a document or a file.
    pub fn is_lifecycle_message(message: &FromEditor) -> (lifecycle: bool)
        ensures
            lifecycle == message.spec_is_lifecycle(),
    {
        message.is_lifecycle()
    }

    /// How a message of the editor is to be sent: first, servers that failed and may start again
    /// are started, and then the message is handed to the servers that it is for.
    pub fn send_message(
        &self,
        language: &LanguageInfo,
        root: &AbsolutePath,
        message: &FromEditor,
        now: u64,
    ) -> (step: SendStep)
        requires
            self.wf(),
        ensures
            match step {
                SendStep::RestartFirst { errors_matter } => language.id is Some && errors_matter
                    == !message.spec_is_lifecycle() && exists|i: int|
                    0 <= i < language.servers@.len() && self@.should_restart(
                        key_of(*language, (#[trigger] language.servers@[i]).id@, root@),
                        now,
                    ),
                SendStep::Deliver(keys) => (language.id is Some ==> forall|i: int|
                    0 <= i < language.servers@.len() ==> !self@.should_restart(
                        key_of(*language, (#[trigger] language.servers@[i]).id@, root@),
                        now,
                    )) && keys_view(keys@) == targets(
                    self@,
                    *language,
                    root@,
                    *message,
                    language.servers@.len(),
                ),
            },
    {
        if self.should_restart_for_path(language, root, now) {
            SendStep::RestartFirst { errors_matter: !message.is_lifecycle() }
        } else {
            SendStep::Deliver(self.invoke_channels(language, root, message))
        }
    }

    /// The servers that a message is for. See [`targets`].
    pub fn invoke_channels(
        &self,
        language: &LanguageInfo,
        root: &AbsolutePath,
        message: &FromEditor,
    ) -> (keys: Vec<LspServerKey>)
        requires
            self.wf(),
        ensures
            keys_view(keys@) == targets(
                self@,
                *language,
                root@,
                *message,
                language.servers@.len(),
            ),
    {
        let lifecycle = message.is_lifecycle();
        let mut keys: Vec<LspServerKey> = Vec::new();
        let mut i: usize = 0;
        assert(keys_view(keys@) =~= targets(self@, *language, root@, *message, 0));
        while i < language.servers.len()
            invariant
                i <= language.servers.len(),
                self.wf(),
                lifecycle == message.spec_is_lifecycle(),
                keys_view(keys@) == targets(self@, *language, root@, *message, i as nat),
            decreases language.servers.len() - i,
        {
            let ghost before = keys_view(keys@);
            if language.servers[i].primary || lifecycle {
                if let Some(key) = LspManager::server_key(
                    language,
                    language.servers[i].id.as_str(),
                    root,
                ) {
                    if self.lsp_server_process_channels.contains_key(&key) {
                        keys.push(key);
                        assert(keys_view(keys@) =~= before.push(key@));
                    }
                }
            }
            i += 1;
        }
        keys
    }

    /// Takes note of how handing a message to servers went. Servers that failed do not run any
    /// more. That is an error for the user, unless the message was about the life of a document.
    pub fn deliveries_done(
        &mut self,
        message: &FromEditor,
        deliveries: Vec<(LspServerKey, Delivery)>,
        now: u64,
    ) -> (result: Result<(), String>)
        requires
            old(self).wf(),
            now <= u64::MAX - LSP_RESTART_MAX_DELAY,
        ensures
            final(self).wf(),
            final(self)@ == after_deliveries(old(self)@, deliveries@, now),
            match result {
                Ok(_) => message.spec_is_lifecycle() || delivery_errors(deliveries@).len() == 0,
                Err(text) => !message.spec_is_lifecycle() && delivery_errors(deliveries@).len() > 0
                    && text@ == "Failed to send "@ + message.spec_variant() + " to LSP servers: ["@
                    + joined_texts(delivery_errors(deliveries@), ", "@) + "]"@,
            },
    {
        let ghost all = deliveries@;
        let mut errors: Vec<String> = Vec::new();
        let mut failed: Vec<LspServerKey> = Vec::new();
        assert(texts(errors@) =~= delivery_errors(all.take(0)));
        assert(keys_view(failed@) =~= failed_keys(all.take(0)));
        for delivery in it: deliveries
            invariant
                it.seq() == all,
                self.wf(),
                now <= u64::MAX - LSP_RESTART_MAX_DELAY,
                self@ == after_deliveries(old(self)@, all.take(it.index()), now),
                texts(errors@) == delivery_errors(all.take(it.index())),
                keys_view(failed@) == failed_keys(all.take(it.index())),
        {
            assert(all.take(it.index() + 1).drop_last() == all.take(it.index()));
            assert(all.take(it.index() + 1).last() == delivery);
            let ghost before = texts(errors@);
            let (key, outcome) = delivery;
            let error = match outcome {
                Delivery::Done => None,
                Delivery::Stopped => {
                    let mut text = "LSP server '".to_owned();
                    text.append(key.server_id.as_str());
                    text.append("' stopped");
                    Some(text)
                },
                Delivery::Failed(text) => Some(text),
            };
            if let Some(error) = error {
                if !is_key_among(failed.as_slice(), &key) {
                    let ghost failed_before = keys_view(failed@);
                    failed.push(key.copy());
                    assert(keys_view(failed@) =~= failed_before.push(key@));
                    let _ = self.lsp_server_process_channels.remove(&key);
                    self.record_server_failure(key, now);
                    errors.push(error);
                    assert(texts(errors@) =~= before.push(error@));
                }
            }
        }
        assert(all.take(all.len() as int) == all);
        if message.is_lifecycle() || errors.len() == 0 {
            assert(errors.len() == texts(errors@).len());
            return Ok(());
        }
        let mut text = "Failed to send ".to_owned();
        text.append(message.variant());
        text.append(" to LSP servers: [");
        let list = join_texts(errors.as_slice(), ", ");
        text.append(list.as_str());
        text.append("]");
        Err(text)
    }

    /// Takes note that a server has answered `initialize`. The messages that are to be handed to
    /// its session: the documents that are open.
    pub fn initialized(
        &mut self,
        key: &LspServerKey,
        documents: Vec<OpenDocument>,
    ) -> (messages: Vec<
        LspServerProcessMessage,
    >)
        requires
            old(self).wf(),
        ensures
            final(self).wf(),
            if old(self)@.channels.dom().contains(key@) {
                let channel = LspServerProcessChannel {
                    is_initialized: true,
                    ..old(self)@.channels[key@]
                };
                &&& final(self)@ == (ManagerSpec {
                    channels: old(self)@.channels.insert(key@, channel),
                    ..old(self)@
                })
                &&& messages@ == openings(channel, documents@)
            } else {
                final(self)@ == old(self)@ && messages@.len() == 0
            },
    {
        match self.lsp_server_process_channels.remove(key) {
            Some(channel) => {
                let mut channel = channel;
                channel.initialized();
                let messages = channel.documents_did_open(documents);
                self.lsp_server_process_channels.insert(key.copy(), channel);
                assert(old(self)@.channels.remove(key@).insert(key@, channel)
                    =~= old(self)@.channels.insert(key@, channel));
                messages
            },
            None => {
                assert(old(self)@.channels.remove(key@) =~= old(self)@.channels);
                Vec::new()
            },
        }
    }

    /// Takes out the servers of a language and a workspace, where these are given.
    fn take_channels(
        &mut self,
        language_id: Option<&str>,
        root: Option<&AbsolutePath>,
    ) -> (taken: Vec<
        (LspServerKey, LspServerProcessChannel),
    >)
        requires
            old(self).wf(),
        ensures
            final(self).wf(),
            taken_from(
                old(self)@,
                final(self)@,
                taken@,
                text_of(language_id),
                match root {
                    Some(root) => Some(root@),
                    None => None,
                },
            ),
    {
        let keys = self.lsp_server_process_channels.keys();
        let ghost wanted_root = match root {
            Some(root) => Some(root@),
            None => None,
        };
        let ghost channels = self@.channels;
        let mut taken: Vec<(LspServerKey, LspServerProcessChannel)> = Vec::new();
        let mut i: usize = 0;
        while i < keys.len()
            invariant
                i <= keys.len(),
                self.wf(),
                channels == old(self)@.channels,
                wanted_root == (match root {
                    Some(root) => Some(root@),
                    None => None,
                }),
                self@.restart_states == old(self)@.restart_states,
                self@.current_working_directory == old(self)@.current_working_directory,
                forall|key: KeySpec|
                    channels.dom().contains(key) <==> exists|j: int|
                        0 <= j < keys@.len() && #[trigger] keys@[j]@ == key,
                forall|a: int, b: int|
                    0 <= a < b < keys@.len() ==> (#[trigger] keys@[a])@ != (#[trigger] keys@[b])@,
                forall|key: KeySpec| #[trigger]
                    self@.channels.dom().contains(key) <==> channels.dom().contains(key) && !(
                    belongs(key, text_of(language_id), wanted_root) && exists|j: int|
                        0 <= j < i && #[trigger] keys@[j]@ == key),
                forall|key: KeySpec|
                    self@.channels.dom().contains(key) ==> #[trigger] self@.channels[key]
                        == channels[key],
                forall|j: int|
                    0 <= j < taken@.len() ==> channels.dom().contains(
                        (#[trigger] taken@[j]).0@,
                    ) && channels[taken@[j].0@] == taken@[j].1 && belongs(
                        taken@[j].0@,
                        text_of(language_id),
                        wanted_root,
                    ) && exists|k: int| 0 <= k < i && #[trigger] keys@[k]@ == taken@[j].0@,
                forall|a: int, b: int|
                    0 <= a < b < taken@.len() ==> (#[trigger] taken@[a]).0@ != (
                    #[trigger] taken@[b]).0@,
                forall|k: int|
                    0 <= k < i && belongs(
                        (#[trigger] keys@[k])@,
                        text_of(language_id),
                        wanted_root,
                    ) ==> exists|j: int| 0 <= j < taken@.len() && (#[trigger] taken@[j]).0@
                        == keys@[k]@,
            decreases keys.len() - i,
        {
            let key = &keys[i];
            let right_language = match language_id {
                Some(id) => str_eq(key.language_id.as_str(), id),
                None => true,
            };
            let right_root = match root {
                Some(root) => key.root.same(root),
                None => true,
            };
            let ghost before = self@.channels;
            let ghost taken_before = taken@;
            assert(channels.dom().contains(keys@[i as int]@));
            if right_language && right_root {
                assert(before.dom().contains(key@)) by {
                    if !before.dom().contains(key@) {
                        let j = choose|j: int| 0 <= j < i && #[trigger] keys@[j]@ == key@;
                        assert(keys@[j]@ != keys@[i as int]@);
                    }
                }
                if let Some(channel) = self.lsp_server_process_channels.remove(key) {
                    taken.push((key.copy(), channel));
                }
                assert forall|a: int, b: int| 0 <= a < b < taken@.len() implies (
                #[trigger] taken@[a]).0@ != (#[trigger] taken@[b]).0@ by {
                    if b == taken_before.len() {
                        assert(taken_before[a].0@ == taken@[a].0@);
                        let k = choose|k: int|
                            0 <= k < i && #[trigger] keys@[k]@ == taken_before[a].0@;
                        assert(keys@[k]@ != keys@[i as int]@);
                    } else {
                        assert(taken_before[a].0@ != taken_before[b].0@);
                    }
                }
                assert forall|j: int| 0 <= j < taken@.len() implies exists|k: int|
                    0 <= k < i + 1 && #[trigger] keys@[k]@ == (#[trigger] taken@[j]).0@ by {
                    if j < taken_before.len() {
                        assert(taken_before[j] == taken@[j]);
                        let k = choose|k: int|
                            0 <= k < i && #[trigger] keys@[k]@ == taken_before[j].0@;
                        assert(keys@[k]@ == taken@[j].0@);
                    } else {
                        assert(keys@[i as int]@ == taken@[j].0@);
                    }
                }
                assert forall|k: int|
                    0 <= k < i + 1 && belongs(
                        (#[trigger] keys@[k])@,
                        text_of(language_id),
                        wanted_root,
                    ) implies exists|j: int| 0 <= j < taken@.len() && (#[trigger] taken@[j]).0@
                    == keys@[k]@ by {
                    if k < i {
                        let j = choose|j: int|
                            0 <= j < taken_before.len() && (#[trigger] taken_before[j]).0@
                                == keys@[k]@;
                        assert(taken@[j].0@ == keys@[k]@);
                    } else {
                        assert(taken@[taken_before.len() as int].0@ == keys@[k]@);
                    }
                }
            }
            i += 1;
            assert forall|key: KeySpec| #[trigger]
                self@.channels.dom().contains(key) <==> channels.dom().contains(key) && !(belongs(
                    key,
                    text_of(language_id),
                    wanted_root,
                ) && exists|j: int| 0 <= j < i && #[trigger] keys@[j]@ == key) by {
                if key == keys@[i - 1]@ {
                    assert(keys@[i - 1]@ == key);
                }
            }
        }
        assert forall|key: KeySpec|
            channels.dom().contains(key) && belongs(
                key,
                text_of(language_id),
                wanted_root,
            ) implies exists|j: int| 0 <= j < taken@.len() && (#[trigger] taken@[j]).0@ == key by {
            let k = choose|k: int| 0 <= k < keys@.len() && #[trigger] keys@[k]@ == key;
            assert(belongs(keys@[k]@, text_of(language_id), wanted_root));
        }
        assert(self@.channels =~= channels.remove_keys(
            Set::new(|key: KeySpec| belongs(key, text_of(language_id), wanted_root)),
        ));
        taken
    }

    /// Takes out all servers. They are to be asked to end, and ended after [`SHUTDOWN_GRACE`].
    pub fn shutdown(&mut self) -> (taken: Vec<(LspServerKey, LspServerProcessChannel)>)
        requires
            old(self).wf(),
        ensures
            final(self).wf(),
            taken_from(old(self)@, final(self)@, taken@, None, None),
            final(self)@.channels == Map::<KeySpec, LspServerProcessChannel>::empty(),
    {
        let taken = self.take_channels(None, None);
        assert(self@.channels =~= Map::<KeySpec, LspServerProcessChannel>::empty());
        taken
    }

    /// Takes out the servers of a language for the workspace `root`. They are to be asked to end,
    /// and ended after [`SHUTDOWN_GRACE`], before the servers of the language are started anew.
    pub fn restart(&mut self, language_id: &str, root: &AbsolutePath) -> (taken: Vec<
        (LspServerKey, LspServerProcessChannel),
    >)
        requires
            old(self).wf(),
        ensures
            final(self).wf(),
            taken_from(old(self)@, final(self)@, taken@, Some(language_id@), Some(root@)),
    {
        self.take_channels(Some(language_id), Some(root))
    }
}

/// Whether `taken` are the servers of a language and a workspace, where these are given, each once,
/// and `after` is what a manager knows when they are taken out.
pub open spec fn taken_from(
    before: ManagerSpec,
    after: ManagerSpec,
    taken: Seq<(LspServerKey, LspServerProcessChannel)>,
    language_id: Option<Seq<char>>,
    root: Option<Seq<char>>,
) -> bool {
    &&& after == (ManagerSpec {
        channels: before.channels.remove_keys(
            Set::new(|key: KeySpec| belongs(key, language_id, root)),
        ),
        ..before
    })
    &&& forall|j: int|
        0 <= j < taken.len() ==> before.channels.dom().contains((#[trigger] taken[j]).0@)
            && before.channels[taken[j].0@] == taken[j].1 && belongs(
            taken[j].0@,
            language_id,
            root,
        )
    &&& forall|a: int, b: int|
        0 <= a < b < taken.len() ==> (#[trigger] taken[a]).0@ != (#[trigger] taken[b]).0@
    &&& forall|key: KeySpec|
        before.channels.dom().contains(key) && belongs(key, language_id, root) ==> exists|j: int|
            0 <= j < taken.len() && (#[trigger] taken[j]).0@ == key
}

proof fn lemma_power_positive(n: nat)
    ensures
        power_of_two(n) >= 1,
    decreases n,
{
    if n > 0 {
        lemma_power_positive((n - 1) as nat);
    }
}

/// A server that failed is not started before its delay is over, and may be started from then on.
pub proof fn law_failed_servers_wait(manager: ManagerSpec, key: KeySpec, now: u64, later: u64)
    requires
        now <= u64::MAX - LSP_RESTART_MAX_DELAY,
    ensures
        ({
            let next = manager.after_failure(key, now);
            let delay = delay_after(next.state(key)->0.failures);
            &&& !next.channels.dom().contains(key)
            &&& next.state(key) is Some
            &&& can_start(next.state(key), later) <==> later >= now + delay
            &&& next.should_restart(key, later) <==> later >= now + delay
        }),
{
    lemma_delays(next_failures(manager, key, now), 0);
}

spec fn next_failures(manager: ManagerSpec, key: KeySpec, now: u64) -> u32 {
    manager.after_failure(key, now).state(key)->0.failures
}

proof fn lemma_power_grows(m: nat, n: nat)
    requires
        m <= n,
    ensures
        power_of_two(m) <= power_of_two(n),
    decreases n,
{
    if m < n {
        lemma_power_grows(m, (n - 1) as nat);
    }
}

proof fn lemma_delays(failures: u32, fewer: u32)
    requires
        fewer <= failures,
    ensures
        delay_after(failures) <= LSP_RESTART_MAX_DELAY,
        LSP_RESTART_BASE_DELAY <= delay_after(failures),
        delay_after(fewer) <= delay_after(failures),
{
    let steps: nat = if failures == 0 {
        0
    } else if failures > 17 {
        16
    } else {
        (failures - 1) as nat
    };
    let fewer_steps: nat = if fewer == 0 {
        0
    } else if fewer > 17 {
        16
    } else {
        (fewer - 1) as nat
    };
    lemma_power_positive(steps);
    lemma_power_grows(fewer_steps, steps);
    lemma_power_grows(0, steps);
    assert(LSP_RESTART_BASE_DELAY * power_of_two(fewer_steps) <= LSP_RESTART_BASE_DELAY
        * power_of_two(steps)) by (nonlinear_arith)
        requires
            power_of_two(fewer_steps) <= power_of_two(steps),
    ;
    assert(LSP_RESTART_BASE_DELAY <= LSP_RESTART_BASE_DELAY * power_of_two(steps))
        by (nonlinear_arith)
        requires
            power_of_two(steps) >= 1,
    ;
}

/// The delay grows with the failures, from the shortest to the longest one, and until it is the
/// longest one it doubles with each failure.
pub proof fn law_delays_grow_and_are_bounded(failures: u32)
    requires
        1 <= failures < u32::MAX,
    ensures
        delay_after(1) == LSP_RESTART_BASE_DELAY,
        LSP_RESTART_BASE_DELAY <= delay_after(failures) <= LSP_RESTART_MAX_DELAY,
        delay_after(failures) <= delay_after((failures + 1) as u32),
        delay_after((failures + 1) as u32) < LSP_RESTART_MAX_DELAY ==> delay_after(
            (failures + 1) as u32,
        ) == 2 * delay_after(failures),
{
    lemma_delays((failures + 1) as u32, failures);
    lemma_delays(failures, 1);
    assert(power_of_two(0) == 1);
    if failures >= 17 {
        assert(power_of_two(16) == 65536) by {
            reveal_with_fuel(power_of_two, 17);
        }
    } else {
        let power = power_of_two((failures - 1) as nat);
        assert(power_of_two(failures as nat) == 2 * power);
        assert(LSP_RESTART_BASE_DELAY * (2 * power) == 2 * (LSP_RESTART_BASE_DELAY * power))
            by (nonlinear_arith);
    }
}

/// A server that has run long enough fails as if for the first time.
pub proof fn law_stable_servers_are_forgiven(state: RestartState, now: u64)
    requires
        state.started_at is Some,
        now - state.started_at->0 >= LSP_STABLE_UPTIME,
    ensures
        failed(Some(state), now).failures == 1,
{
}

proof fn lemma_after_deliveries(
    manager: ManagerSpec,
    deliveries: Seq<(LspServerKey, Delivery)>,
    now: u64,
    key: KeySpec,
)
    ensures
        ({
            let next = after_deliveries(manager, deliveries, now);
            if failed_keys(deliveries).contains(key) {
                &&& !next.channels.dom().contains(key)
                &&& next.state(key) == Some(failed(manager.state(key), now))
            } else {
                &&& next.channels.dom().contains(key) == manager.channels.dom().contains(key)
                &&& next.channels[key] == manager.channels[key]
                &&& next.state(key) == manager.state(key)
            }
        }),
    decreases deliveries.len(),
{
    if deliveries.len() > 0 {
        let rest = deliveries.drop_last();
        lemma_after_deliveries(manager, rest, now, key);
        if fails_anew(deliveries) {
            let before = failed_keys(rest);
            let last = deliveries.last().0@;
            assert(before.push(last).contains(key) == (before.contains(key) || key == last)) by {
                if before.contains(key) {
                    let i = choose|i: int| 0 <= i < before.len() && before[i] == key;
                    assert(before.push(last)[i] == key);
                }
                assert(before.push(last)[before.len() as int] == last);
            }
        }
    }
}

proof fn lemma_failed_keys(deliveries: Seq<(LspServerKey, Delivery)>, key: KeySpec)
    ensures
        failed_keys(deliveries).contains(key) <==> exists|i: int|
            0 <= i < deliveries.len() && (#[trigger] deliveries[i]).0@ == key && !(
            deliveries[i].1 is Done),
    decreases deliveries.len(),
{
    if deliveries.len() > 0 {
        let rest = deliveries.drop_last();
        let before = failed_keys(rest);
        let last = deliveries.last();
        lemma_failed_keys(rest, key);
        if failed_keys(deliveries).contains(key) {
            if before.contains(key) {
                let i = choose|i: int|
                    0 <= i < rest.len() && (#[trigger] rest[i]).0@ == key && !(rest[i].1 is Done);
                assert(deliveries[i] == rest[i]);
            } else {
                assert(deliveries[deliveries.len() - 1] == last);
            }
        }
        if exists|i: int|
            0 <= i < deliveries.len() && (#[trigger] deliveries[i]).0@ == key && !(
            deliveries[i].1 is Done) {
            let i = choose|i: int|
                0 <= i < deliveries.len() && (#[trigger] deliveries[i]).0@ == key && !(
                deliveries[i].1 is Done);
            if i < rest.len() {
                assert(rest[i] == deliveries[i]);
                let k = choose|k: int| 0 <= k < before.len() && before[k] == key;
                assert(failed_keys(deliveries)[k] == key);
            } else if fails_anew(deliveries) {
                assert(failed_keys(deliveries)[before.len() as int] == key);
            }
        }
    }
}

/// A server to which a message could not be handed does not run any more for the manager, which
/// keeps in mind that it failed: once, however often the message was for it. Of the other servers
/// the manager knows what it knew before.
pub proof fn law_unreachable_servers_fail_once(
    manager: ManagerSpec,
    deliveries: Seq<(LspServerKey, Delivery)>,
    now: u64,
    key: KeySpec,
)
    ensures
        ({
            let next = after_deliveries(manager, deliveries, now);
            if exists|i: int|
                0 <= i < deliveries.len() && (#[trigger] deliveries[i]).0@ == key && !(
                deliveries[i].1 is Done) {
                &&& !next.channels.dom().contains(key)
                &&& next.state(key) == Some(failed(manager.state(key), now))
            } else {
                &&& next.channels.dom().contains(key) == manager.channels.dom().contains(key)
                &&& next.channels[key] == manager.channels[key]
                &&& next.state(key) == manager.state(key)
            }
        }),
{
    lemma_failed_keys(deliveries, key);
    lemma_after_deliveries(manager, deliveries, now, key);
}

proof fn lemma_targets(
    manager: ManagerSpec,
    language: LanguageInfo,
    root: Seq<char>,
    message: FromEditor,
    n: nat,
) -> (picks: Seq<int>)
    requires
        n <= language.servers@.len(),
        language.id is Some,
    ensures
        are_addressed(manager, language, root, message, n, picks),
        targets(manager, language, root, message, n) == picks.map_values(
            |i: int| key_of(language, language.servers@[i].id@, root),
        ),
    decreases n,
{
    if n == 0 {
        let picks = Seq::<int>::empty();
        assert(targets(manager, language, root, message, n) =~= picks.map_values(
            |i: int| key_of(language, language.servers@[i].id@, root),
        ));
        picks
    } else {
        let before = lemma_targets(manager, language, root, message, (n - 1) as nat);
        let last: int = n - 1;
        let picks = if is_addressed(manager, language, root, message, last) {
            before.push(last)
        } else {
            before
        };
        assert(targets(manager, language, root, message, n) =~= picks.map_values(
            |i: int| key_of(language, language.servers@[i].id@, root),
        ));
        assert forall|k: int| 0 <= k < n implies (picks.contains(k) <==> #[trigger] is_addressed(
            manager,
            language,
            root,
            message,
            k,
        )) by {
            if k < last {
                if before.contains(k) {
                    let i = choose|i: int| 0 <= i < before.len() && before[i] == k;
                    assert(picks[i] == k);
                }
                if picks.contains(k) {
                    let i = choose|i: int| 0 <= i < picks.len() && picks[i] == k;
                    assert(before[i] == k);
                }
            } else if is_addressed(manager, language, root, message, last) {
                assert(picks[before.len() as int] == last);
            } else if picks.contains(k) {
                let i = choose|i: int| 0 <= i < picks.len() && picks[i] == k;
                assert(before[i] == k);
            }
        }
        picks
    }
}

/// Whether a message is for the server number `i` of a language, for the workspace `root`: the
/// server runs there, and it is one that requests go to, or the message tells of the life of a
/// document.
pub open spec fn is_addressed(
    manager: ManagerSpec,
    language: LanguageInfo,
    root: Seq<char>,
    message: FromEditor,
    i: int,
) -> bool {
    &&& language.servers@[i].primary || message.spec_is_lifecycle()
    &&& manager.channels.dom().contains(
        KeySpec { language_id: language.id->0@, server_id: language.servers@[i].id@, root },
    )
}

/// Whether `picks` are numbers of servers, in their order, and just those that a message is for.
pub open spec fn are_addressed(
    manager: ManagerSpec,
    language: LanguageInfo,
    root: Seq<char>,
    message: FromEditor,
    n: nat,
    picks: Seq<int>,
) -> bool {
    &&& forall|i: int| 0 <= i < picks.len() ==> 0 <= #[trigger] picks[i] < n
    &&& forall|i: int, j: int|
        0 <= i < j < picks.len() ==> (#[trigger] picks[i]) < (#[trigger] picks[j])
    &&& forall|k: int|
        0 <= k < n ==> (picks.contains(k) <==> #[trigger] is_addressed(
            manager,
            language,
            root,
            message,
            k,
        ))
}

/// A message reaches the servers that it is for, all of them, in the order in which they are
/// configured, and no others: each under its own name, for the language of the file and for its
/// workspace. A language without a name has no servers.
pub proof fn law_messages_reach_the_servers_they_are_for(
    manager: ManagerSpec,
    language: LanguageInfo,
    root: Seq<char>,
    message: FromEditor,
)
    ensures
        language.id is None ==> targets(manager, language, root, message, language.servers@.len())
            == Seq::<KeySpec>::empty(),
        language.id is Some ==> exists|picks: Seq<int>| #[trigger]
            are_addressed(manager, language, root, message, language.servers@.len(), picks)
                && targets(manager, language, root, message, language.servers@.len())
                == picks.map_values(
                |i: int|
                    KeySpec {
                        language_id: language.id->0@,
                        server_id: language.servers@[i].id@,
                        root,
                    },
            ),
{
    if language.id is Some {
        let n = language.servers@.len();
        let picks = lemma_targets(manager, language, root, message, n);
        assert(are_addressed(manager, language, root, message, n, picks));
        assert(targets(manager, language, root, message, n) =~= picks.map_values(
            |i: int|
                KeySpec {
                    language_id: language.id->0@,
                    server_id: language.servers@[i].id@,
                    root,
                },
        ));
    }
}

/// A server that runs is told of a document that is opened, where it is to be told, and is not
/// started again. Nothing else changes.
pub proof fn law_running_servers_are_told(
    manager: ManagerSpec,
    key: KeySpec,
    document: OpenDocument,
    now: u64,
)
    requires
        manager.channels.dom().contains(key),
    ensures
        ({
            let told = open_step(manager, key, document, true, true, now);
            let untold = open_step(manager, key, document, false, true, now);
            let channel = manager.channels[key];
            &&& told.0 == manager && !told.2
            &&& untold.0 == manager && untold.1 is None && !untold.2
            &&& channel.is_initialized && channel.language_id is Some ==> told.1 is Some
                && tells_that_open(told.1->0, document, channel.language_id->0)
            &&& !channel.is_initialized || channel.language_id is None ==> told.1 is None
        }),
{
}

/// A server that was not started is started, unless it failed a short while ago. One that was
/// started and does not run any more has failed: it is taken off those that run, and is started
/// when its delay is over. Neither is told anything, and other servers are left alone.
pub proof fn law_servers_that_do_not_run_are_started(
    manager: ManagerSpec,
    key: KeySpec,
    document: OpenDocument,
    notify: bool,
    running: bool,
    now: u64,
    other: KeySpec,
)
    requires
        !manager.channels.dom().contains(key) || !running,
        now <= u64::MAX - LSP_RESTART_MAX_DELAY,
        other != key,
    ensures
        ({
            let step = open_step(manager, key, document, notify, running, now);
            let known = manager.channels.dom().contains(key);
            &&& step.1 is None
            &&& !step.0.channels.dom().contains(key)
            &&& !known ==> step.0 == manager
            &&& !known && manager.state(key) is None ==> step.2
            &&& !known && manager.state(key) is Some && manager.state(key)->0.started_at is None
                ==> (step.2 <==> now >= manager.state(key)->0.retry_at)
            &&& known ==> step.0.state(key) == Some(failed(manager.state(key), now)) && !step.2
            &&& step.0.state(other) == manager.state(other)
            &&& step.0.channels.dom().contains(other) == manager.channels.dom().contains(other)
            &&& step.0.channels[other] == manager.channels[other]
            &&& step.0.current_working_directory == manager.current_working_directory
        }),
{
    let known = manager.channels.dom().contains(key);
    if known {
        lemma_delays(next_failures(manager, key, now), 0);
    }
}

/// A server that failed for the first time has failed once. One that fails again has failed once
/// more than before, unless it had run long enough in between. It may start when its delay is
/// over, and not before. A server that is started keeps the count of its failures, and may start
/// again at any time as long as it does not fail.
pub proof fn law_failures_are_counted(state: RestartState, now: u64, later: u64)
    requires
        now <= u64::MAX - LSP_RESTART_MAX_DELAY,
    ensures
        failed(None, now).failures == 1,
        ({
            let next = failed(Some(state), now);
            let stable = state.started_at is Some && now - state.started_at->0
                >= LSP_STABLE_UPTIME;
            &&& stable ==> next.failures == 1
            &&& !stable && state.failures < u32::MAX ==> next.failures == state.failures + 1
            &&& next.started_at is None
            &&& next.retry_at == now + delay_after(next.failures)
            &&& can_start(Some(next), later) <==> later >= next.retry_at
        }),
        started(Some(state), now).failures == state.failures,
        started(Some(state), now).started_at == Some(now),
        started(None, now).failures == 0,
        started(None, now).started_at == Some(now),
        can_start(Some(started(Some(state), now)), later),
        can_start(Some(started(None, now)), later),
        can_start(None, later),
{
    let next = failed(Some(state), now);
    lemma_delays(next.failures, 0);
}

/// A server is to be started again if it failed, does not run, and its delay is over. One that
/// never failed, or runs, is not.
pub proof fn law_only_failed_servers_are_restarted(manager: ManagerSpec, key: KeySpec, now: u64)
    ensures
        manager.should_restart(key, now) ==> !manager.channels.dom().contains(key)
            && manager.state(key) is Some,
        !manager.channels.dom().contains(key) && manager.state(key) is Some
            && manager.state(key)->0.started_at is None ==> (manager.should_restart(key, now)
            <==> now >= manager.state(key)->0.retry_at),
{
}

/// What is taken out for a language and a workspace are the servers of that language for that
/// workspace: all of them, where neither is given.
pub proof fn law_servers_belong_to_language_and_workspace(
    key: KeySpec,
    language_id: Seq<char>,
    root: Seq<char>,
)
    ensures
        belongs(key, Some(language_id), Some(root)) <==> key.language_id == language_id && key.root
            == root,
        belongs(key, None, None),
        belongs(key, Some(language_id), None) <==> key.language_id == language_id,
        belongs(key, None, Some(root)) <==> key.root == root,
{
}

/// Each server to which a message could not be handed is told of once, with its own error: that it
/// stopped, under its name, or what went wrong.
pub proof fn law_each_failed_server_is_told_of(deliveries: Seq<(LspServerKey, Delivery)>)
    ensures
        delivery_errors(deliveries).len() == failed_keys(deliveries).len(),
        forall|i: int|
            0 <= i < deliveries.len() && !((#[trigger] deliveries[i]).1 is Done)
                ==> failed_keys(deliveries).contains(deliveries[i].0@),
        forall|k: int|
            0 <= k < delivery_errors(deliveries).len() ==> #[trigger] is_own_error(deliveries, k),
    decreases deliveries.len(),
{
    if deliveries.len() > 0 {
        let rest = deliveries.drop_last();
        law_each_failed_server_is_told_of(rest);
        let errors = delivery_errors(deliveries);
        let keys = failed_keys(deliveries);
        assert forall|i: int|
            0 <= i < deliveries.len() && !((#[trigger] deliveries[i]).1 is Done) implies
            keys.contains(deliveries[i].0@) by {
            lemma_failed_keys(deliveries, deliveries[i].0@);
        }
        assert forall|k: int| 0 <= k < errors.len() implies #[trigger] is_own_error(
            deliveries,
            k,
        ) by {
            if k < delivery_errors(rest).len() {
                assert(is_own_error(rest, k));
                assert(errors[k] == delivery_errors(rest)[k]);
                assert(keys[k] == failed_keys(rest)[k]);
                let i = choose|i: int|
                    0 <= i < rest.len() && (#[trigger] rest[i]).0@ == failed_keys(rest)[k]
                        && says_what_failed(rest[i], delivery_errors(rest)[k]);
                assert(deliveries[i] == rest[i]);
            } else {
                assert(deliveries[deliveries.len() - 1].0@ == keys[k]);
                assert(says_what_failed(deliveries[deliveries.len() - 1], errors[k]));
            }
        }
    }
}

/// Whether the error number `k` is that of the server number `k` to which a message could not be
/// handed.
pub open spec fn is_own_error(deliveries: Seq<(LspServerKey, Delivery)>, k: int) -> bool {
    exists|i: int|
        0 <= i < deliveries.len() && (#[trigger] deliveries[i]).0@ == failed_keys(deliveries)[k]
            && says_what_failed(deliveries[i], delivery_errors(deliveries)[k])
}

/// Whether a text says why a message could not be handed to a server.
pub open spec fn says_what_failed(delivery: (LspServerKey, Delivery), text: Seq<char>) -> bool {
    match delivery.1 {
        Delivery::Done => false,
        Delivery::Stopped => text == "LSP server '"@ + delivery.0.server_id@ + "' stopped"@,
        Delivery::Failed(error) => text == error@,
    }
}

/// The key of a server names the language, the server and the workspace, so servers of different
/// names, languages and workspaces have different keys.
pub proof fn law_keys_tell_servers_apart(
    language: LanguageInfo,
    server_id: Seq<char>,
    root: Seq<char>,
)
    requires
        language.id is Some,
    ensures
        key_of(language, server_id, root).language_id == language.id->0@,
        key_of(language, server_id, root).server_id == server_id,
        key_of(language, server_id, root).root == root,
{
}

} // verus!
