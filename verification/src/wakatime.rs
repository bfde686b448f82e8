//! Heartbeats for WakaTime, which keeps track of the time that is spent on files.

use crate::path::AbsolutePath;
use crate::text::texts;
use vstd::prelude::*;

verus! {

/// How many nanoseconds pass before the next heartbeat for a file that is only looked at.
pub const HEARTBEAT_INTERVAL: u64 = 120_000_000_000;

/// How WakaTime is configured.
#[derive(Debug)]
pub struct WakaTimeConfig {
    pub enabled: bool,
    pub cli_path: String,
}

impl Default for WakaTimeConfig {
    fn default() -> (config: WakaTimeConfig)
        ensures
            !config.enabled,
            config.cli_path@ == "wakatime-cli"@,
    {
        WakaTimeConfig { enabled: false, cli_path: "wakatime-cli".to_owned() }
    }
}

impl WakaTimeConfig {
    /// Whether heartbeats are wanted.
    pub fn enabled(&self) -> (enabled: bool)
        ensures
            enabled == self.enabled,
    {
        self.enabled
    }

    /// The program that sends heartbeats.
    pub fn cli_path(&self) -> (path: &str)
        ensures
            path@ == self.cli_path@,
    {
        self.cli_path.as_str()
    }
}

/// The last heartbeat.
pub struct LastHeartbeat {
    pub path: AbsolutePath,
    /// When it was sent, in nanoseconds.
    pub sent_at: u64,
}

/// What WakaTime was told.
pub struct WakaTime {
    pub config: WakaTimeConfig,
    pub last_heartbeat: Option<LastHeartbeat>,
}

/// A program that is to be run.
pub struct Heartbeat {
    pub program: String,
    pub args: Vec<String>,
}

/// Whether a heartbeat is due. One for a file that was written always is. One for a file that is
/// only looked at is due for another file than the last one, or when the interval is over.
pub open spec fn is_due(
    last: Option<LastHeartbeat>,
    path: Seq<char>,
    is_write: bool,
    now: u64,
) -> bool {
    is_write || match last {
        Some(last) => last.path@ != path || now - last.sent_at >= HEARTBEAT_INTERVAL,
        None => true,
    }
}

/// The arguments of the program that sends a heartbeat.
pub open spec fn heartbeat_arguments(path: Seq<char>, is_write: bool, version: Seq<char>) -> Seq<
    Seq<char>,
> {
    let args = seq![
        "--entity"@,
        path,
        "--plugin"@,
        "ki/"@ + version + " ki-wakatime/"@ + version,
    ];
    if is_write {
        args.push("--write"@)
    } else {
        args
    }
}

impl WakaTime {
    /// WakaTime, told nothing yet.
    pub fn new(config: WakaTimeConfig) -> (wakatime: WakaTime)
        ensures
            wakatime.config == config,
            wakatime.last_heartbeat is None,
    {
        WakaTime { config, last_heartbeat: None }
    }

    /// Whether a heartbeat is due at the time `now`. See [`is_due`].
    pub fn should_send(&self, path: &AbsolutePath, is_write: bool, now: u64) -> (should: bool)
        ensures
            should == is_due(self.last_heartbeat, path@, is_write, now),
    {
        if is_write {
            return true;
        }
        match &self.last_heartbeat {
            Some(last) => !last.path.same(path) || (now >= last.sent_at && now - last.sent_at
                >= HEARTBEAT_INTERVAL),
            None => true,
        }
    }

    /// The heartbeat that is to be sent for a file at the time `now`, if one is. `is_file` says
    /// whether there is such a file, and `version` is the version of the editor.
    pub fn send_heartbeat(
        &mut self,
        path: AbsolutePath,
        is_write: bool,
        is_file: bool,
        now: u64,
        version: &str,
    ) -> (heartbeat: Option<Heartbeat>)
        ensures
            final(self).config == old(self).config,
            match heartbeat {
                Some(heartbeat) => {
                    &&& is_file && is_due(old(self).last_heartbeat, path@, is_write, now)
                    &&& heartbeat.program@ == old(self).config.cli_path@
                    &&& texts(heartbeat.args@) == heartbeat_arguments(path@, is_write, version@)
                    &&& final(self).last_heartbeat is Some
                    &&& final(self).last_heartbeat->0.path@ == path@
                    &&& final(self).last_heartbeat->0.sent_at == now
                },
                None => {
                    &&& !is_file || !is_due(old(self).last_heartbeat, path@, is_write, now)
                    &&& final(self).last_heartbeat == old(self).last_heartbeat
                },
            },
    {
        if !is_file {
            return None;
        }
        if !self.should_send(&path, is_write, now) {
            return None;
        }
        let mut plugin = "ki/".to_owned();
        plugin.append(version);
        plugin.append(" ki-wakatime/");
        plugin.append(version);
        let mut args: Vec<String> = Vec::new();
        args.push("--entity".to_owned());
        args.push(path.display_absolute());
        args.push("--plugin".to_owned());
        args.push(plugin);
        if is_write {
            args.push("--write".to_owned());
        }
        assert(texts(args@) =~= heartbeat_arguments(path@, is_write, version@));
        self.last_heartbeat = Some(LastHeartbeat { path, sent_at: now });
        Some(Heartbeat { program: self.config.cli_path.clone(), args })
    }
}

/// A heartbeat for a file that was written is due at any time.
pub proof fn law_writes_are_never_limited(last: Option<LastHeartbeat>, path: Seq<char>, now: u64)
    ensures
        is_due(last, path, true, now),
{
}

/// After a heartbeat for a file, the next one for the same file that is only looked at is due when
/// the interval is over, and not before.
pub proof fn law_repetitions_are_limited(last: LastHeartbeat, now: u64)
    ensures
        is_due(Some(last), last.path@, false, now) <==> now - last.sent_at >= HEARTBEAT_INTERVAL,
{
}

/// A heartbeat is due for the first file, and for another file than the one before, at any time.
pub proof fn law_other_files_are_not_limited(last: LastHeartbeat, path: Seq<char>, now: u64)
    requires
        path != last.path@,
    ensures
        is_due(Some(last), path, false, now),
        is_due(None, path, false, now),
{
}

/// A heartbeat names the file as what it is for and the version of the editor as what sends it, and
/// says that the file was written if it was, and only then.
pub proof fn law_heartbeats_name_the_file(path: Seq<char>, is_write: bool, version: Seq<char>)
    ensures
        ({
            let arguments = heartbeat_arguments(path, is_write, version);
            &&& arguments[0] == "--entity"@ && arguments[1] == path
            &&& arguments[2] == "--plugin"@ && arguments[3] == "ki/"@ + version + " ki-wakatime/"@
                + version
            &&& arguments.len() == 5 <==> is_write
            &&& arguments.len() == 4 <==> !is_write
            &&& is_write ==> arguments[4] == "--write"@
        }),
{
}

} // verus!
