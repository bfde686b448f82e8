//! Commands that run as processes of their own.
//!
//! What is to be started, and what the outcome means, is decided here. Starting a process and
//! talking to it is left to the caller, who reports what happened.

use crate::decimal::{print_signed, signed_decimal};
use crate::path::{
    is_absolute, join, joined, law_joined_paths_follow_the_directory, path_is_absolute,
};
use crate::table::TextTable;
use crate::text::{copy_texts, join_texts, joined_texts, str_has, text_of, texts};
use vstd::prelude::*;

verus! {

/// A command with its arguments and what it adds to the environment.
#[derive(Debug)]
pub struct ProcessCommand {
    command: String,
    args: Vec<String>,
    environment: TextTable,
}

/// What keeps a command from being started.
#[derive(Debug)]
pub enum SpawnCommandError {
    CommandNotFound { command: String },
}

/// A process that is to be started.
pub struct SpawnPlan {
    /// The file that holds the program.
    pub program: String,
    pub args: Vec<String>,
    pub environment: TextTable,
    pub directory: Option<String>,
    pub new_process_group: bool,
}

/// The path of a command among the programs that a package manager put into a directory.
pub open spec fn local_program(directory: Seq<char>, command: Seq<char>) -> Seq<char> {
    joined(joined(joined(directory, "node_modules"@), ".bin"@), command)
}

/// Whether a command says by itself where its program is.
pub open spec fn names_a_path(command: Seq<char>) -> bool {
    is_absolute(command) || command.contains('/') || command.contains('\\')
}

/// The program of a command that is started in `directory`. `local_exists` says whether the file
/// that [`local_program`] names is there, and `located` is the program that the search path has.
pub open spec fn resolved_program(
    command: Seq<char>,
    directory: Option<Seq<char>>,
    local_exists: bool,
    located: Option<Seq<char>>,
) -> Option<Seq<char>> {
    if names_a_path(command) {
        match directory {
            Some(directory) => Some(joined(directory, command)),
            None => Some(command),
        }
    } else {
        match directory {
            Some(directory) => if local_exists {
                Some(local_program(directory, command))
            } else {
                located
            },
            None => located,
        }
    }
}

impl ProcessCommand {
    /// The name of the command.
    pub closed spec fn spec_command(self) -> Seq<char> {
        self.command@
    }

    /// The arguments.
    pub closed spec fn spec_arguments(self) -> Seq<Seq<char>> {
        texts(self.args@)
    }

    /// What is added to the environment.
    pub closed spec fn spec_environment(self) -> Map<Seq<char>, Seq<char>> {
        self.environment@
    }

    /// A command that adds nothing to the environment.
    pub fn new(command: &str, args: &[String]) -> (process_command: ProcessCommand)
        ensures
            process_command.spec_command() == command@,
            process_command.spec_arguments() == texts(args@),
            process_command.spec_environment() == Map::<Seq<char>, Seq<char>>::empty(),
    {
        ProcessCommand {
            command: command.to_owned(),
            args: copy_texts(args),
            environment: TextTable::new(),
        }
    }

    /// A command that adds to the environment.
    pub fn with_environment(command: &str, args: &[String], environment: &TextTable) -> (
    process_command: ProcessCommand)
        ensures
            process_command.spec_command() == command@,
            process_command.spec_arguments() == texts(args@),
            process_command.spec_environment() == environment@,
    {
        ProcessCommand {
            command: command.to_owned(),
            args: copy_texts(args),
            environment: environment.copy(),
        }
    }

    /// The name of the command.
    pub fn command(&self) -> (command: &str)
        ensures
            command@ == self.spec_command(),
    {
        self.command.as_str()
    }

    /// The arguments.
    pub fn arguments(&self) -> (arguments: &Vec<String>)
        ensures
            texts(arguments@) == self.spec_arguments(),
    {
        &self.args
    }

    /// What is added to the environment.
    pub fn environment(&self) -> (environment: &TextTable)
        ensures
            environment@ == self.spec_environment(),
    {
        &self.environment
    }

    /// The command line: the command and its arguments, with spaces between them.
    pub open spec fn spec_line(self) -> Seq<char> {
        if self.spec_arguments().len() == 0 {
            self.spec_command()
        } else {
            self.spec_command() + " "@ + joined_texts(self.spec_arguments(), " "@)
        }
    }

    /// The command line: the command and its arguments, with spaces between them.
    pub fn line(&self) -> (line: String)
        ensures
            line@ == self.spec_line(),
    {
        let mut line = self.command.clone();
        if self.args.len() > 0 {
            line.append(" ");
            let arguments = join_texts(self.args.as_slice(), " ");
            line.append(arguments.as_str());
        }
        line
    }

    /// The file that would take precedence over the search path when the command is started in
    /// `directory`, where there is such a file to look for.
    pub fn local_candidate(&self, directory: Option<&str>) -> (candidate: Option<String>)
        ensures
            match candidate {
                Some(candidate) => !names_a_path(self.spec_command()) && directory is Some
                    && candidate@ == local_program(directory->0@, self.spec_command()),
                None => names_a_path(self.spec_command()) || directory is None,
            },
    {
        if self.has_path() {
            return None;
        }
        match directory {
            Some(directory) => {
                let modules = join(directory, "node_modules");
                let programs = join(modules.as_str(), ".bin");
                Some(join(programs.as_str(), self.command.as_str()))
            },
            None => None,
        }
    }

    fn has_path(&self) -> (has: bool)
        ensures
            has == names_a_path(self.spec_command()),
    {
        path_is_absolute(self.command.as_str()) || str_has(self.command.as_str(), '/') || str_has(
            self.command.as_str(),
            '\\',
        )
    }

    /// The program of the command, where it can be found. See [`resolved_program`].
    pub fn resolve_command(
        &self,
        directory: Option<&str>,
        local_exists: bool,
        located: Option<&str>,
    ) -> (program: Option<String>)
        ensures
            match program {
                Some(program) => resolved_program(
                    self.spec_command(),
                    text_of(directory),
                    local_exists,
                    text_of(located),
                ) == Some(program@),
                None => resolved_program(
                    self.spec_command(),
                    text_of(directory),
                    local_exists,
                    text_of(located),
                ) is None,
            },
    {
        if self.has_path() {
            return match directory {
                Some(directory) => Some(join(directory, self.command.as_str())),
                None => Some(self.command.clone()),
            };
        }
        if local_exists {
            if let Some(candidate) = self.local_candidate(directory) {
                return Some(candidate);
            }
        }
        match located {
            Some(located) => Some(located.to_owned()),
            None => None,
        }
    }

    fn spawn_inner(
        &self,
        directory: Option<&str>,
        new_process_group: bool,
        local_exists: bool,
        located: Option<&str>,
    ) -> (plan: Result<SpawnPlan, SpawnCommandError>)
        ensures
            self.spec_spawns(directory, new_process_group, local_exists, located, plan),
    {
        match self.resolve_command(directory, local_exists, located) {
            None => Err(SpawnCommandError::CommandNotFound { command: self.command.clone() }),
            Some(program) => {
                let directory = match directory {
                    Some(directory) => Some(directory.to_owned()),
                    None => None,
                };
                Ok(
                    SpawnPlan {
                        program,
                        args: copy_texts(self.args.as_slice()),
                        environment: self.environment.copy(),
                        directory,
                        new_process_group,
                    },
                )
            },
        }
    }

    /// Whether `plan` is what starting the command comes to: the program that the command resolves
    /// to, with the command's arguments and environment, or the error that there is none.
    pub open spec fn spec_spawns(
        self,
        directory: Option<&str>,
        new_process_group: bool,
        local_exists: bool,
        located: Option<&str>,
        plan: Result<SpawnPlan, SpawnCommandError>,
    ) -> bool {
        let program = resolved_program(
            self.spec_command(),
            text_of(directory),
            local_exists,
            text_of(located),
        );
        match plan {
            Ok(plan) => {
                &&& program == Some(plan.program@)
                &&& texts(plan.args@) == self.spec_arguments()
                &&& plan.environment@ == self.spec_environment()
                &&& match plan.directory {
                    Some(chosen) => text_of(directory) == Some(chosen@),
                    None => directory is None,
                }
                &&& plan.new_process_group == new_process_group
            },
            Err(SpawnCommandError::CommandNotFound { command }) => program is None && command@
                == self.spec_command(),
        }
    }

    /// How to start the command where the editor runs.
    pub fn spawn(&self, located: Option<&str>) -> (plan: Result<SpawnPlan, SpawnCommandError>)
        ensures
            self.spec_spawns(None, false, false, located, plan),
    {
        self.spawn_inner(None, false, false, located)
    }

    /// How to start the command in a directory.
    pub fn spawn_in_directory(
        &self,
        directory: &str,
        local_exists: bool,
        located: Option<&str>,
    ) -> (plan: Result<SpawnPlan, SpawnCommandError>)
        ensures
            self.spec_spawns(Some(directory), false, local_exists, located, plan),
    {
        self.spawn_inner(Some(directory), false, local_exists, located)
    }

    /// How to start the command in a directory, as the head of a process group of its own.
    pub fn spawn_in_directory_in_new_process_group(
        &self,
        directory: &str,
        local_exists: bool,
        located: Option<&str>,
    ) -> (plan: Result<SpawnPlan, SpawnCommandError>)
        ensures
            self.spec_spawns(Some(directory), true, local_exists, located, plan),
    {
        self.spawn_inner(Some(directory), true, local_exists, located)
    }

    /// A run of the command, with `input` for it to read.
    pub fn run_with_input(&self, input: &str) -> (run: Run)
        ensures
            run@ == (RunSpec {
                stage: Stage::Spawning,
                input: input@,
                output: Seq::empty(),
                code: None,
            }),
    {
        Run { stage: Stage::Spawning, input: input.to_owned(), output: String::new(), code: None }
    }

    /// A run of the command, with nothing for it to read.
    pub fn run(&self) -> (run: Run)
        ensures
            run@ == (RunSpec {
                stage: Stage::Spawning,
                input: ""@,
                output: Seq::empty(),
                code: None,
            }),
    {
        self.run_with_input("")
    }
}

/// What a run of a command waits for.
#[derive(Clone, Copy, Debug, PartialEq, Eq, Structural)]
pub enum Stage {
    /// The process is to be started.
    Spawning,
    /// The input is to be written.
    Writing,
    /// The output is to be read.
    Reading,
    /// The process is to end.
    Waiting,
    /// The error output is to be read.
    Explaining,
    /// The run is over.
    Finished,
}

/// The meaning of a [`Run`].
pub struct RunSpec {
    pub stage: Stage,
    pub input: Seq<char>,
    pub output: Seq<char>,
    pub code: Option<i32>,
}

/// A run of a command.
pub struct Run {
    stage: Stage,
    input: String,
    output: String,
    code: Option<i32>,
}

impl View for Run {
    type V = RunSpec;

    closed spec fn view(&self) -> RunSpec {
        RunSpec {
            stage: self.stage,
            input: self.input@,
            output: self.output@,
            code: self.code,
        }
    }
}

/// What happened to the process of a run. `T` is how texts are held.
pub enum RunEvent<T> {
    /// The process started.
    Spawned,
    /// The process did not start.
    NotSpawned(T),
    /// What was asked for was done. For a stream that is to be read, what it held.
    Done(T),
    /// The stream that was asked for is not there.
    Missing,
    /// What was asked for failed.
    Broken,
    /// The process ended, with its exit code where it has one.
    Exited(Option<i32>),
}

/// What is to be done for a run. `T` is how texts are held.
pub enum RunAction<T> {
    WriteStdin(T),
    ReadStdout,
    Wait,
    ReadStderr,
    Finish(Result<T, RunError<T>>),
}

/// What makes a run fail. `T` is how texts are held.
pub enum RunError<T> {
    NotSpawned(T),
    OpenStdin,
    WriteStdin,
    OpenStdout,
    ReadStdout,
    Wait,
    /// The process ended with another code than 0, or by a signal.
    Failed { code: Option<i32>, stderr: T, stdout: T },
    /// The event is none that the run waits for.
    OutOfOrder,
}

/// The meaning of an event.
pub open spec fn event_view(event: RunEvent<String>) -> RunEvent<Seq<char>> {
    match event {
        RunEvent::Spawned => RunEvent::Spawned,
        RunEvent::NotSpawned(reason) => RunEvent::NotSpawned(reason@),
        RunEvent::Done(text) => RunEvent::Done(text@),
        RunEvent::Missing => RunEvent::Missing,
        RunEvent::Broken => RunEvent::Broken,
        RunEvent::Exited(code) => RunEvent::Exited(code),
    }
}

/// The meaning of an error.
pub open spec fn error_view(error: RunError<String>) -> RunError<Seq<char>> {
    match error {
        RunError::NotSpawned(reason) => RunError::NotSpawned(reason@),
        RunError::OpenStdin => RunError::OpenStdin,
        RunError::WriteStdin => RunError::WriteStdin,
        RunError::OpenStdout => RunError::OpenStdout,
        RunError::ReadStdout => RunError::ReadStdout,
        RunError::Wait => RunError::Wait,
        RunError::Failed { code, stderr, stdout } => RunError::Failed {
            code,
            stderr: stderr@,
            stdout: stdout@,
        },
        RunError::OutOfOrder => RunError::OutOfOrder,
    }
}

/// The meaning of an action.
pub open spec fn action_view(action: RunAction<String>) -> RunAction<Seq<char>> {
    match action {
        RunAction::WriteStdin(text) => RunAction::WriteStdin(text@),
        RunAction::ReadStdout => RunAction::ReadStdout,
        RunAction::Wait => RunAction::Wait,
        RunAction::ReadStderr => RunAction::ReadStderr,
        RunAction::Finish(Ok(output)) => RunAction::Finish(Ok(output@)),
        RunAction::Finish(Err(error)) => RunAction::Finish(Err(error_view(error))),
    }
}

/// What a run does upon an event, and what state it is in then.
pub open spec fn run_step(run: RunSpec, event: RunEvent<Seq<char>>) -> (
    RunSpec,
    RunAction<Seq<char>>,
) {
    let over = RunSpec { stage: Stage::Finished, ..run };
    match (run.stage, event) {
        (Stage::Spawning, RunEvent::Spawned) => (
            RunSpec { stage: Stage::Writing, ..run },
            RunAction::WriteStdin(run.input),
        ),
        (Stage::Spawning, RunEvent::NotSpawned(reason)) => (
            over,
            RunAction::Finish(Err(RunError::NotSpawned(reason))),
        ),
        (Stage::Writing, RunEvent::Done(_)) => (
            RunSpec { stage: Stage::Reading, ..run },
            RunAction::ReadStdout,
        ),
        (Stage::Writing, RunEvent::Missing) => (over, RunAction::Finish(Err(RunError::OpenStdin))),
        (Stage::Writing, RunEvent::Broken) => (over, RunAction::Finish(Err(RunError::WriteStdin))),
        (Stage::Reading, RunEvent::Done(output)) => (
            RunSpec { stage: Stage::Waiting, output, ..run },
            RunAction::Wait,
        ),
        (Stage::Reading, RunEvent::Missing) => (over, RunAction::Finish(Err(RunError::OpenStdout))),
        (Stage::Reading, RunEvent::Broken) => (over, RunAction::Finish(Err(RunError::ReadStdout))),
        (Stage::Waiting, RunEvent::Exited(code)) => if code == Some(0i32) {
            (RunSpec { code, ..over }, RunAction::Finish(Ok(run.output)))
        } else {
            (RunSpec { stage: Stage::Explaining, code, ..run }, RunAction::ReadStderr)
        },
        (Stage::Waiting, RunEvent::Broken) => (over, RunAction::Finish(Err(RunError::Wait))),
        (Stage::Explaining, RunEvent::Done(stderr)) => (
            over,
            RunAction::Finish(
                Err(RunError::Failed { code: run.code, stderr, stdout: run.output }),
            ),
        ),
        (Stage::Explaining, RunEvent::Missing) => (
            over,
            RunAction::Finish(
                Err(
                    RunError::Failed {
                        code: run.code,
                        stderr: "[No stderr]"@,
                        stdout: run.output,
                    },
                ),
            ),
        ),
        (Stage::Explaining, RunEvent::Broken) => (
            over,
            RunAction::Finish(
                Err(
                    RunError::Failed {
                        code: run.code,
                        stderr: "[Failed to obtain stderr]"@,
                        stdout: run.output,
                    },
                ),
            ),
        ),
        _ => (over, RunAction::Finish(Err(RunError::OutOfOrder))),
    }
}

impl Run {
    fn fail_with(&mut self, stderr: String) -> (action: RunAction<String>)
        ensures
            final(self)@ == (RunSpec { stage: Stage::Finished, ..old(self)@ }),
            action_view(action) == RunAction::<Seq<char>>::Finish(
                Err(
                    RunError::Failed {
                        code: old(self)@.code,
                        stderr: stderr@,
                        stdout: old(self)@.output,
                    },
                ),
            ),
    {
        self.stage = Stage::Finished;
        RunAction::Finish(
            Err(RunError::Failed { code: self.code, stderr, stdout: self.output.clone() }),
        )
    }

    /// What the run does upon an event.
    pub fn next(&mut self, event: RunEvent<String>) -> (action: RunAction<String>)
        ensures
            (final(self)@, action_view(action)) == run_step(old(self)@, event_view(event)),
    {
        match (self.stage, event) {
            (Stage::Spawning, RunEvent::Spawned) => {
                self.stage = Stage::Writing;
                RunAction::WriteStdin(self.input.clone())
            },
            (Stage::Spawning, RunEvent::NotSpawned(reason)) => {
                self.stage = Stage::Finished;
                RunAction::Finish(Err(RunError::NotSpawned(reason)))
            },
            (Stage::Writing, RunEvent::Done(_)) => {
                self.stage = Stage::Reading;
                RunAction::ReadStdout
            },
            (Stage::Writing, RunEvent::Missing) => {
                self.stage = Stage::Finished;
                RunAction::Finish(Err(RunError::OpenStdin))
            },
            (Stage::Writing, RunEvent::Broken) => {
                self.stage = Stage::Finished;
                RunAction::Finish(Err(RunError::WriteStdin))
            },
            (Stage::Reading, RunEvent::Done(output)) => {
                self.stage = Stage::Waiting;
                self.output = output;
                RunAction::Wait
            },
            (Stage::Reading, RunEvent::Missing) => {
                self.stage = Stage::Finished;
                RunAction::Finish(Err(RunError::OpenStdout))
            },
            (Stage::Reading, RunEvent::Broken) => {
                self.stage = Stage::Finished;
                RunAction::Finish(Err(RunError::ReadStdout))
            },
            (Stage::Waiting, RunEvent::Exited(code)) => {
                self.code = code;
                let success = match code {
                    Some(code) => code == 0,
                    None => false,
                };
                if success {
                    self.stage = Stage::Finished;
                    RunAction::Finish(Ok(self.output.clone()))
                } else {
                    self.stage = Stage::Explaining;
                    RunAction::ReadStderr
                }
            },
            (Stage::Waiting, RunEvent::Broken) => {
                self.stage = Stage::Finished;
                RunAction::Finish(Err(RunError::Wait))
            },
            (Stage::Explaining, RunEvent::Done(stderr)) => self.fail_with(stderr),
            (Stage::Explaining, RunEvent::Missing) => self.fail_with("[No stderr]".to_owned()),
            (Stage::Explaining, RunEvent::Broken) => self.fail_with(
                "[Failed to obtain stderr]".to_owned(),
            ),
            _ => {
                self.stage = Stage::Finished;
                RunAction::Finish(Err(RunError::OutOfOrder))
            },
        }
    }
}

/// What an error says.
pub open spec fn error_text(error: RunError<Seq<char>>) -> Seq<char> {
    match error {
        RunError::NotSpawned(reason) => reason,
        RunError::OpenStdin => "Failed to open stdin"@,
        RunError::WriteStdin => "Failed to write to stdin"@,
        RunError::OpenStdout => "Failed to open stdout"@,
        RunError::ReadStdout => "Failed to read from stdout"@,
        RunError::Wait => "Failed to wait on child process"@,
        RunError::Failed { code, stderr, stdout } => "Command failed with exit code: "@ + (
        match code {
            Some(code) => signed_decimal(code as int),
            None => "[Process terminated by signal]"@,
        }) + "\n\nSTDERR =\n\n"@ + stderr + "\n\nSTDOUT =\n\n"@ + stdout,
        RunError::OutOfOrder => "Process reported out of order"@,
    }
}

impl RunError<String> {
    /// What the error says.
    pub fn message(&self) -> (message: String)
        ensures
            message@ == error_text(error_view(*self)),
    {
        match self {
            RunError::NotSpawned(reason) => reason.clone(),
            RunError::OpenStdin => "Failed to open stdin".to_owned(),
            RunError::WriteStdin => "Failed to write to stdin".to_owned(),
            RunError::OpenStdout => "Failed to open stdout".to_owned(),
            RunError::ReadStdout => "Failed to read from stdout".to_owned(),
            RunError::Wait => "Failed to wait on child process".to_owned(),
            RunError::Failed { code, stderr, stdout } => {
                let mut message = "Command failed with exit code: ".to_owned();
                let shown = match code {
                    Some(code) => print_signed(*code as i64),
                    None => "[Process terminated by signal]".to_owned(),
                };
                message.append(shown.as_str());
                message.append("\n\nSTDERR =\n\n");
                message.append(stderr.as_str());
                message.append("\n\nSTDOUT =\n\n");
                message.append(stdout.as_str());
                message
            },
            RunError::OutOfOrder => "Process reported out of order".to_owned(),
        }
    }
}

/// The state of a run after a list of events, and what it did upon the last of them.
pub open spec fn run_all(run: RunSpec, events: Seq<RunEvent<Seq<char>>>) -> (
    RunSpec,
    RunAction<Seq<char>>,
)
    decreases events.len(),
{
    if events.len() == 0 {
        (run, RunAction::Wait)
    } else {
        run_step(run_all(run, events.drop_last()).0, events.last())
    }
}

/// A process that takes its input, prints `output` and ends with the code 0 makes the run succeed
/// with just that output.
pub proof fn law_successful_run_gives_its_output(run: RunSpec, output: Seq<char>, ack: Seq<char>)
    requires
        run.stage is Spawning,
    ensures
        run_all(
            run,
            seq![
                RunEvent::Spawned,
                RunEvent::Done(ack),
                RunEvent::Done(output),
                RunEvent::Exited(Some(0i32)),
            ],
        ).1 == RunAction::<Seq<char>>::Finish(Ok(output)),
{
    let events = seq![
        RunEvent::Spawned,
        RunEvent::Done(ack),
        RunEvent::Done(output),
        RunEvent::Exited(Some(0i32)),
    ];
    let first = events.take(1);
    let second = events.take(2);
    let third = events.take(3);
    assert(events.drop_last() == third);
    assert(third.drop_last() == second);
    assert(second.drop_last() == first);
    assert(first.drop_last() == Seq::<RunEvent<Seq<char>>>::empty());
    reveal_with_fuel(run_all, 6);
}

/// A process that ends with another code, or by a signal, makes the run fail, and the error holds
/// the code, what the process wrote to its error output and what it printed.
pub proof fn law_failed_run_explains_itself(
    run: RunSpec,
    output: Seq<char>,
    code: Option<i32>,
    stderr: Seq<char>,
    ack: Seq<char>,
)
    requires
        run.stage is Spawning,
        code != Some(0i32),
    ensures
        run_all(
            run,
            seq![
                RunEvent::Spawned,
                RunEvent::Done(ack),
                RunEvent::Done(output),
                RunEvent::Exited(code),
                RunEvent::Done(stderr),
            ],
        ).1 == RunAction::<Seq<char>>::Finish(
            Err(RunError::Failed { code, stderr, stdout: output }),
        ),
{
    let events = seq![
        RunEvent::Spawned,
        RunEvent::Done(ack),
        RunEvent::Done(output),
        RunEvent::Exited(code),
        RunEvent::Done(stderr),
    ];
    let first = events.take(1);
    let second = events.take(2);
    let third = events.take(3);
    let fourth = events.take(4);
    assert(events.drop_last() == fourth);
    assert(fourth.drop_last() == third);
    assert(third.drop_last() == second);
    assert(second.drop_last() == first);
    assert(first.drop_last() == Seq::<RunEvent<Seq<char>>>::empty());
    reveal_with_fuel(run_all, 7);
}

/// A command that is a path is started from that path: as it is where it begins at the root, and
/// else from the directory on that it is started in. Any other command is started from the
/// programs that a package manager put into that directory, where it is among them, and else from
/// the search path. Where neither has it, it cannot be started.
pub proof fn law_commands_are_looked_for_in_order(
    command: Seq<char>,
    directory: Seq<char>,
    local_exists: bool,
    located: Option<Seq<char>>,
)
    ensures
        command.len() > 0 && command[0] == '/' ==> resolved_program(
            command,
            Some(directory),
            local_exists,
            located,
        ) == Some(command),
        command.len() > 0 && command[0] != '/' && command.contains('/') && directory.len() > 0
            && directory.last() != '/' ==> resolved_program(
            command,
            Some(directory),
            local_exists,
            located,
        ) == Some(directory + seq!['/'] + command),
        command.contains('/') ==> resolved_program(command, None, local_exists, located) == Some(
            command,
        ),
        !command.contains('/') && !command.contains('\\') ==> {
            &&& resolved_program(command, None, local_exists, located) == located
            &&& resolved_program(command, Some(directory), false, located) == located
            &&& command.len() > 0 && directory.len() > 0 && directory.last() != '/'
                ==> resolved_program(command, Some(directory), true, located) == Some(
                directory + "/node_modules/.bin/"@ + command,
            )
        },
{
    reveal_strlit("/node_modules/.bin/");
    reveal_strlit("node_modules");
    reveal_strlit(".bin");
    law_joined_paths_follow_the_directory(directory, command);
    if command.len() > 0 {
        assert(command.contains(command[0]));
    }
    if directory.len() > 0 && directory.last() != '/' && command.len() > 0 && command[0] != '/' {
        let modules = joined(directory, "node_modules"@);
        let programs = joined(modules, ".bin"@);
        law_joined_paths_follow_the_directory(directory, "node_modules"@);
        assert(modules.last() == "node_modules"@.last());
        law_joined_paths_follow_the_directory(modules, ".bin"@);
        assert(programs.last() == ".bin"@.last());
        law_joined_paths_follow_the_directory(programs, command);
        assert(joined(programs, command) =~= directory + "/node_modules/.bin/"@ + command);
    }
}

/// A run gives the process its input, all of it, once the process has started, and succeeds only
/// when the process has ended with the code 0, and with just what the process printed.
pub proof fn law_runs_succeed_only_with_the_output(
    run: RunSpec,
    event: RunEvent<Seq<char>>,
    output: Seq<char>,
)
    ensures
        run.stage is Spawning ==> run_step(run, RunEvent::Spawned).1 == RunAction::<
            Seq<char>,
        >::WriteStdin(run.input),
        run_step(run, event).1 == RunAction::<Seq<char>>::Finish(Ok(output)) ==> run.stage
            is Waiting && event == RunEvent::<Seq<char>>::Exited(Some(0i32)) && output
            == run.output,
        run.stage is Waiting ==> run_step(run, RunEvent::Exited(Some(0i32))).1 == RunAction::<
            Seq<char>,
        >::Finish(Ok(run.output)),
        run_step(run, event).1 is Finish <==> run_step(run, event).0.stage is Finished,
        run.stage is Finished ==> run_step(run, event).1 is Finish && run_step(
            run,
            event,
        ).1->Finish_0 is Err,
{
}

/// A run in which something goes wrong ends with the error of what went wrong: the process does not
/// start, its input or its output is not there or breaks, or its end cannot be waited for.
pub proof fn law_runs_end_with_what_went_wrong(run: RunSpec, reason: Seq<char>)
    ensures
        run.stage is Spawning ==> run_step(run, RunEvent::NotSpawned(reason)).1 == RunAction::<
            Seq<char>,
        >::Finish(Err(RunError::NotSpawned(reason))),
        run.stage is Writing ==> run_step(run, RunEvent::Missing).1 == RunAction::<
            Seq<char>,
        >::Finish(Err(RunError::OpenStdin)) && run_step(run, RunEvent::Broken).1 == RunAction::<
            Seq<char>,
        >::Finish(Err(RunError::WriteStdin)),
        run.stage is Reading ==> run_step(run, RunEvent::Missing).1 == RunAction::<
            Seq<char>,
        >::Finish(Err(RunError::OpenStdout)) && run_step(run, RunEvent::Broken).1 == RunAction::<
            Seq<char>,
        >::Finish(Err(RunError::ReadStdout)),
        run.stage is Waiting ==> run_step(run, RunEvent::Broken).1 == RunAction::<
            Seq<char>,
        >::Finish(Err(RunError::Wait)),
        run.stage is Explaining ==> {
            &&& run_step(run, RunEvent::Missing).1 == RunAction::<Seq<char>>::Finish(
                Err(
                    RunError::Failed {
                        code: run.code,
                        stderr: "[No stderr]"@,
                        stdout: run.output,
                    },
                ),
            )
            &&& run_step(run, RunEvent::Broken).1 == RunAction::<Seq<char>>::Finish(
                Err(
                    RunError::Failed {
                        code: run.code,
                        stderr: "[Failed to obtain stderr]"@,
                        stdout: run.output,
                    },
                ),
            )
        },
{
}

/// The command line begins with the command, and each argument follows behind a space.
pub proof fn law_the_line_has_the_command_and_its_arguments(
    command: ProcessCommand,
    first: Seq<char>,
)
    ensures
        command.spec_arguments().len() == 0 ==> command.spec_line() == command.spec_command(),
        command.spec_arguments() == seq![first] ==> command.spec_line() == command.spec_command()
            + seq![' '] + first,
        command.spec_arguments().len() > 1 ==> command.spec_line() == command.spec_command() + seq![
            ' ',
        ] + joined_texts(command.spec_arguments().drop_last(), seq![' ']) + seq![' ']
            + command.spec_arguments().last(),
{
    reveal_strlit(" ");
    assert(" "@ =~= seq![' ']);
    let arguments = command.spec_arguments();
    if arguments.len() > 1 {
        let rest = joined_texts(arguments.drop_last(), seq![' ']);
        assert(command.spec_command() + seq![' '] + (rest + seq![' '] + arguments.last())
            =~= command.spec_command() + seq![' '] + rest + seq![' '] + arguments.last());
    }
}

} // verus!
