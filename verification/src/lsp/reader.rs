//! Reading the output of a language server, and giving up on a server whose output makes no sense.

use crate::decimal::{decimal, print_number};
use crate::json::{
    by_name, explain_fault, is_plain, json_fault, json_text, parsed_json, Json, JsonSpec, MAX_DEPTH,
};
use crate::lsp::transport::{
    begins_with_message, framed, framed_with, is_header_line, law_frame_is_read_back,
    law_further_header_lines_are_passed_over, law_reading_ends_with_the_output,
    law_reading_makes_progress, read_response, read_spec, ReadError, ReadOutcome, ReadSpec,
};
use crate::text::{
    bytes_between, contains_text, join_texts, joined_texts, law_parts_are_contained, quote,
    quoted_text, texts,
};
use vstd::prelude::*;
use vstd::utf8::encode_utf8;

verus! {

/// How many errors in a row make the editor give up on a server.
pub const MAX_CONSECUTIVE_ERRORS: usize = 5;

/// After how many nanoseconds without an error the earlier ones are forgotten.
pub const ERROR_RESET_TIMEOUT: u64 = 30_000_000_000;

/// What is known of the errors of a server.
#[verifier::ext_equal]
pub struct ErrorsSpec {
    /// The errors since the last success, as they are told.
    pub errors: Seq<Seq<char>>,
    /// When the last error was, in nanoseconds.
    pub last_error_time: u64,
}

/// Keeps count of the errors of a server.
///
/// Some servers send nonsense without end while they keep their output open. Errors in a row end
/// the session once there are too many of them. A success, or a time without errors, makes the
/// count start anew.
pub struct ErrorTracker {
    consecutive_errors: Vec<String>,
    last_error_time: u64,
}

impl View for ErrorTracker {
    type V = ErrorsSpec;

    closed spec fn view(&self) -> ErrorsSpec {
        ErrorsSpec {
            errors: texts(self.consecutive_errors@),
            last_error_time: self.last_error_time,
        }
    }
}

/// The errors after one more, which came at the time `now`.
pub open spec fn one_more_error(errors: ErrorsSpec, message: Seq<char>, now: u64) -> ErrorsSpec {
    let kept = if now - errors.last_error_time > ERROR_RESET_TIMEOUT {
        Seq::empty()
    } else {
        errors.errors
    };
    ErrorsSpec { errors: kept.push("Error: "@ + message), last_error_time: now }
}

/// What an error says that the text `text` caused.
pub open spec fn error_text(error: ReadError, text: Seq<char>) -> Seq<char> {
    error.spec_message(quoted_text(text), json_fault(text))
}

/// Whether the editor goes on with a server after an error. It does not once the output is at its
/// end, or once there are too many errors in a row.
pub open spec fn goes_on(errors: ErrorsSpec, error: ReadError) -> bool {
    !error.spec_is_unexpected_eof() && errors.errors.len() < MAX_CONSECUTIVE_ERRORS
}

/// The errors with their numbers.
pub open spec fn numbered(errors: Seq<Seq<char>>) -> Seq<Seq<char>> {
    Seq::new(
        errors.len(),
        |i: int| "Error #"@ + decimal((i + 1) as nat) + ": "@ + errors[i],
    )
}

/// What the user is told when the editor gives up on a server.
pub open spec fn farewell(errors: Seq<Seq<char>>, command: Seq<char>) -> Seq<char> {
    "LspServerProcess::listen: Stopping LSP command:\n\n`"@ + command + (if errors.len()
        >= MAX_CONSECUTIVE_ERRORS {
        "`\n\nToo many consecutive errors (5):\n"@
    } else {
        "`\n\nLSP server stopped after error:\n"@
    }) + joined_texts(numbered(errors), "\n"@)
}

impl ErrorTracker {
    /// No errors. `now` is the time, in nanoseconds.
    pub fn new(now: u64) -> (tracker: ErrorTracker)
        ensures
            tracker@ == (ErrorsSpec { errors: Seq::empty(), last_error_time: now }),
    {
        let tracker = ErrorTracker { consecutive_errors: Vec::new(), last_error_time: now };
        assert(tracker@.errors =~= Seq::<Seq<char>>::empty());
        tracker
    }

    /// Takes note of an error, which says `message`, and says whether to go on.
    pub fn handle_error(&mut self, error: ReadError, message: &str, now: u64) -> (proceed: bool)
        ensures
            final(self)@ == one_more_error(old(self)@, message@, now),
            proceed == goes_on(final(self)@, error),
    {
        if now > self.last_error_time && now - self.last_error_time > ERROR_RESET_TIMEOUT {
            self.consecutive_errors = Vec::new();
            assert(self@.errors =~= Seq::<Seq<char>>::empty());
        }
        let ghost kept = self@.errors;
        let mut text = "Error: ".to_owned();
        text.append(message);
        self.consecutive_errors.push(text);
        self.last_error_time = now;
        assert(self@.errors =~= kept.push("Error: "@ + message@));
        !error.is_unexpected_eof() && self.consecutive_errors.len() < MAX_CONSECUTIVE_ERRORS
    }

    /// Takes note of a success.
    pub fn handle_success(&mut self)
        ensures
            final(self)@ == (ErrorsSpec { errors: Seq::empty(), ..old(self)@ }),
    {
        self.consecutive_errors = Vec::new();
        assert(self@.errors =~= Seq::<Seq<char>>::empty());
    }

    /// What the user is told when the editor gives up on the server. See [`farewell`].
    pub fn farewell(&self, command: &str) -> (message: String)
        ensures
            message@ == farewell(self@.errors, command@),
    {
        let mut lines: Vec<String> = Vec::new();
        let mut i: usize = 0;
        while i < self.consecutive_errors.len()
            invariant
                i <= self.consecutive_errors.len(),
                lines@.len() == i,
                forall|j: int|
                    0 <= j < i ==> (#[trigger] lines@[j])@ == "Error #"@ + decimal((j + 1) as nat)
                        + ": "@ + self.consecutive_errors@[j]@,
            decreases self.consecutive_errors.len() - i,
        {
            let mut line = "Error #".to_owned();
            let number = print_number((i + 1) as u64);
            line.append(number.as_str());
            line.append(": ");
            line.append(self.consecutive_errors[i].as_str());
            lines.push(line);
            i += 1;
        }
        assert(texts(lines@) =~= numbered(self@.errors));
        let mut message = "LspServerProcess::listen: Stopping LSP command:\n\n`".to_owned();
        message.append(command);
        if self.consecutive_errors.len() >= MAX_CONSECUTIVE_ERRORS {
            message.append("`\n\nToo many consecutive errors (5):\n");
        } else {
            message.append("`\n\nLSP server stopped after error:\n");
        }
        let list = join_texts(lines.as_slice(), "\n");
        message.append(list.as_str());
        message
    }
}

/// What is to be done for the reader of a server's output. `J` is how JSON is held and `T` how
/// texts are.
pub enum ReaderAction<J, T> {
    /// Read more of the output.
    ReadMore,
    /// Hand a message to the session.
    Deliver(J),
    /// Wait for a moment, and go on.
    Pause,
    /// Tell the user, and end the session.
    GiveUp(T),
}

/// The meaning of an action.
pub open spec fn reader_action_view(action: ReaderAction<Json, String>) -> ReaderAction<
    JsonSpec,
    Seq<char>,
> {
    match action {
        ReaderAction::ReadMore => ReaderAction::ReadMore,
        ReaderAction::Deliver(message) => ReaderAction::Deliver(message@),
        ReaderAction::Pause => ReaderAction::Pause,
        ReaderAction::GiveUp(text) => ReaderAction::GiveUp(text@),
    }
}

/// The state of the reader of a server's output.
#[verifier::ext_equal]
pub struct ReaderSpec {
    /// The command that started the server.
    pub command: Seq<char>,
    /// What has arrived and was not read yet.
    pub unread: Seq<u8>,
    pub errors: ErrorsSpec,
}

/// The reader of a server's output.
pub struct StdoutReader {
    command: String,
    unread: Vec<u8>,
    tracker: ErrorTracker,
}

impl View for StdoutReader {
    type V = ReaderSpec;

    closed spec fn view(&self) -> ReaderSpec {
        ReaderSpec {
            command: self.command@,
            unread: self.unread@,
            errors: self.tracker@,
        }
    }
}

/// What the reader does with what has arrived, and what state it is in then.
pub open spec fn reader_step(reader: ReaderSpec, at_end: bool, now: u64) -> (
    ReaderSpec,
    ReaderAction<JsonSpec, Seq<char>>,
) {
    match read_spec(reader.unread, at_end) {
        ReadSpec::Incomplete => (reader, ReaderAction::ReadMore),
        ReadSpec::Message { content, consumed } => (
            ReaderSpec {
                unread: reader.unread.skip(consumed),
                errors: ErrorsSpec { errors: Seq::empty(), ..reader.errors },
                ..reader
            },
            ReaderAction::Deliver(content),
        ),
        ReadSpec::Failed { error, consumed, text } => {
            let errors = one_more_error(reader.errors, error_text(error, text), now);
            (
                ReaderSpec { unread: reader.unread.skip(consumed), errors, ..reader },
                if goes_on(errors, error) {
                    ReaderAction::Pause
                } else {
                    ReaderAction::GiveUp(farewell(errors.errors, reader.command))
                },
            )
        },
    }
}

impl StdoutReader {
    /// A reader to which nothing has arrived.
    pub fn new(command: &str, now: u64) -> (reader: StdoutReader)
        ensures
            reader@ == (ReaderSpec {
                command: command@,
                unread: Seq::empty(),
                errors: ErrorsSpec { errors: Seq::empty(), last_error_time: now },
            }),
    {
        StdoutReader {
            command: command.to_owned(),
            unread: Vec::new(),
            tracker: ErrorTracker::new(now),
        }
    }

    /// Takes in bytes that arrived.
    pub fn receive(&mut self, bytes: &[u8])
        ensures
            final(self)@ == (ReaderSpec { unread: old(self)@.unread + bytes@, ..old(self)@ }),
    {
        let mut i: usize = 0;
        assert(old(self)@.unread =~= old(self)@.unread + bytes@.take(0));
        while i < bytes.len()
            invariant
                i <= bytes.len(),
                self@ == (ReaderSpec {
                    unread: old(self)@.unread + bytes@.take(i as int),
                    ..old(self)@
                }),
            decreases bytes.len() - i,
        {
            self.unread.push(bytes[i]);
            i += 1;
            assert(self@.unread =~= old(self)@.unread + bytes@.take(i as int));
        }
        assert(bytes@.take(bytes@.len() as int) == bytes@);
    }

    fn skip(&mut self, consumed: usize)
        requires
            consumed <= old(self)@.unread.len(),
        ensures
            final(self)@ == (ReaderSpec {
                unread: old(self)@.unread.skip(consumed as int),
                ..old(self)@
            }),
    {
        let rest = bytes_between(self.unread.as_slice(), consumed, self.unread.len());
        assert(rest@ =~= self.unread@.skip(consumed as int));
        self.unread = rest;
    }

    /// What the reader does with what has arrived. `at_end` says that the output ends there, and
    /// `now` is the time in nanoseconds. See [`reader_step`]. A message that was written by
    /// `send_json` is delivered once it arrived as a whole, with the members of objects by their
    /// names, and what follows it stays for the next time.
    pub fn advance(&mut self, at_end: bool, now: u64) -> (action: ReaderAction<Json, String>)
        ensures
            (final(self)@, reader_action_view(action)) == reader_step(old(self)@, at_end, now),
            forall|message: JsonSpec| #[trigger]
                begins_with_message(old(self)@.unread, message) && is_plain(
                    message,
                    MAX_DEPTH as nat,
                ) ==> reader_action_view(action) == ReaderAction::<JsonSpec, Seq<char>>::Deliver(
                    by_name(message),
                ) && final(self)@.unread == old(self)@.unread.skip(
                    framed(json_text(message)).len() as int,
                ),
    {
        proof {
            law_reading_makes_progress(self.unread@, at_end);
        }
        match read_response(self.unread.as_slice(), at_end) {
            ReadOutcome::Incomplete => ReaderAction::ReadMore,
            ReadOutcome::Message { content, consumed } => {
                self.skip(consumed);
                self.tracker.handle_success();
                ReaderAction::Deliver(content)
            },
            ReadOutcome::Failed { error, consumed, text } => {
                self.skip(consumed);
                let shown = quote(text.as_str());
                let fault = explain_fault(text.as_str());
                let message = error.message(shown.as_str(), fault.as_str());
                if self.tracker.handle_error(error, message.as_str(), now) {
                    ReaderAction::Pause
                } else {
                    ReaderAction::GiveUp(self.tracker.farewell(self.command.as_str()))
                }
            },
        }
    }
}

/// A message that arrived as a whole is delivered, whatever further lines its header has, and what
/// follows it stays for the next time.
pub proof fn law_messages_are_delivered(
    reader: ReaderSpec,
    text: Seq<char>,
    content: JsonSpec,
    lines: Seq<Seq<u8>>,
    rest: Seq<u8>,
    at_end: bool,
    now: u64,
)
    requires
        parsed_json(text) == Some(content),
        encode_utf8(text).len() <= usize::MAX,
        forall|i: int| 0 <= i < lines.len() ==> is_header_line(#[trigger] lines[i]),
        reader.unread == framed_with(text, lines) + rest,
    ensures
        reader_step(reader, at_end, now).1 == ReaderAction::<JsonSpec, Seq<char>>::Deliver(content),
        reader_step(reader, at_end, now).0.unread == rest,
        reader_step(reader, at_end, now).0.errors.errors.len() == 0,
{
    law_further_header_lines_are_passed_over(text, content, lines, rest, at_end);
    let frame = framed_with(text, lines);
    assert((frame + rest).skip(frame.len() as int) =~= rest);
}

/// A message that was framed is delivered once it arrived as a whole, and what follows it stays for
/// the next time.
pub proof fn law_framed_messages_are_delivered(
    reader: ReaderSpec,
    text: Seq<char>,
    content: JsonSpec,
    rest: Seq<u8>,
    at_end: bool,
    now: u64,
)
    requires
        parsed_json(text) == Some(content),
        encode_utf8(text).len() <= usize::MAX,
        reader.unread == framed(text) + rest,
    ensures
        reader_step(reader, at_end, now).1 == ReaderAction::<JsonSpec, Seq<char>>::Deliver(content),
        reader_step(reader, at_end, now).0.unread == rest,
        reader_step(reader, at_end, now).0.errors.errors.len() == 0,
{
    law_frame_is_read_back(text, content, rest, at_end);
    let frame = framed(text);
    assert((frame + rest).skip(frame.len() as int) =~= rest);
}

/// When the output has come to its end, the reader comes to its end too: it does not ask for more,
/// and as long as it goes on, less and less is left to be read.
pub proof fn law_the_reader_ends_with_the_output(reader: ReaderSpec, now: u64)
    ensures
        ({
            let (next, action) = reader_step(reader, true, now);
            &&& !(action is ReadMore)
            &&& !(action is GiveUp) ==> next.unread.len() < reader.unread.len()
            &&& reader.unread.len() == 0 ==> action is GiveUp
        }),
{
    law_reading_ends_with_the_output(reader.unread);
    law_reading_makes_progress(reader.unread, true);
}

/// However long a server sends nonsense, no more than `MAX_CONSECUTIVE_ERRORS` errors are on
/// record, and with so many the reader has given up.
pub proof fn law_errors_are_bounded(reader: ReaderSpec, at_end: bool, now: u64)
    requires
        reader.errors.errors.len() < MAX_CONSECUTIVE_ERRORS,
    ensures
        ({
            let (next, action) = reader_step(reader, at_end, now);
            &&& next.errors.errors.len() <= MAX_CONSECUTIVE_ERRORS
            &&& next.errors.errors.len() == MAX_CONSECUTIVE_ERRORS ==> action is GiveUp
            &&& !(action is GiveUp) ==> next.errors.errors.len() < MAX_CONSECUTIVE_ERRORS
        }),
{
}

/// An error is kept behind those before it. After a time without errors, and after a success, those
/// before it are forgotten.
pub proof fn law_errors_are_kept_until_they_are_forgotten(
    errors: ErrorsSpec,
    message: Seq<char>,
    now: u64,
)
    ensures
        ({
            let next = one_more_error(errors, message, now);
            &&& next.last_error_time == now
            &&& next.errors.len() > 0 && next.errors.last() == "Error: "@ + message
            &&& now - errors.last_error_time <= ERROR_RESET_TIMEOUT ==> next.errors.drop_last()
                == errors.errors
            &&& now - errors.last_error_time > ERROR_RESET_TIMEOUT ==> next.errors.len() == 1
        }),
{
    let next = one_more_error(errors, message, now);
    if now - errors.last_error_time <= ERROR_RESET_TIMEOUT {
        assert(next.errors.drop_last() =~= errors.errors);
    }
}

/// The editor gives up on a server at the end of its output at once, and else with the fifth error
/// in a row, and not before.
pub proof fn law_the_editor_gives_up_in_time(errors: ErrorsSpec, error: ReadError)
    ensures
        error is Closed || error is Truncated ==> !goes_on(errors, error),
        !(error is Closed) && !(error is Truncated) ==> (goes_on(errors, error)
            <==> errors.errors.len() < 5),
{
}

/// The user is told of all errors, in their order, each behind its number, which counts from 1.
pub proof fn law_errors_are_numbered(errors: Seq<Seq<char>>)
    ensures
        numbered(errors).len() == errors.len(),
        forall|i: int|
            0 <= i < errors.len() ==> #[trigger] numbered(errors)[i] == "Error #"@ + decimal(
                (i + 1) as nat,
            ) + ": "@ + errors[i],
{
}

/// The user is told which command is given up on, and either that there were too many errors or
/// that the server stopped, with all the errors.
pub proof fn law_the_user_is_told_why_the_editor_gives_up(
    errors: Seq<Seq<char>>,
    command: Seq<char>,
)
    ensures
        ({
            let told = farewell(errors, command);
            let listed = joined_texts(numbered(errors), "\n"@);
            &&& contains_text(told, "`"@ + command + "`"@)
            &&& errors.len() < MAX_CONSECUTIVE_ERRORS ==> contains_text(
                told,
                "LSP server stopped after error:\n"@ + listed,
            )
            &&& errors.len() >= MAX_CONSECUTIVE_ERRORS ==> contains_text(
                told,
                "Too many consecutive errors (5):\n"@ + listed,
            )
        }),
{
    let listed = joined_texts(numbered(errors), "\n"@);
    let told = farewell(errors, command);
    let front = "LspServerProcess::listen: Stopping LSP command:\n\n`"@;
    let many = "`\n\nToo many consecutive errors (5):\n"@;
    let one = "`\n\nLSP server stopped after error:\n"@;
    reveal_strlit("LspServerProcess::listen: Stopping LSP command:\n\n`");
    reveal_strlit("`\n\nToo many consecutive errors (5):\n");
    reveal_strlit("`\n\nLSP server stopped after error:\n");
    reveal_strlit("Too many consecutive errors (5):\n");
    reveal_strlit("LSP server stopped after error:\n");
    reveal_strlit("`");
    let none = Seq::<char>::empty();
    let why = if errors.len() >= MAX_CONSECUTIVE_ERRORS {
        many
    } else {
        one
    };
    assert(front =~= front.drop_last() + "`"@);
    assert(why =~= "`"@ + why.skip(1));
    assert(told =~= front.drop_last() + ("`"@ + command + "`"@) + (why.skip(1) + listed));
    law_parts_are_contained(front.drop_last(), "`"@ + command + "`"@, why.skip(1) + listed);
    let said = why.skip(3);
    if errors.len() >= MAX_CONSECUTIVE_ERRORS {
        assert(said =~= "Too many consecutive errors (5):\n"@);
    } else {
        assert(said =~= "LSP server stopped after error:\n"@);
    }
    assert(told =~= front + command + why.take(3) + (said + listed) + none);
    law_parts_are_contained(front + command + why.take(3), said + listed, none);
}

} // verus!
