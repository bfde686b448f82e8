//! A log file that never grows beyond a limit.

use vstd::prelude::*;

verus! {

/// How many bytes the log files of the editor may have.
pub const MAX_LOG_FILE_BYTES: u64 = 10_485_760;

/// What is to be done with an event.
#[derive(Clone, Copy, Debug, PartialEq, Eq, Structural)]
pub enum LogStep {
    /// Nothing: the event does not fit into any log file.
    Discard,
    /// Empty the file, and write the event.
    StartOver,
    /// Write the event at the end of the file.
    Append,
}

/// What is to be done with an event of `event` bytes, where the file has `size` bytes and may have
/// `max_bytes`.
pub open spec fn log_step(size: int, event: int, max_bytes: int) -> LogStep {
    if event > max_bytes {
        LogStep::Discard
    } else if size + event > max_bytes {
        LogStep::StartOver
    } else {
        LogStep::Append
    }
}

/// What a log file holds once an event is written.
pub open spec fn log_after(content: Seq<u8>, event: Seq<u8>, max_bytes: u64) -> Seq<u8> {
    match log_step(content.len() as int, event.len() as int, max_bytes as int) {
        LogStep::Discard => content,
        LogStep::StartOver => event,
        LogStep::Append => content + event,
    }
}

/// A log file, by the number of bytes that it may have.
#[derive(Clone, Copy, Debug, PartialEq, Eq, Structural)]
pub struct BoundedLogFile {
    pub max_bytes: u64,
}

impl BoundedLogFile {
    /// What is to be done with an event, where the file has `size` bytes.
    pub fn write_event(&self, size: u64, event: &[u8]) -> (step: LogStep)
        ensures
            step == log_step(size as int, event@.len() as int, self.max_bytes as int),
    {
        let length = event.len() as u64;
        if length > self.max_bytes {
            LogStep::Discard
        } else if size > self.max_bytes - length {
            LogStep::StartOver
        } else {
            LogStep::Append
        }
    }

    /// A writer that gathers an event.
    pub fn make_writer(&self) -> (writer: BoundedLogWriter)
        ensures
            writer.spec_log() == *self,
            writer.spec_event() == Seq::<u8>::empty(),
    {
        BoundedLogWriter { log: *self, event: Vec::new() }
    }
}

/// Gathers an event, piece by piece, to be written as a whole.
pub struct BoundedLogWriter {
    log: BoundedLogFile,
    event: Vec<u8>,
}

impl BoundedLogWriter {
    /// The log file that the event is for.
    pub closed spec fn spec_log(self) -> BoundedLogFile {
        self.log
    }

    /// What was gathered so far.
    pub closed spec fn spec_event(self) -> Seq<u8> {
        self.event@
    }

    /// Takes in a piece of the event, all of it.
    pub fn write(&mut self, buffer: &[u8]) -> (written: usize)
        ensures
            written == buffer@.len(),
            final(self).spec_event() == old(self).spec_event() + buffer@,
            final(self).spec_log() == old(self).spec_log(),
    {
        let mut i: usize = 0;
        assert(self.event@ =~= old(self).event@ + buffer@.take(0));
        while i < buffer.len()
            invariant
                i <= buffer.len(),
                self.log == old(self).log,
                self.event@ == old(self).event@ + buffer@.take(i as int),
            decreases buffer.len() - i,
        {
            self.event.push(buffer[i]);
            i += 1;
            assert(self.event@ =~= old(self).event@ + buffer@.take(i as int));
        }
        assert(buffer@.take(buffer@.len() as int) == buffer@);
        buffer.len()
    }

    /// What was gathered.
    pub fn event(&self) -> (event: &[u8])
        ensures
            event@ == self.spec_event(),
    {
        self.event.as_slice()
    }

    /// What is to be done with the event, where the file has `size` bytes.
    pub fn finish(&self, size: u64) -> (step: LogStep)
        ensures
            step == log_step(
                size as int,
                self.spec_event().len() as int,
                self.spec_log().max_bytes as int,
            ),
    {
        self.log.write_event(size, self.event.as_slice())
    }
}

/// A log file within its limit stays within its limit, whatever is written.
pub proof fn law_log_stays_within_its_limit(content: Seq<u8>, event: Seq<u8>, max_bytes: u64)
    requires
        content.len() <= max_bytes,
    ensures
        log_after(content, event, max_bytes).len() <= max_bytes,
{
}

/// An event that fits into the file at all is the last thing in it, and is never cut.
pub proof fn law_events_are_not_cut(content: Seq<u8>, event: Seq<u8>, max_bytes: u64)
    requires
        event.len() <= max_bytes,
    ensures
        ({
            let after = log_after(content, event, max_bytes);
            &&& after.len() >= event.len()
            &&& after.skip(after.len() - event.len()) == event
        }),
{
    let after = log_after(content, event, max_bytes);
    assert(after.skip(after.len() - event.len()) =~= event);
}

/// An event that does not fit into the file at all leaves the file as it is.
pub proof fn law_oversized_events_are_discarded(content: Seq<u8>, event: Seq<u8>, max_bytes: u64)
    requires
        event.len() > max_bytes,
    ensures
        log_after(content, event, max_bytes) == content,
{
}

/// An event that fits behind what the file holds is added to it, and what the file holds is kept.
/// One that fits into the file, but not behind what it holds, takes its place.
pub proof fn law_what_fits_is_kept(content: Seq<u8>, event: Seq<u8>, max_bytes: u64)
    ensures
        content.len() + event.len() <= max_bytes ==> log_after(content, event, max_bytes) == content
            + event,
        event.len() <= max_bytes < content.len() + event.len() ==> log_after(
            content,
            event,
            max_bytes,
        ) == event,
{
}

} // verus!
