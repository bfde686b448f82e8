//! The framing of messages between the editor and a language server.
//!
//! A message is a header, an empty line, and as many bytes of JSON as the header says.

use crate::decimal::{
    decimal, is_digit, law_decimal_is_read_back, parse_number, parsed_number, print_number,
};
use crate::json::{
    by_name, is_plain, json_text, parse_json, parsed_json, print_json, Json, JsonSpec, MAX_DEPTH,
};
use crate::text::{
    bytes_between, chars_between, chars_of, is_white_space, trim, trimmed, trimmed_end,
    trimmed_start,
};
use vstd::prelude::*;
use vstd::utf8::*;

verus! {

/// The bytes that carry the JSON text `text`.
pub open spec fn framed(text: Seq<char>) -> Seq<u8> {
    encode_utf8("Content-Length: "@ + decimal(encode_utf8(text).len()) + "\r\n\r\n"@) + encode_utf8(
        text,
    )
}

/// Appends `more` to `bytes`.
fn extend(bytes: &mut Vec<u8>, more: &[u8])
    ensures
        final(bytes)@ == old(bytes)@ + more@,
{
    let mut i: usize = 0;
    while i < more.len()
        invariant
            i <= more.len(),
            bytes@ == old(bytes)@ + more@.take(i as int),
        decreases more.len() - i,
    {
        bytes.push(more[i]);
        i += 1;
    }
    assert(more@.take(more@.len() as int) == more@);
}

/// The bytes that carry the JSON text `text`.
pub fn frame(text: &str) -> (bytes: Vec<u8>)
    ensures
        bytes@ == framed(text@),
        encode_utf8(text@).len() <= usize::MAX,
{
    let body = text.as_bytes();
    let mut header = String::new();
    header.append("Content-Length: ");
    let length = print_number(body.len() as u64);
    header.append(length.as_str());
    header.append("\r\n\r\n");
    assert(header@ =~= "Content-Length: "@ + decimal(encode_utf8(text@).len()) + "\r\n\r\n"@);
    let mut bytes: Vec<u8> = Vec::new();
    extend(&mut bytes, header.as_str().as_bytes());
    extend(&mut bytes, body);
    assert(bytes@ =~= framed(text@));
    bytes
}

/// What keeps a message from being read.
#[derive(Clone, Copy, Debug, PartialEq, Eq, Structural)]
pub enum ReadError {
    /// The server closed its output.
    Closed,
    /// The first line is not UTF-8.
    Header,
    /// The first line has no colon.
    NoColon,
    /// What follows the colon is no number.
    BadLength,
    /// A further line of the header is not UTF-8.
    Content,
    /// The output ends inside of the content.
    Truncated,
    /// The content is not UTF-8.
    NotUtf8,
    /// The content is not JSON.
    NotJson,
}

impl ReadError {
    /// Whether the output of the server has come to its end.
    pub open spec fn spec_is_unexpected_eof(self) -> bool {
        self is Closed || self is Truncated
    }

    /// Whether the output of the server has come to its end.
    pub fn is_unexpected_eof(self) -> (eof: bool)
        ensures
            eof == self.spec_is_unexpected_eof(),
    {
        match self {
            ReadError::Closed => true,
            ReadError::Truncated => true,
            _ => false,
        }
    }

    /// What the error says. `shown` is how the text that caused it is shown, and `fault` what is
    /// wrong with that text as JSON.
    pub open spec fn spec_message(self, shown: Seq<char>, fault: Seq<char>) -> Seq<char> {
        match self {
            ReadError::Closed => "LSP server stdout closed"@,
            ReadError::Header => "Failed to read Content-Length"@,
            ReadError::NoColon => "Parsing Content-Length: Unable to split line: "@ + shown,
            ReadError::BadLength => "Parsing Content-Length: Failed to parse number."@,
            ReadError::Content => "Failed to read content."@,
            ReadError::Truncated => "Failed to read buffer into vector."@,
            ReadError::NotUtf8 => "Failed to convert content buffer into String."@,
            ReadError::NotJson =>
                "Failed to convert content string into JSON value due to error: "@ + fault
                + ". Content is "@ + shown,
        }
    }

    /// What the error says. See [`ReadError::spec_message`].
    pub fn message(self, shown: &str, fault: &str) -> (message: String)
        ensures
            message@ == self.spec_message(shown@, fault@),
    {
        match self {
            ReadError::Closed => "LSP server stdout closed".to_owned(),
            ReadError::Header => "Failed to read Content-Length".to_owned(),
            ReadError::NoColon => {
                let mut message = "Parsing Content-Length: Unable to split line: ".to_owned();
                message.append(shown);
                message
            },
            ReadError::BadLength => "Parsing Content-Length: Failed to parse number.".to_owned(),
            ReadError::Content => "Failed to read content.".to_owned(),
            ReadError::Truncated => "Failed to read buffer into vector.".to_owned(),
            ReadError::NotUtf8 => "Failed to convert content buffer into String.".to_owned(),
            ReadError::NotJson => {
                let mut message =
                    "Failed to convert content string into JSON value due to error: ".to_owned();
                message.append(fault);
                message.append(". Content is ");
                message.append(shown);
                message
            },
        }
    }
}

/// What the meaning of a [`ReadOutcome`] is.
pub enum ReadSpec {
    Message { content: JsonSpec, consumed: int },
    Incomplete,
    Failed { error: ReadError, consumed: int, text: Seq<char> },
}

/// What reading one message from the output of a server comes to.
pub enum ReadOutcome {
    /// A message, and the number of bytes that carried it.
    Message { content: Json, consumed: usize },
    /// The message has not arrived as a whole.
    Incomplete,
    /// An error, the number of bytes that were read before it showed, and the text that caused it,
    /// where a text did.
    Failed { error: ReadError, consumed: usize, text: String },
}

impl View for ReadOutcome {
    type V = ReadSpec;

    open spec fn view(&self) -> ReadSpec {
        match *self {
            ReadOutcome::Message { content, consumed } => ReadSpec::Message {
                content: content@,
                consumed: consumed as int,
            },
            ReadOutcome::Incomplete => ReadSpec::Incomplete,
            ReadOutcome::Failed { error, consumed, text } => ReadSpec::Failed {
                error,
                consumed: consumed as int,
                text: text@,
            },
        }
    }
}

/// Where the line that begins at `from` ends: behind its line feed, or, when the output is at its
/// end, behind the last byte.
pub open spec fn line_end(bytes: Seq<u8>, at_end: bool, from: int) -> Option<int>
    decreases bytes.len() - from,
{
    if from >= bytes.len() {
        if at_end {
            Some(bytes.len() as int)
        } else {
            None
        }
    } else if bytes[from] == 10 {
        Some(from + 1)
    } else {
        line_end(bytes, at_end, from + 1)
    }
}

/// The position of the first colon from `from` on, or the length of the text where there is none.
pub open spec fn colon_from(text: Seq<char>, from: int) -> int
    decreases text.len() - from,
{
    if from >= text.len() || text[from] == ':' {
        from
    } else {
        colon_from(text, from + 1)
    }
}

/// What the first line of a header says of the length of the content.
pub open spec fn header_length(line: Seq<char>) -> Result<nat, ReadError> {
    let first = colon_from(line, 0);
    if first >= line.len() {
        Err(ReadError::NoColon)
    } else {
        let second = colon_from(line, first + 1);
        match parsed_number(trimmed(line.subrange(first + 1, second)), usize::MAX as nat) {
            Some(length) => Ok(length),
            None => Err(ReadError::BadLength),
        }
    }
}

/// Where the content begins: behind the first line from `from` on that is empty. An error, and
/// where it showed, where a line before it is not UTF-8 or the output ends before it. `None` where
/// no such line has arrived.
pub open spec fn content_start(bytes: Seq<u8>, at_end: bool, from: int) -> Option<
    Result<int, (ReadError, int)>,
>
    decreases bytes.len() - from,
{
    match line_end(bytes, at_end, from) {
        None => None,
        Some(end) => if end <= from || end > bytes.len() {
            Some(Err((ReadError::Closed, bytes.len() as int)))
        } else if !valid_utf8(bytes.subrange(from, end)) {
            Some(Err((ReadError::Content, end)))
        } else if bytes.subrange(from, end) == seq![13u8, 10u8] {
            Some(Ok(end))
        } else {
            content_start(bytes, at_end, end)
        },
    }
}

/// An error that no text caused.
pub open spec fn failed(error: ReadError, consumed: int) -> ReadSpec {
    ReadSpec::Failed { error, consumed, text: Seq::empty() }
}

/// What the content of a message, behind a header of `consumed` bytes, holds.
pub open spec fn content_outcome(body: Seq<u8>, consumed: int) -> ReadSpec {
    if !valid_utf8(body) {
        failed(ReadError::NotUtf8, consumed)
    } else {
        match parsed_json(decode_utf8(body)) {
            Some(content) => ReadSpec::Message { content, consumed },
            None => ReadSpec::Failed {
                error: ReadError::NotJson,
                consumed,
                text: decode_utf8(body),
            },
        }
    }
}

/// What reading one message from `bytes` comes to. `at_end` says that the output ends there.
pub open spec fn read_spec(bytes: Seq<u8>, at_end: bool) -> ReadSpec {
    match line_end(bytes, at_end, 0) {
        None => ReadSpec::Incomplete,
        Some(end) => if end == 0 {
            failed(ReadError::Closed, 0)
        } else if !valid_utf8(bytes.take(end)) {
            failed(ReadError::Header, end)
        } else {
            match header_length(decode_utf8(bytes.take(end))) {
                Err(error) => ReadSpec::Failed {
                    error,
                    consumed: end,
                    text: decode_utf8(bytes.take(end)),
                },
                Ok(length) => match content_start(bytes, at_end, end) {
                    None => ReadSpec::Incomplete,
                    Some(Err((error, end))) => failed(error, end),
                    Some(Ok(start)) => if start + length <= bytes.len() {
                        content_outcome(bytes.subrange(start, start + length), start + length)
                    } else if at_end {
                        failed(ReadError::Truncated, bytes.len() as int)
                    } else {
                        ReadSpec::Incomplete
                    },
                },
            }
        },
    }
}

proof fn lemma_line_end(bytes: Seq<u8>, at_end: bool, from: int)
    requires
        0 <= from <= bytes.len(),
    ensures
        match line_end(bytes, at_end, from) {
            Some(end) => from <= end <= bytes.len() && (from < bytes.len() ==> from < end),
            None => !at_end,
        },
    decreases bytes.len() - from,
{
    if from < bytes.len() && bytes[from] != 10 {
        lemma_line_end(bytes, at_end, from + 1);
    }
}

/// Where the line that begins at `from` ends.
fn find_line_end(bytes: &[u8], at_end: bool, from: usize) -> (end: Option<usize>)
    requires
        from <= bytes.len(),
    ensures
        match end {
            Some(end) => line_end(bytes@, at_end, from as int) == Some(end as int) && from <= end
                <= bytes.len() && (from < bytes.len() ==> from < end),
            None => line_end(bytes@, at_end, from as int) is None,
        },
{
    proof {
        lemma_line_end(bytes@, at_end, from as int);
    }
    let mut i: usize = from;
    while i < bytes.len()
        invariant
            from <= i <= bytes.len(),
            line_end(bytes@, at_end, from as int) == line_end(bytes@, at_end, i as int),
        decreases bytes.len() - i,
    {
        if bytes[i] == 10 {
            return Some(i + 1);
        }
        i += 1;
    }
    if at_end {
        Some(bytes.len())
    } else {
        None
    }
}

/// The position of the first colon from `from` on, or the length of the text where there is none.
fn find_colon(text: &[char], from: usize) -> (position: usize)
    requires
        from <= text.len(),
    ensures
        position == colon_from(text@, from as int),
        from <= position <= text.len(),
{
    let mut i: usize = from;
    while i < text.len() && text[i] != ':'
        invariant
            from <= i <= text.len(),
            colon_from(text@, from as int) == colon_from(text@, i as int),
        decreases text.len() - i,
    {
        i += 1;
    }
    i
}

/// What the first line of a header says of the length of the content.
pub fn content_length(line: &str) -> (length: Result<usize, ReadError>)
    ensures
        match length {
            Ok(length) => header_length(line@) == Ok::<nat, ReadError>(length as nat),
            Err(error) => header_length(line@) == Err::<nat, ReadError>(error),
        },
{
    let chars = chars_of(line);
    let first = find_colon(chars.as_slice(), 0);
    if first == chars.len() {
        return Err(ReadError::NoColon);
    }
    let second = find_colon(chars.as_slice(), first + 1);
    let part = chars_between(chars.as_slice(), first + 1, second);
    let number = trim(part.as_slice());
    match parse_number(number.as_slice()) {
        Some(length) => Ok(length),
        None => Err(ReadError::BadLength),
    }
}

/// Where the content begins, as [`content_start`] says.
fn find_content(bytes: &[u8], at_end: bool, from: usize) -> (start: Option<
    Result<usize, (ReadError, usize)>,
>)
    requires
        from <= bytes.len(),
    ensures
        match start {
            None => content_start(bytes@, at_end, from as int) is None,
            Some(Ok(start)) => content_start(bytes@, at_end, from as int) == Some(
                Ok::<int, (ReadError, int)>(start as int),
            ) && start <= bytes.len(),
            Some(Err((error, end))) => content_start(bytes@, at_end, from as int) == Some(
                Err::<int, (ReadError, int)>((error, end as int)),
            ),
        },
{
    let mut i: usize = from;
    loop
        invariant
            from <= i <= bytes.len(),
            content_start(bytes@, at_end, from as int) == content_start(bytes@, at_end, i as int),
        decreases bytes.len() - i,
    {
        let end = match find_line_end(bytes, at_end, i) {
            None => {
                return None;
            },
            Some(end) => end,
        };
        if i == bytes.len() {
            return Some(Err((ReadError::Closed, bytes.len())));
        }
        let line = bytes_between(bytes, i, end);
        if core::str::from_utf8(line.as_slice()).is_err() {
            return Some(Err((ReadError::Content, end)));
        }
        if line.len() == 2 && line[0] == 13 && line[1] == 10 {
            assert(line@ =~= seq![13u8, 10u8]);
            return Some(Ok(end));
        }
        i = end;
    }
}

fn fail(error: ReadError, consumed: usize) -> (outcome: ReadOutcome)
    ensures
        outcome@ == failed(error, consumed as int),
{
    ReadOutcome::Failed { error, consumed, text: String::new() }
}

/// Whether `bytes` begin with what carries a message.
pub open spec fn begins_with_message(bytes: Seq<u8>, message: JsonSpec) -> bool {
    framed(json_text(message)).is_prefix_of(bytes)
}

/// Whether reading `bytes` comes to the content `text` of the frame that they begin with.
spec fn frame_is_found(bytes: Seq<u8>, at_end: bool, text: Seq<char>) -> bool {
    let consumed = framed(text).len() as int;
    let start = consumed - encode_utf8(text).len();
    &&& line_end(bytes, at_end, 0) matches Some(end) && 0 < end <= bytes.len() && valid_utf8(
        bytes.take(end),
    ) && header_length(decode_utf8(bytes.take(end))) == Ok::<nat, ReadError>(
        encode_utf8(text).len(),
    ) && content_start(bytes, at_end, end) == Some(Ok::<int, (ReadError, int)>(start))
    &&& 0 <= start <= consumed <= bytes.len()
    &&& bytes.subrange(start, consumed) == encode_utf8(text)
    &&& valid_utf8(encode_utf8(text))
    &&& decode_utf8(encode_utf8(text)) == text
}

proof fn lemma_frame_is_found(bytes: Seq<u8>, at_end: bool, text: Seq<char>)
    requires
        framed(text).is_prefix_of(bytes),
        bytes.len() <= usize::MAX,
    ensures
        frame_is_found(bytes, at_end, text),
{
    let rest = bytes.skip(framed(text).len() as int);
    assert(bytes =~= framed(text) + rest);
    lemma_frame_without_lines(text);
    lemma_frame_content(text, Seq::empty(), rest, at_end);
}

/// Reads one message from the output of a server: a line with the length of the content, further
/// lines up to an empty one, and the content. `at_end` says that the output ends behind `bytes`.
/// What [`send_json`] writes is read back, with the members of objects by their names, and just its
/// bytes are consumed, unless the message holds a fraction (which may be rounded) or nests too deep
/// to be read.
pub fn read_response(bytes: &[u8], at_end: bool) -> (outcome: ReadOutcome)
    ensures
        outcome@ == read_spec(bytes@, at_end),
        forall|message: JsonSpec| #[trigger]
            begins_with_message(bytes@, message) && is_plain(message, MAX_DEPTH as nat)
                ==> outcome@ == (ReadSpec::Message {
                content: by_name(message),
                consumed: framed(json_text(message)).len() as int,
            }),
{
    let available: usize = bytes.len();
    proof {
        assert(bytes@.len() == available);
        assert forall|message: JsonSpec| #[trigger]
            begins_with_message(bytes@, message) implies frame_is_found(
            bytes@,
            at_end,
            json_text(message),
        ) by {
            lemma_frame_is_found(bytes@, at_end, json_text(message));
        }
    }
    let end = match find_line_end(bytes, at_end, 0) {
        None => {
            return ReadOutcome::Incomplete;
        },
        Some(end) => end,
    };
    if end == 0 {
        return fail(ReadError::Closed, 0);
    }
    let header = bytes_between(bytes, 0, end);
    assert(header@ =~= bytes@.take(end as int));
    let length = match core::str::from_utf8(header.as_slice()) {
        Err(_) => {
            return fail(ReadError::Header, end);
        },
        Ok(line) => match content_length(line) {
            Err(error) => {
                return ReadOutcome::Failed { error, consumed: end, text: line.to_owned() };
            },
            Ok(length) => length,
        },
    };
    let start = match find_content(bytes, at_end, end) {
        None => {
            return ReadOutcome::Incomplete;
        },
        Some(Err((error, end))) => {
            return fail(error, end);
        },
        Some(Ok(start)) => start,
    };
    if length > available - start {
        if at_end {
            return fail(ReadError::Truncated, available);
        }
        return ReadOutcome::Incomplete;
    }
    let consumed: usize = start + length;
    let body = bytes_between(bytes, start, consumed);
    match core::str::from_utf8(body.as_slice()) {
        Err(_) => fail(ReadError::NotUtf8, consumed),
        Ok(text) => match parse_json(text) {
            Some(content) => ReadOutcome::Message { content, consumed },
            None => ReadOutcome::Failed {
                error: ReadError::NotJson,
                consumed,
                text: text.to_owned(),
            },
        },
    }
}

proof fn lemma_line_end_at(bytes: Seq<u8>, at_end: bool, from: int, feed: int)
    requires
        0 <= from <= feed < bytes.len(),
        bytes[feed] == 10,
        forall|i: int| from <= i < feed ==> bytes[i] != 10,
    ensures
        line_end(bytes, at_end, from) == Some(feed + 1),
    decreases feed - from,
{
    if from < feed {
        lemma_line_end_at(bytes, at_end, from + 1, feed);
    }
}

proof fn lemma_colon_at(text: Seq<char>, from: int, colon: int)
    requires
        0 <= from <= colon <= text.len(),
        colon < text.len() ==> text[colon] == ':',
        forall|i: int| from <= i < colon ==> text[i] != ':',
    ensures
        colon_from(text, from) == colon,
    decreases colon - from,
{
    if from < colon {
        lemma_colon_at(text, from + 1, colon);
    }
}

proof fn lemma_char_least(c: char)
    ensures
        '\0' <= c,
{
}

proof fn lemma_ascii_bytes(text: Seq<char>)
    requires
        forall|i: int| 0 <= i < text.len() ==> #[trigger] text[i] <= '\u{7f}',
    ensures
        encode_utf8(text) == Seq::new(text.len(), |i: int| text[i] as u8),
        valid_utf8(encode_utf8(text)),
        decode_utf8(encode_utf8(text)) == text,
{
    assert forall|i: int| 0 <= i < text.len() implies '\0' <= #[trigger] text[i] <= '\u{7f}' by {
        lemma_char_least(text[i]);
    }
    is_ascii_chars_encode_utf8(text);
    encode_utf8_valid_utf8(text);
    encode_utf8_decode_utf8(text);
}

/// The header of a message with `length` bytes of content, without the empty line.
spec fn header_line(length: nat) -> Seq<char> {
    "Content-Length: "@ + decimal(length) + "\r\n"@
}

proof fn lemma_header_length(length: nat)
    requires
        length <= usize::MAX,
    ensures
        header_length(header_line(length)) == Ok::<nat, ReadError>(length),
{
    reveal_strlit("Content-Length: ");
    reveal_strlit("\r\n");
    let digits = decimal(length);
    law_decimal_is_read_back(length, usize::MAX as nat);
    let line = header_line(length);
    assert forall|i: int| 0 <= i < digits.len() implies line[16 + i] == digits[i] && is_digit(
        #[trigger] digits[i],
    ) by {}
    lemma_colon_at(line, 0, 14);
    assert forall|i: int| 15 <= i < line.len() implies line[i] != ':' by {
        if 16 <= i < 16 + digits.len() {
            assert(is_digit(digits[i - 16]));
        }
    }
    lemma_colon_at(line, 15, line.len() as int);
    let part = line.subrange(15, line.len() as int);
    assert(trimmed(part) == digits) by {
        assert(part[0] == ' ');
        assert(part.skip(1) == digits + "\r\n"@);
        let rest = digits + "\r\n"@;
        assert(rest[0] == digits[0]);
        assert(is_digit(digits[0]));
        assert(trimmed_start(rest) == rest);
        assert(trimmed_start(part) == rest);
        assert(rest.last() == '\n');
        assert(rest.drop_last().last() == '\r');
        assert(rest.drop_last().drop_last() == digits);
        assert(is_digit(digits.last()));
        assert(trimmed_end(digits) == digits);
        assert(trimmed_end(rest.drop_last()) == trimmed_end(digits));
    }
}

proof fn lemma_content_start(bytes: Seq<u8>, at_end: bool, from: int)
    requires
        0 <= from <= bytes.len(),
    ensures
        match content_start(bytes, at_end, from) {
            Some(Ok(start)) => from < start <= bytes.len(),
            Some(Err((error, end))) => from <= end <= bytes.len() && !(error is Truncated),
            None => !at_end,
        },
    decreases bytes.len() - from,
{
    lemma_line_end(bytes, at_end, from);
    if let Some(end) = line_end(bytes, at_end, from) {
        if from < end <= bytes.len() {
            lemma_content_start(bytes, at_end, end);
        }
    }
}

/// Reading never goes beyond the bytes that are there, and goes on by at least one byte unless the
/// output is closed or the message has not arrived as a whole.
pub proof fn law_reading_makes_progress(bytes: Seq<u8>, at_end: bool)
    ensures
        match read_spec(bytes, at_end) {
            ReadSpec::Message { consumed, .. } => 0 < consumed <= bytes.len(),
            ReadSpec::Failed { error, consumed, .. } => 0 <= consumed <= bytes.len() && (consumed == 0
                ==> error is Closed),
            ReadSpec::Incomplete => true,
        },
{
    lemma_line_end(bytes, at_end, 0);
    if let Some(end) = line_end(bytes, at_end, 0) {
        lemma_content_start(bytes, at_end, end);
    }
}

/// When the output has come to its end, reading always comes to a result. Where nothing is left, or
/// where the output ends inside of the header or of the content, the result says that the output
/// has ended.
pub proof fn law_reading_ends_with_the_output(bytes: Seq<u8>)
    ensures
        !(read_spec(bytes, true) is Incomplete),
        read_spec(Seq::empty(), true) == failed(ReadError::Closed, 0),
        ReadError::Closed.spec_is_unexpected_eof(),
        ({
            let end = line_end(bytes, true, 0)->0;
            bytes.len() > 0 && valid_utf8(bytes.take(end)) && header_length(
                decode_utf8(bytes.take(end)),
            ) is Ok ==> match content_start(bytes, true, end)->0 {
                Ok(start) => start + header_length(decode_utf8(bytes.take(end)))->Ok_0
                    > bytes.len() ==> read_spec(bytes, true) == failed(
                    ReadError::Truncated,
                    bytes.len() as int,
                ) && ReadError::Truncated.spec_is_unexpected_eof(),
                Err((error, at)) => read_spec(bytes, true) == failed(error, at),
            }
        }),
{
    lemma_line_end(bytes, true, 0);
    lemma_content_start(bytes, true, line_end(bytes, true, 0)->0);
}

/// Whether `line` is a line that may stand in a header behind the first: it ends where its line
/// feed is, it is not empty, and it is UTF-8.
pub open spec fn is_header_line(line: Seq<u8>) -> bool {
    &&& line.len() > 0
    &&& line.last() == 10
    &&& forall|i: int| 0 <= i < line.len() - 1 ==> line[i] != 10
    &&& valid_utf8(line)
    &&& line != seq![13u8, 10u8]
}

/// Some lines, one after the other.
pub open spec fn lines_together(lines: Seq<Seq<u8>>) -> Seq<u8>
    decreases lines.len(),
{
    if lines.len() == 0 {
        Seq::empty()
    } else {
        lines[0] + lines_together(lines.skip(1))
    }
}

/// The bytes that carry the JSON text `text`, with `lines` in the header behind the length.
pub open spec fn framed_with(text: Seq<char>, lines: Seq<Seq<u8>>) -> Seq<u8> {
    encode_utf8("Content-Length: "@ + decimal(encode_utf8(text).len()) + "\r\n"@)
        + lines_together(lines) + seq![13u8, 10u8] + encode_utf8(text)
}

proof fn lemma_blank_line()
    ensures
        encode_utf8("\r\n"@) == seq![13u8, 10u8],
        valid_utf8(seq![13u8, 10u8]),
{
    reveal_strlit("\r\n");
    lemma_ascii_bytes("\r\n"@);
    assert(encode_utf8("\r\n"@) =~= seq![13u8, 10u8]);
}

/// The content begins behind the lines of the header and the empty line.
proof fn lemma_content_follows(
    front: Seq<u8>,
    lines: Seq<Seq<u8>>,
    rest: Seq<u8>,
    at_end: bool,
)
    requires
        forall|i: int| 0 <= i < lines.len() ==> is_header_line(#[trigger] lines[i]),
    ensures
        content_start(
            front + lines_together(lines) + seq![13u8, 10u8] + rest,
            at_end,
            front.len() as int,
        ) == Some(
            Ok::<int, (ReadError, int)>(front.len() as int + lines_together(lines).len() + 2),
        ),
    decreases lines.len(),
{
    let blank = seq![13u8, 10u8];
    let bytes = front + lines_together(lines) + blank + rest;
    let from = front.len() as int;
    lemma_blank_line();
    if lines.len() == 0 {
        assert(bytes[from] == 13);
        assert(bytes[from + 1] == 10);
        lemma_line_end_at(bytes, at_end, from, from + 1);
        assert(bytes.subrange(from, from + 2) =~= blank);
    } else {
        let line = lines[0];
        let end = from + line.len();
        assert(is_header_line(line));
        assert forall|i: int| from <= i < end implies #[trigger] bytes[i] == line[i - from] by {}
        assert(bytes[end - 1] == line.last());
        lemma_line_end_at(bytes, at_end, from, end - 1);
        assert(bytes.subrange(from, end) =~= line);
        assert forall|i: int| 0 <= i < lines.skip(1).len() implies is_header_line(
            #[trigger] lines.skip(1)[i],
        ) by {
            assert(lines.skip(1)[i] == lines[i + 1]);
        }
        lemma_content_follows(front + line, lines.skip(1), rest, at_end);
        assert(front + line + lines_together(lines.skip(1)) =~= front + lines_together(lines));
    }
}

/// A frame is read as its content, whatever further lines its header has and whatever follows it.
proof fn lemma_frame_content(text: Seq<char>, lines: Seq<Seq<u8>>, rest: Seq<u8>, at_end: bool)
    requires
        encode_utf8(text).len() <= usize::MAX,
        forall|i: int| 0 <= i < lines.len() ==> is_header_line(#[trigger] lines[i]),
    ensures
        ({
            let bytes = framed_with(text, lines) + rest;
            let end = line_end(bytes, at_end, 0);
            let consumed = framed_with(text, lines).len() as int;
            let start = consumed - encode_utf8(text).len();
            &&& end matches Some(end) && 0 < end <= bytes.len() && valid_utf8(bytes.take(end))
                && header_length(decode_utf8(bytes.take(end))) == Ok::<nat, ReadError>(
                encode_utf8(text).len(),
            ) && content_start(bytes, at_end, end) == Some(
                Ok::<int, (ReadError, int)>(start),
            )
            &&& bytes.subrange(start, consumed) == encode_utf8(text)
            &&& valid_utf8(encode_utf8(text))
            &&& decode_utf8(encode_utf8(text)) == text
            &&& read_spec(bytes, at_end) == content_outcome(encode_utf8(text), consumed)
        }),
{
    reveal_strlit("Content-Length: ");
    reveal_strlit("\r\n");
    let body = encode_utf8(text);
    let length = body.len();
    let digits = decimal(length);
    law_decimal_is_read_back(length, usize::MAX as nat);
    lemma_header_length(length);
    let line = header_line(length);
    let bytes = framed_with(text, lines) + rest;
    let end = line.len() as int;
    assert forall|i: int| 0 <= i < line.len() implies #[trigger] line[i] <= '\u{7f}' && (line[i]
        == '\n' <==> i == end - 1) by {
        if 16 <= i < 16 + digits.len() {
            assert(line[i] == digits[i - 16]);
            assert(is_digit(digits[i - 16]));
        }
    }
    lemma_ascii_bytes(line);
    let front = encode_utf8(line);
    assert forall|i: int| 0 <= i < end implies #[trigger] bytes[i] == line[i] as u8 by {
        assert(bytes[i] == front[i]);
    }
    assert(bytes[end - 1] == 10) by {
        assert(line[end - 1] == '\n');
    }
    assert forall|i: int| 0 <= i < end - 1 implies bytes[i] != 10 by {
        assert(line[i] != '\n');
        assert(line[i] as u8 != 10) by {
            assert(line[i] <= '\u{7f}');
        }
    }
    lemma_line_end_at(bytes, at_end, 0, end - 1);
    assert(bytes.take(end) =~= front);
    lemma_content_follows(front, lines, body + rest, at_end);
    assert(bytes =~= front + lines_together(lines) + seq![13u8, 10u8] + (body + rest));
    let start = front.len() as int + lines_together(lines).len() + 2;
    assert(bytes.subrange(start, start + length) =~= body);
    encode_utf8_valid_utf8(text);
    encode_utf8_decode_utf8(text);
}

/// A message is read back whatever further lines its header has: from bytes that begin with such a
/// message, the value of its text is read, and just its bytes are consumed, whatever follows them.
pub proof fn law_further_header_lines_are_passed_over(
    text: Seq<char>,
    content: JsonSpec,
    lines: Seq<Seq<u8>>,
    rest: Seq<u8>,
    at_end: bool,
)
    requires
        parsed_json(text) == Some(content),
        encode_utf8(text).len() <= usize::MAX,
        forall|i: int| 0 <= i < lines.len() ==> is_header_line(#[trigger] lines[i]),
    ensures
        read_spec(framed_with(text, lines) + rest, at_end) == (ReadSpec::Message {
            content,
            consumed: framed_with(text, lines).len() as int,
        }),
{
    lemma_frame_content(text, lines, rest, at_end);
}

/// What is framed is read back: from bytes that begin with the frame of a JSON text, that text's
/// value is read, and just the bytes of the frame are consumed, whatever follows them.
pub proof fn law_frame_is_read_back(
    text: Seq<char>,
    content: JsonSpec,
    rest: Seq<u8>,
    at_end: bool,
)
    requires
        parsed_json(text) == Some(content),
        encode_utf8(text).len() <= usize::MAX,
    ensures
        read_spec(framed(text) + rest, at_end) == (ReadSpec::Message {
            content,
            consumed: framed(text).len() as int,
        }),
{
    let lines = Seq::<Seq<u8>>::empty();
    law_further_header_lines_are_passed_over(text, content, lines, rest, at_end);
    lemma_frame_without_lines(text);
}

proof fn lemma_frame_without_lines(text: Seq<char>)
    requires
        encode_utf8(text).len() <= usize::MAX,
    ensures
        framed(text) == framed_with(text, Seq::empty()),
{
    reveal_strlit("Content-Length: ");
    reveal_strlit("\r\n");
    reveal_strlit("\r\n\r\n");
    let digits = decimal(encode_utf8(text).len());
    law_decimal_is_read_back(encode_utf8(text).len(), usize::MAX as nat);
    let line = header_line(encode_utf8(text).len());
    let header = "Content-Length: "@ + digits + "\r\n\r\n"@;
    assert forall|i: int| 0 <= i < header.len() implies #[trigger] header[i] <= '\u{7f}' by {
        if 16 <= i < 16 + digits.len() {
            assert(header[i] == digits[i - 16]);
            assert(is_digit(digits[i - 16]));
        }
    }
    assert(header.take(line.len() as int) =~= line);
    assert forall|i: int| 0 <= i < line.len() implies #[trigger] line[i] <= '\u{7f}' by {
        assert(line[i] == header[i]);
    }
    lemma_ascii_bytes(header);
    lemma_ascii_bytes(line);
    assert(encode_utf8(header) =~= encode_utf8(line) + seq![13u8, 10u8]) by {
        assert(header[line.len() as int] == '\r');
        assert(header[line.len() as int + 1] == '\n');
        assert forall|i: int| 0 <= i < line.len() implies line[i] == header[i] by {}
    }
    assert(framed(text) =~= framed_with(text, Seq::empty()));
}

/// The first `n` messages that are read from `bytes`, and the bytes behind them. `None` where
/// reading one of them comes to something else than a message.
pub open spec fn read_messages(bytes: Seq<u8>, at_end: bool, n: nat) -> Option<
    (Seq<JsonSpec>, Seq<u8>),
>
    decreases n,
{
    if n == 0 {
        Some((Seq::empty(), bytes))
    } else {
        match read_spec(bytes, at_end) {
            ReadSpec::Message { content, consumed } => match read_messages(
                bytes.skip(consumed),
                at_end,
                (n - 1) as nat,
            ) {
                Some((more, rest)) => Some((seq![content] + more, rest)),
                None => None,
            },
            _ => None,
        }
    }
}

/// The bytes that carry some JSON texts, one after the other.
pub open spec fn framed_all(list: Seq<Seq<char>>) -> Seq<u8>
    decreases list.len(),
{
    if list.len() == 0 {
        Seq::empty()
    } else {
        framed(list[0]) + framed_all(list.skip(1))
    }
}

/// Messages that are written one after the other are read back in the same order, each as it was
/// written, and what follows them is left as it is.
pub proof fn law_messages_are_read_back_in_order(
    list: Seq<Seq<char>>,
    contents: Seq<JsonSpec>,
    rest: Seq<u8>,
    at_end: bool,
)
    requires
        list.len() == contents.len(),
        forall|i: int|
            0 <= i < list.len() ==> parsed_json(#[trigger] list[i]) == Some(contents[i])
                && encode_utf8(list[i]).len() <= usize::MAX,
    ensures
        read_messages(framed_all(list) + rest, at_end, list.len()) == Some((contents, rest)),
    decreases list.len(),
{
    if list.len() == 0 {
        assert(framed_all(list) + rest =~= rest);
        assert(contents =~= Seq::empty());
    } else {
        let behind = framed_all(list.skip(1)) + rest;
        let frame = framed(list[0]);
        law_frame_is_read_back(list[0], contents[0], behind, at_end);
        assert(framed_all(list) + rest =~= frame + behind);
        assert((frame + behind).skip(frame.len() as int) =~= behind);
        assert forall|i: int| 0 <= i < list.skip(1).len() implies parsed_json(
            #[trigger] list.skip(1)[i],
        ) == Some(contents.skip(1)[i]) && encode_utf8(list.skip(1)[i]).len() <= usize::MAX by {
            assert(list.skip(1)[i] == list[i + 1]);
        }
        law_messages_are_read_back_in_order(list.skip(1), contents.skip(1), rest, at_end);
        assert(seq![contents[0]] + contents.skip(1) =~= contents);
    }
}

/// The bytes that carry a message. See [`read_response`] for what is read from them.
pub fn send_json(message: &Json) -> (bytes: Vec<u8>)
    ensures
        bytes@ == framed(json_text(message@)),
{
    let text = print_json(message);
    frame(text.as_str())
}

/// The length of the content stands behind the first colon of the first line, with any white space
/// around it, whatever stands before the colon.
pub proof fn law_the_length_stands_behind_the_colon(
    name: Seq<char>,
    before: Seq<char>,
    behind: Seq<char>,
    length: nat,
)
    requires
        !name.contains(':'),
        length <= usize::MAX,
        forall|i: int| 0 <= i < before.len() ==> is_white_space(#[trigger] before[i]),
        forall|i: int| 0 <= i < behind.len() ==> is_white_space(#[trigger] behind[i]),
    ensures
        header_length(name + seq![':'] + before + decimal(length) + behind) == Ok::<
            nat,
            ReadError,
        >(length),
        header_length(name) == Err::<nat, ReadError>(ReadError::NoColon),
{
    let digits = decimal(length);
    law_decimal_is_read_back(length, usize::MAX as nat);
    let line = name + seq![':'] + before + digits + behind;
    let colon = name.len() as int;
    assert forall|i: int| 0 <= i < colon implies line[i] != ':' by {
        assert(line[i] == name[i]);
        assert(name.contains(name[i]));
    }
    assert(line[colon] == ':');
    lemma_colon_at(line, 0, colon);
    assert forall|i: int| colon < i < line.len() implies line[i] != ':' by {
        let k = i - colon - 1;
        if k < before.len() {
            assert(line[i] == before[k]);
        } else if k < before.len() + digits.len() {
            assert(line[i] == digits[k - before.len()]);
            assert(is_digit(digits[k - before.len()]));
        } else {
            assert(line[i] == behind[k - before.len() - digits.len()]);
        }
    }
    lemma_colon_at(line, colon + 1, line.len() as int);
    let part = line.subrange(colon + 1, line.len() as int);
    assert(part =~= before + (digits + behind));
    lemma_white_before(before, digits + behind);
    assert((digits + behind)[0] == digits[0]);
    assert(is_digit(digits[0]));
    assert(trimmed_start(digits + behind) == digits + behind);
    lemma_white_behind(digits, behind);
    assert(is_digit(digits.last()));
    assert(trimmed_end(digits) == digits);
    assert forall|i: int| 0 <= i < name.len() implies name[i] != ':' by {
        assert(name.contains(name[i]));
    }
    lemma_colon_at(name, 0, name.len() as int);
}

proof fn lemma_white_before(white: Seq<char>, text: Seq<char>)
    requires
        forall|i: int| 0 <= i < white.len() ==> is_white_space(#[trigger] white[i]),
    ensures
        trimmed_start(white + text) == trimmed_start(text),
    decreases white.len(),
{
    if white.len() == 0 {
        assert(white + text =~= text);
    } else {
        let rest = white.skip(1);
        assert(is_white_space(white[0]));
        assert forall|i: int| 0 <= i < rest.len() implies is_white_space(#[trigger] rest[i]) by {
            assert(rest[i] == white[i + 1]);
        }
        lemma_white_before(rest, text);
        assert((white + text).skip(1) =~= rest + text);
    }
}

proof fn lemma_white_behind(text: Seq<char>, white: Seq<char>)
    requires
        forall|i: int| 0 <= i < white.len() ==> is_white_space(#[trigger] white[i]),
    ensures
        trimmed_end(text + white) == trimmed_end(text),
    decreases white.len(),
{
    if white.len() == 0 {
        assert(text + white =~= text);
    } else {
        let rest = white.drop_last();
        assert(is_white_space(white[white.len() - 1]));
        assert forall|i: int| 0 <= i < rest.len() implies is_white_space(#[trigger] rest[i]) by {
            assert(rest[i] == white[i]);
        }
        lemma_white_behind(text, rest);
        assert((text + white).drop_last() =~= text + rest);
    }
}

/// A message of which not all has arrived is waited for: as long as the line that ends its header,
/// or a part of its content, is missing, and the output has not ended, nothing is read.
pub proof fn law_parts_of_messages_are_waited_for(text: Seq<char>, n: int)
    requires
        encode_utf8(text).len() <= usize::MAX,
        framed(text).len() - encode_utf8(text).len() <= n < framed(text).len(),
    ensures
        read_spec(framed(text).take(n), false) is Incomplete,
{
    let body = encode_utf8(text);
    let whole = framed(text);
    let part = whole.take(n);
    let empty = Seq::<Seq<u8>>::empty();
    lemma_frame_without_lines(text);
    lemma_header_length(body.len());
    let line = header_line(body.len());
    reveal_strlit("Content-Length: ");
    reveal_strlit("\r\n");
    law_decimal_is_read_back(body.len(), usize::MAX as nat);
    let digits = decimal(body.len());
    let end = line.len() as int;
    assert forall|i: int| 0 <= i < line.len() implies #[trigger] line[i] <= '\u{7f}' && (line[i]
        == '\n' <==> i == end - 1) by {
        if 16 <= i < 16 + digits.len() {
            assert(line[i] == digits[i - 16]);
            assert(is_digit(digits[i - 16]));
        }
    }
    lemma_ascii_bytes(line);
    let front = encode_utf8(line);
    assert(lines_together(empty) =~= Seq::<u8>::empty());
    let start = front.len() as int + 2;
    assert(whole =~= front + lines_together(empty) + seq![13u8, 10u8] + body);
    let rest = body.take(n - start);
    assert(part =~= front + lines_together(empty) + seq![13u8, 10u8] + rest);
    lemma_content_follows(front, empty, rest, false);
    assert forall|i: int| 0 <= i < end implies #[trigger] part[i] == line[i] as u8 by {
        assert(part[i] == front[i]);
    }
    assert(part[end - 1] == 10) by {
        assert(line[end - 1] == '\n');
    }
    assert forall|i: int| 0 <= i < end - 1 implies part[i] != 10 by {
        assert(line[i] != '\n');
        assert(line[i] as u8 != 10) by {
            assert(line[i] <= '\u{7f}');
        }
    }
    lemma_line_end_at(part, false, 0, end - 1);
    assert(part.take(end) =~= front);
}

/// What follows a second colon of the first line does not count, and the length is wrong where
/// nothing stands between the two.
pub proof fn law_what_follows_a_second_colon_does_not_count(
    name: Seq<char>,
    value: Seq<char>,
    rest: Seq<char>,
)
    requires
        !name.contains(':'),
        !value.contains(':'),
    ensures
        header_length(name + seq![':'] + value + seq![':'] + rest) == header_length(
            name + seq![':'] + value,
        ),
        header_length(name + seq![':'] + seq![':'] + rest) == Err::<nat, ReadError>(
            ReadError::BadLength,
        ),
{
    let short = name + seq![':'] + value;
    let long = name + seq![':'] + value + seq![':'] + rest;
    let double = name + seq![':'] + seq![':'] + rest;
    let colon = name.len() as int;
    let end = short.len() as int;
    assert forall|i: int| 0 <= i < colon implies short[i] != ':' && long[i] != ':' && double[i]
        != ':' by {
        assert(name.contains(name[i]));
    }
    assert forall|i: int| colon < i < end implies short[i] != ':' && long[i] != ':' by {
        assert(value.contains(value[i - colon - 1]));
    }
    lemma_colon_at(short, 0, colon);
    lemma_colon_at(long, 0, colon);
    lemma_colon_at(double, 0, colon);
    lemma_colon_at(short, colon + 1, end);
    lemma_colon_at(long, colon + 1, end);
    lemma_colon_at(double, colon + 1, colon + 1);
    assert(short.subrange(colon + 1, end) =~= value);
    assert(long.subrange(colon + 1, end) =~= value);
    assert(double.subrange(colon + 1, colon + 1) =~= Seq::<char>::empty());
}

} // verus!
