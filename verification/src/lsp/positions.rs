//! Where a document ends, in the units of a server.

use crate::lsp::capabilities::PositionEncoding;
use crate::lsp::protocol::Position;
use crate::text::chars_of;
use vstd::prelude::*;
use vstd::utf8::encode_utf8;

verus! {

/// Whether `c` can end a line.
pub open spec fn ends_line(c: char) -> bool {
    c == '\n' || c == '\r'
}

/// The number of line endings in a text: `\n`, `\r`, or both in the order `\r\n`, which are one.
pub open spec fn line_endings(text: Seq<char>) -> nat
    decreases text.len(),
{
    if text.len() == 0 {
        0
    } else {
        let before = text.drop_last();
        if text.last() == '\n' && before.len() > 0 && before.last() == '\r' {
            line_endings(before)
        } else if ends_line(text.last()) {
            line_endings(before) + 1
        } else {
            line_endings(before)
        }
    }
}

/// What stands behind the last line ending of a text.
pub open spec fn last_line(text: Seq<char>) -> Seq<char>
    decreases text.len(),
{
    if text.len() == 0 || ends_line(text.last()) {
        Seq::empty()
    } else {
        last_line(text.drop_last()).push(text.last())
    }
}

/// The number of units that a character takes. Characters are counted in UTF-32 units, and in UTF-8
/// and UTF-16 units by the length of their encoding.
pub open spec fn char_units(c: char, encoding: PositionEncoding) -> nat {
    match encoding {
        PositionEncoding::Utf8 => if c as u32 <= 0x7f {
            1
        } else if c as u32 <= 0x7ff {
            2
        } else if c as u32 <= 0xffff {
            3
        } else {
            4
        },
        PositionEncoding::Utf16 => if c as u32 <= 0xffff {
            1
        } else {
            2
        },
        _ => 1,
    }
}

/// The number of units that a text takes.
pub open spec fn text_units(text: Seq<char>, encoding: PositionEncoding) -> nat
    decreases text.len(),
{
    if text.len() == 0 {
        0
    } else {
        text_units(text.drop_last(), encoding) + char_units(text.last(), encoding)
    }
}

/// What keeps the end of a document from being told.
#[derive(Clone, Copy, Debug, PartialEq, Eq, Structural)]
pub enum PositionError {
    /// The units are none that are known.
    UnknownEncoding,
    /// A number is too large for the protocol.
    TooLarge,
}

/// Where a document ends: the number of its last line, and the length of that line.
pub open spec fn end_position(text: Seq<char>, encoding: PositionEncoding) -> Result<
    Position,
    PositionError,
> {
    let line = line_endings(text);
    let character = text_units(last_line(text), encoding);
    if encoding is Other {
        Err(PositionError::UnknownEncoding)
    } else if line > u32::MAX || character > u32::MAX {
        Err(PositionError::TooLarge)
    } else {
        Ok(Position { line: line as u32, character: character as u32 })
    }
}

fn units_of(c: char, encoding: PositionEncoding) -> (units: u128)
    ensures
        units == char_units(c, encoding),
{
    let code = c as u32;
    match encoding {
        PositionEncoding::Utf8 => if code <= 0x7f {
            1
        } else if code <= 0x7ff {
            2
        } else if code <= 0xffff {
            3
        } else {
            4
        },
        PositionEncoding::Utf16 => if code <= 0xffff {
            1
        } else {
            2
        },
        _ => 1,
    }
}

/// Where a document ends. See [`end_position`].
pub fn document_end_position(text: &str, encoding: PositionEncoding) -> (position: Result<
    Position,
    PositionError,
>)
    ensures
        position == end_position(text@, encoding),
{
    if encoding == PositionEncoding::Other {
        return Err(PositionError::UnknownEncoding);
    }
    let chars = chars_of(text);
    let mut line: u128 = 0;
    let mut character: u128 = 0;
    let mut i: usize = 0;
    while i < chars.len()
        invariant
            i <= chars.len(),
            chars@ == text@,
            line == line_endings(chars@.take(i as int)),
            line <= i,
            character == text_units(last_line(chars@.take(i as int)), encoding),
            character <= 4 * i,
        decreases chars.len() - i,
    {
        let ghost before = chars@.take(i as int);
        let ghost after = chars@.take(i + 1);
        assert(after.drop_last() == before);
        assert(after.last() == chars@[i as int]);
        let c = chars[i];
        if c == '\n' || c == '\r' {
            if !(c == '\n' && i > 0 && chars[i - 1] == '\r') {
                line += 1;
            }
            character = 0;
        } else {
            assert(last_line(after).drop_last() == last_line(before));
            character += units_of(c, encoding);
        }
        i += 1;
    }
    assert(chars@.take(chars@.len() as int) == chars@);
    if line > u32::MAX as u128 || character > u32::MAX as u128 {
        return Err(PositionError::TooLarge);
    }
    Ok(Position { line: line as u32, character: character as u32 })
}

proof fn lemma_last_line_plain(text: Seq<char>)
    ensures
        forall|i: int| 0 <= i < last_line(text).len() ==> !ends_line(#[trigger] last_line(text)[i]),
    decreases text.len(),
{
    if text.len() > 0 && !ends_line(text.last()) {
        let before = last_line(text.drop_last());
        lemma_last_line_plain(text.drop_last());
        assert forall|i: int| 0 <= i < last_line(text).len() implies !ends_line(
            #[trigger] last_line(text)[i],
        ) by {
            if i < before.len() {
                assert(last_line(text)[i] == before[i]);
            }
        }
    }
}

proof fn lemma_line_endings_plain(text: Seq<char>)
    requires
        forall|i: int| 0 <= i < text.len() ==> !ends_line(#[trigger] text[i]),
    ensures
        line_endings(text) == 0,
        last_line(text) == text,
    decreases text.len(),
{
    if text.len() > 0 {
        assert(!ends_line(text[text.len() - 1]));
        let before = text.drop_last();
        assert forall|i: int| 0 <= i < before.len() implies !ends_line(#[trigger] before[i]) by {
            assert(before[i] == text[i]);
        }
        lemma_line_endings_plain(before);
        assert(last_line(text) =~= text);
    }
}

/// Where a document ends depends on its last line alone, but for the number of that line: the last
/// line, taken as a document of its own, ends at the same character of its first line.
pub proof fn law_end_lies_in_the_last_line(text: Seq<char>, encoding: PositionEncoding)
    ensures
        line_endings(last_line(text)) == 0,
        last_line(last_line(text)) == last_line(text),
        end_position(text, encoding) is Ok ==> end_position(last_line(text), encoding) == Ok::<
            Position,
            PositionError,
        >(Position { line: 0, character: end_position(text, encoding)->Ok_0.character }),
{
    lemma_last_line_plain(text);
    lemma_line_endings_plain(last_line(text));
}

proof fn lemma_units_add_up(before: Seq<char>, behind: Seq<char>, encoding: PositionEncoding)
    ensures
        text_units(before + behind, encoding) == text_units(before, encoding) + text_units(
            behind,
            encoding,
        ),
    decreases behind.len(),
{
    if behind.len() == 0 {
        assert(before + behind =~= before);
    } else {
        assert((before + behind).drop_last() =~= before + behind.drop_last());
        lemma_units_add_up(before, behind.drop_last(), encoding);
    }
}

/// The units of a text are those of its parts together. Each character takes one unit in UTF-32,
/// and each of ASCII in every encoding. In UTF-16 a character takes two units if it does not fit
/// into 16 bits, and else one. In UTF-8 a text takes as many units as it has bytes.
pub proof fn law_units_are_those_of_the_encoding(
    before: Seq<char>,
    behind: Seq<char>,
    c: char,
    encoding: PositionEncoding,
)
    ensures
        text_units(before + behind, encoding) == text_units(before, encoding) + text_units(
            behind,
            encoding,
        ),
        c as u32 <= 0x7f ==> text_units(seq![c], encoding) == 1,
        text_units(seq![c], PositionEncoding::Utf32) == 1,
        text_units(seq![c], PositionEncoding::Utf16) == (if c as u32 > 0xffff {
            2nat
        } else {
            1
        }),
        text_units(Seq::empty(), encoding) == 0,
        text_units(seq![c], PositionEncoding::Utf8) == encode_utf8(seq![c]).len(),
{
    lemma_units_add_up(before, behind, encoding);
    let one = seq![c];
    assert(one.drop_last() =~= Seq::<char>::empty());
    assert(text_units(one.drop_last(), encoding) == 0);
    assert(text_units(one.drop_last(), PositionEncoding::Utf32) == 0);
    assert(text_units(one.drop_last(), PositionEncoding::Utf16) == 0);
    assert(text_units(one.drop_last(), PositionEncoding::Utf8) == 0);
    reveal_with_fuel(encode_utf8, 3);
    assert(one.drop_first() =~= Seq::<char>::empty());
    assert(encode_utf8(one.drop_first()) =~= Seq::<u8>::empty());
}

proof fn lemma_plain_line_behind(before: Seq<char>, line: Seq<char>)
    requires
        before.len() == 0 || ends_line(before.last()),
        forall|i: int| 0 <= i < line.len() ==> !ends_line(#[trigger] line[i]),
    ensures
        line_endings(before + line) == line_endings(before),
        last_line(before + line) == line,
    decreases line.len(),
{
    let whole = before + line;
    if line.len() == 0 {
        assert(whole =~= before);
        assert(last_line(whole) =~= line);
    } else {
        let shorter = line.drop_last();
        assert(!ends_line(line[line.len() - 1]));
        assert forall|i: int| 0 <= i < shorter.len() implies !ends_line(#[trigger] shorter[i]) by {
            assert(shorter[i] == line[i]);
        }
        lemma_plain_line_behind(before, shorter);
        assert(whole.drop_last() =~= before + shorter);
        assert(whole.last() == line.last());
        assert(last_line(whole) =~= line);
    }
}

/// A line ending begins a new line: a document ends in its last line, behind all of it, and that
/// line has the number of the line endings before it. `\r\n` is one line ending, and so are `\n`
/// and `\r` alone.
pub proof fn law_documents_end_behind_their_last_line(
    before: Seq<char>,
    line: Seq<char>,
    encoding: PositionEncoding,
)
    requires
        forall|i: int| 0 <= i < line.len() ==> !ends_line(#[trigger] line[i]),
        !(encoding is Other),
        text_units(line, encoding) <= u32::MAX,
        line_endings(before) < u32::MAX,
    ensures
        end_position(line, encoding) == Ok::<Position, PositionError>(
            Position { line: 0, character: text_units(line, encoding) as u32 },
        ),
        end_position(before + seq!['\r', '\n'] + line, encoding) == Ok::<Position, PositionError>(
            Position {
                line: (line_endings(before) + 1) as u32,
                character: text_units(line, encoding) as u32,
            },
        ),
        end_position(before + seq!['\r'] + line, encoding) == Ok::<Position, PositionError>(
            Position {
                line: (line_endings(before) + 1) as u32,
                character: text_units(line, encoding) as u32,
            },
        ),
        before.len() == 0 || before.last() != '\r' ==> end_position(
            before + seq!['\n'] + line,
            encoding,
        ) == Ok::<Position, PositionError>(
            Position {
                line: (line_endings(before) + 1) as u32,
                character: text_units(line, encoding) as u32,
            },
        ),
        line_endings(Seq::empty()) == 0,
        line_endings(line) == 0,
{
    lemma_line_endings_plain(line);
    let cr = before + seq!['\r'];
    let crlf = before + seq!['\r', '\n'];
    let lf = before + seq!['\n'];
    assert(cr.drop_last() =~= before);
    assert(crlf.drop_last() =~= cr);
    assert(lf.drop_last() =~= before);
    lemma_plain_line_behind(cr, line);
    lemma_plain_line_behind(crlf, line);
    lemma_plain_line_behind(lf, line);
}

/// Lines are counted: a text has no line ending more than its parts together, and a plain character
/// more or less changes nothing.
pub proof fn law_plain_characters_end_no_line(before: Seq<char>, c: char)
    requires
        c != '\n',
        c != '\r',
    ensures
        line_endings(before.push(c)) == line_endings(before),
        last_line(before.push(c)) == last_line(before).push(c),
{
    assert(before.push(c).drop_last() =~= before);
}

} // verus!
