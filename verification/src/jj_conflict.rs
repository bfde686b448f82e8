//! The lines of a conflict that the version control system jj has written into a file.

use crate::text::{chars_of, law_pieces_are_joined_back, pieces, split, texts};
use vstd::prelude::*;

verus! {

/// What a line of a conflict is.
#[derive(Clone, Copy, Debug, PartialEq, Eq, Structural)]
pub enum JjConflictLineKind {
    Marker,
    Diff,
    DiffRemoved,
    DiffAdded,
    Snapshot,
}

/// How a line is shown.
#[derive(Clone, Copy, Debug, PartialEq, Eq, Structural)]
pub enum StyleKey {
    JjConflictMarker,
    JjConflictDiff,
    HunkOld,
    HunkNew,
    JjConflictSnapshot,
}

impl JjConflictLineKind {
    /// How a line of this kind is shown.
    pub fn style_key(self) -> (style: StyleKey)
        ensures
            style == (match self {
                JjConflictLineKind::Marker => StyleKey::JjConflictMarker,
                JjConflictLineKind::Diff => StyleKey::JjConflictDiff,
                JjConflictLineKind::DiffRemoved => StyleKey::HunkOld,
                JjConflictLineKind::DiffAdded => StyleKey::HunkNew,
                JjConflictLineKind::Snapshot => StyleKey::JjConflictSnapshot,
            }),
    {
        match self {
            JjConflictLineKind::Marker => StyleKey::JjConflictMarker,
            JjConflictLineKind::Diff => StyleKey::JjConflictDiff,
            JjConflictLineKind::DiffRemoved => StyleKey::HunkOld,
            JjConflictLineKind::DiffAdded => StyleKey::HunkNew,
            JjConflictLineKind::Snapshot => StyleKey::JjConflictSnapshot,
        }
    }
}

/// A line of a conflict.
#[derive(Clone, Copy, Debug, PartialEq, Eq, Structural)]
pub struct JjConflictLine {
    pub line_index: usize,
    pub kind: JjConflictLineKind,
}

/// Where in a file a line stands.
#[derive(Clone, Copy, Debug, PartialEq, Eq, Structural)]
pub enum Section {
    /// In no conflict.
    Outside,
    /// In a conflict, before its first part.
    Head,
    /// In a part that tells changes.
    Diff,
    /// In a part that holds a text as it is.
    Snapshot,
}

/// A line without its line ending.
pub open spec fn bare_line(line: Seq<char>) -> Seq<char>
    decreases line.len(),
{
    if line.len() > 0 && (line.last() == '\r' || line.last() == '\n') {
        bare_line(line.drop_last())
    } else {
        line
    }
}

/// Whether a line begins with at least seven times the character `marker`.
pub open spec fn is_marker_line(line: Seq<char>, marker: char) -> bool {
    line.len() >= 7 && forall|i: int| 0 <= i < 7 ==> #[trigger] line[i] == marker
}

/// What a line is, if it belongs to a conflict, and where the line behind it stands.
pub open spec fn line_step(section: Section, line: Seq<char>) -> (
    Section,
    Option<JjConflictLineKind>,
) {
    if is_marker_line(line, '<') {
        (Section::Head, Some(JjConflictLineKind::Marker))
    } else if section is Outside {
        (Section::Outside, None)
    } else if is_marker_line(line, '>') {
        (Section::Outside, Some(JjConflictLineKind::Marker))
    } else if is_marker_line(line, '%') || is_marker_line(line, '\\') {
        (Section::Diff, Some(JjConflictLineKind::Marker))
    } else if is_marker_line(line, '+') || is_marker_line(line, '-') {
        (Section::Snapshot, Some(JjConflictLineKind::Marker))
    } else if section is Head {
        (Section::Head, Some(JjConflictLineKind::Marker))
    } else if section is Snapshot {
        (Section::Snapshot, Some(JjConflictLineKind::Snapshot))
    } else if line.len() > 0 && line[0] == '+' {
        (Section::Diff, Some(JjConflictLineKind::DiffAdded))
    } else if line.len() > 0 && line[0] == '-' {
        (Section::Diff, Some(JjConflictLineKind::DiffRemoved))
    } else {
        (Section::Diff, Some(JjConflictLineKind::Diff))
    }
}

/// Where the line behind the first `n` lines stands.
pub open spec fn section_after(lines: Seq<Seq<char>>, n: nat) -> Section
    decreases n,
{
    if n == 0 {
        Section::Outside
    } else {
        line_step(
            section_after(lines, (n - 1) as nat),
            bare_line(lines[n - 1]),
        ).0
    }
}

/// What the line number `i` is, if it belongs to a conflict.
pub open spec fn kind_of(lines: Seq<Seq<char>>, i: nat) -> Option<JjConflictLineKind> {
    line_step(section_after(lines, i), bare_line(lines[i as int])).1
}

/// The lines of conflicts among the first `n` lines, in their order.
pub open spec fn conflict_lines(lines: Seq<Seq<char>>, n: nat) -> Seq<JjConflictLine>
    decreases n,
{
    if n == 0 {
        Seq::empty()
    } else {
        let before = conflict_lines(lines, (n - 1) as nat);
        match kind_of(lines, (n - 1) as nat) {
            Some(kind) => before.push(JjConflictLine { line_index: (n - 1) as usize, kind }),
            None => before,
        }
    }
}

/// Whether a line begins with at least seven times the character `marker`.
pub fn is_marker(line: &[char], marker: char) -> (is_marker: bool)
    ensures
        is_marker == is_marker_line(line@, marker),
{
    if line.len() < 7 {
        return false;
    }
    let mut i: usize = 0;
    while i < 7
        invariant
            i <= 7 <= line.len(),
            forall|j: int| 0 <= j < i ==> #[trigger] line@[j] == marker,
        decreases 7 - i,
    {
        if line[i] != marker {
            return false;
        }
        i += 1;
    }
    true
}

fn bare(line: &str) -> (result: Vec<char>)
    ensures
        result@ == bare_line(line@),
{
    let mut chars = chars_of(line);
    while chars.len() > 0 && (chars[chars.len() - 1] == '\r' || chars[chars.len() - 1] == '\n')
        invariant
            bare_line(line@) == bare_line(chars@),
        decreases chars.len(),
    {
        let _ = chars.pop();
    }
    chars
}

fn classify(section: Section, line: &[char]) -> (result: (Section, Option<JjConflictLineKind>))
    ensures
        result == line_step(section, line@),
{
    if is_marker(line, '<') {
        (Section::Head, Some(JjConflictLineKind::Marker))
    } else if section == Section::Outside {
        (Section::Outside, None)
    } else if is_marker(line, '>') {
        (Section::Outside, Some(JjConflictLineKind::Marker))
    } else if is_marker(line, '%') || is_marker(line, '\\') {
        (Section::Diff, Some(JjConflictLineKind::Marker))
    } else if is_marker(line, '+') || is_marker(line, '-') {
        (Section::Snapshot, Some(JjConflictLineKind::Marker))
    } else if section == Section::Head {
        (Section::Head, Some(JjConflictLineKind::Marker))
    } else if section == Section::Snapshot {
        (Section::Snapshot, Some(JjConflictLineKind::Snapshot))
    } else if line.len() > 0 && line[0] == '+' {
        (Section::Diff, Some(JjConflictLineKind::DiffAdded))
    } else if line.len() > 0 && line[0] == '-' {
        (Section::Diff, Some(JjConflictLineKind::DiffRemoved))
    } else {
        (Section::Diff, Some(JjConflictLineKind::Diff))
    }
}

/// The lines of conflicts among `lines`. See [`conflict_lines`].
pub fn lines_iter(lines: &[String]) -> (result: Vec<JjConflictLine>)
    ensures
        result@ == conflict_lines(texts(lines@), lines@.len()),
{
    let ghost all = texts(lines@);
    let mut result: Vec<JjConflictLine> = Vec::new();
    let mut section = Section::Outside;
    let mut i: usize = 0;
    while i < lines.len()
        invariant
            i <= lines.len(),
            all == texts(lines@),
            section == section_after(all, i as nat),
            result@ == conflict_lines(all, i as nat),
        decreases lines.len() - i,
    {
        let line = bare(lines[i].as_str());
        let (next, kind) = classify(section, line.as_slice());
        if let Some(kind) = kind {
            result.push(JjConflictLine { line_index: i, kind });
        }
        section = next;
        i += 1;
    }
    result
}

/// The lines of a text: what stands between its line feeds, but for an empty last line.
pub open spec fn lines_of(content: Seq<char>) -> Seq<Seq<char>> {
    let lines = pieces(content, '\n');
    if lines.last().len() == 0 {
        lines.drop_last()
    } else {
        lines
    }
}

/// The lines of conflicts in a text.
pub fn lines(content: &str) -> (result: Vec<JjConflictLine>)
    ensures
        result@ == conflict_lines(lines_of(content@), lines_of(content@).len()),
{
    let mut list = split(content, '\n');
    let ghost before = texts(list@);
    proof {
        law_pieces_are_joined_back(content@, '\n');
    }
    assert(list.len() == before.len());
    if chars_of(list[list.len() - 1].as_str()).len() == 0 {
        let _ = list.pop();
        assert(texts(list@) =~= before.drop_last());
    }
    lines_iter(list.as_slice())
}

/// A text that is edited, as `ropey` holds it.
#[verifier::external_type_specification]
#[verifier::external_body]
pub struct ExRope(ropey::Rope);

/// The text that a rope holds.
pub uninterp spec fn rope_text(rope: ropey::Rope) -> Seq<char>;

/// Whether a line ends behind `c`, for `ropey`.
pub open spec fn is_line_break(c: char) -> bool {
    ||| c == '\n'
    ||| c == '\r'
    ||| c == '\u{000B}'
    ||| c == '\u{000C}'
    ||| c == '\u{0085}'
    ||| c == '\u{2028}'
    ||| c == '\u{2029}'
}

/// The lines of a text, for `ropey`: each with its line break, and with an empty one behind a line
/// break at the end. The characters `\r\n` are one line break.
pub open spec fn rope_lines(text: Seq<char>) -> Seq<Seq<char>>
    decreases text.len(),
{
    if text.len() == 0 {
        seq![Seq::empty()]
    } else {
        let before = rope_lines(text.drop_last());
        let c = text.last();
        if c == '\n' && text.len() > 1 && text[text.len() - 2] == '\r' {
            before.drop_last().drop_last().push(before[before.len() - 2].push(c)).push(Seq::empty())
        } else if is_line_break(c) {
            before.drop_last().push(before.last().push(c)).push(Seq::empty())
        } else {
            before.drop_last().push(before.last().push(c))
        }
    }
}

/// Calls `ropey::Rope::lines`: the lines of the text that a rope holds, with their line breaks.
#[verifier::external_body]
fn rope_line_texts(rope: &ropey::Rope) -> (lines: Vec<String>)
    ensures
        texts(lines@) == rope_lines(rope_text(*rope)),
{
    rope.lines().map(|line| line.to_string()).collect()
}

/// The lines of conflicts in a text that is edited.
pub fn lines_from_rope(rope: &ropey::Rope) -> (result: Vec<JjConflictLine>)
    ensures
        result@ == conflict_lines(
            rope_lines(rope_text(*rope)),
            rope_lines(rope_text(*rope)).len(),
        ),
{
    let lines = rope_line_texts(rope);
    lines_iter(lines.as_slice())
}

/// The lines of conflicts come in the order of the file, each once, and each as what it is.
pub proof fn law_conflict_lines_are_in_order(lines: Seq<Seq<char>>, n: nat)
    requires
        n <= lines.len(),
        lines.len() <= usize::MAX,
    ensures
        forall|k: int|
            0 <= k < conflict_lines(lines, n).len() ==> (#[trigger] conflict_lines(
                lines,
                n,
            )[k]).line_index < n && kind_of(
                lines,
                conflict_lines(lines, n)[k].line_index as nat,
            ) == Some(conflict_lines(lines, n)[k].kind),
        forall|j: int, k: int|
            0 <= j < k < conflict_lines(lines, n).len() ==> (#[trigger] conflict_lines(
                lines,
                n,
            )[j]).line_index < (#[trigger] conflict_lines(lines, n)[k]).line_index,
    decreases n,
{
    if n > 0 {
        law_conflict_lines_are_in_order(lines, (n - 1) as nat);
        let before = conflict_lines(lines, (n - 1) as nat);
        let result = conflict_lines(lines, n);
        assert forall|k: int| 0 <= k < result.len() implies (#[trigger] result[k]).line_index < n
            && kind_of(lines, result[k].line_index as nat) == Some(result[k].kind) by {
            if k < before.len() {
                assert(result[k] == before[k]);
            }
        }
        assert forall|j: int, k: int| 0 <= j < k < result.len() implies (
        #[trigger] result[j]).line_index < (#[trigger] result[k]).line_index by {
            assert(result[j] == before[j]);
            if k < before.len() {
                assert(result[k] == before[k]);
            }
        }
    }
}

/// A file without a line that begins a conflict has no lines of conflicts.
pub proof fn law_no_beginning_no_conflict(lines: Seq<Seq<char>>, n: nat)
    requires
        n <= lines.len(),
        forall|i: int|
            0 <= i < n ==> !is_marker_line(bare_line(#[trigger] lines[i]), '<'),
    ensures
        conflict_lines(lines, n).len() == 0,
        section_after(lines, n) is Outside,
    decreases n,
{
    if n > 0 {
        law_no_beginning_no_conflict(lines, (n - 1) as nat);
        assert(!is_marker_line(bare_line(lines[n - 1]), '<'));
    }
}

/// From the line that begins a conflict up to the one that ends it, every line is one of the
/// conflict.
pub proof fn law_all_lines_of_a_conflict_are_found(lines: Seq<Seq<char>>, begin: nat, i: nat)
    requires
        begin <= i < lines.len(),
        is_marker_line(bare_line(lines[begin as int]), '<'),
        forall|k: int|
            begin < k < i ==> !is_marker_line(bare_line(#[trigger] lines[k]), '>'),
    ensures
        kind_of(lines, i) is Some,
    decreases i - begin,
{
    if begin < i {
        lemma_inside(lines, begin, i);
    }
}

proof fn lemma_inside(lines: Seq<Seq<char>>, begin: nat, i: nat)
    requires
        begin < i <= lines.len(),
        is_marker_line(bare_line(lines[begin as int]), '<'),
        forall|k: int|
            begin < k < i ==> !is_marker_line(bare_line(#[trigger] lines[k]), '>'),
    ensures
        !(section_after(lines, i) is Outside),
    decreases i - begin,
{
    if begin + 1 < i {
        lemma_inside(lines, begin, (i - 1) as nat);
        assert(!is_marker_line(bare_line(lines[i - 1]), '>'));
    }
}

proof fn lemma_bare_line(line: Seq<char>)
    ensures
        ({
            let bare = bare_line(line);
            &&& bare.is_prefix_of(line)
            &&& forall|k: int|
                bare.len() <= k < line.len() ==> (#[trigger] line[k]) == '\r' || line[k] == '\n'
            &&& bare.len() > 0 ==> bare.last() != '\r' && bare.last() != '\n'
        }),
    decreases line.len(),
{
    if line.len() > 0 && (line.last() == '\r' || line.last() == '\n') {
        let shorter = line.drop_last();
        lemma_bare_line(shorter);
        let bare = bare_line(line);
        assert forall|k: int| bare.len() <= k < line.len() implies (#[trigger] line[k]) == '\r'
            || line[k] == '\n' by {
            if k < shorter.len() {
                assert(shorter[k] == line[k]);
            }
        }
    }
}

/// What is looked at of a line is all of it but the line ending: what is cut off is at its end, and
/// is made of `\r` and `\n`, and nothing of that kind is left at the end.
pub proof fn law_only_line_endings_are_cut(line: Seq<char>)
    ensures
        bare_line(line).is_prefix_of(line),
        forall|k: int|
            bare_line(line).len() <= k < line.len() ==> (#[trigger] line[k]) == '\r' || line[k]
                == '\n',
        bare_line(line).len() > 0 ==> bare_line(line).last() != '\r' && bare_line(line).last()
            != '\n',
{
    lemma_bare_line(line);
}

/// Whether the line number `i` begins with seven times the character `marker`.
pub open spec fn begins_with_seven(lines: Seq<Seq<char>>, i: int, marker: char) -> bool {
    bare_line(lines[i]).len() >= 7 && bare_line(lines[i]).take(7) == seq![
        marker,
        marker,
        marker,
        marker,
        marker,
        marker,
        marker,
    ]
}

/// Whether the line number `i` is one of those that mark the parts of a conflict.
pub open spec fn marks_a_part(lines: Seq<Seq<char>>, i: int) -> bool {
    ||| begins_with_seven(lines, i, '<')
    ||| begins_with_seven(lines, i, '>')
    ||| begins_with_seven(lines, i, '%')
    ||| begins_with_seven(lines, i, '\\')
    ||| begins_with_seven(lines, i, '+')
    ||| begins_with_seven(lines, i, '-')
}

proof fn lemma_seven(lines: Seq<Seq<char>>, i: int, marker: char)
    ensures
        begins_with_seven(lines, i, marker) == is_marker_line(bare_line(lines[i]), marker),
{
    let line = bare_line(lines[i]);
    let seven = seq![marker, marker, marker, marker, marker, marker, marker];
    if is_marker_line(line, marker) {
        assert(line.take(7) =~= seven);
    }
    if begins_with_seven(lines, i, marker) {
        assert forall|k: int| 0 <= k < 7 implies #[trigger] line[k] == marker by {
            assert(line.take(7)[k] == seven[k]);
        }
    }
}

proof fn lemma_markers(lines: Seq<Seq<char>>, i: int)
    ensures
        begins_with_seven(lines, i, '<') == is_marker_line(bare_line(lines[i]), '<'),
        begins_with_seven(lines, i, '>') == is_marker_line(bare_line(lines[i]), '>'),
        begins_with_seven(lines, i, '%') == is_marker_line(bare_line(lines[i]), '%'),
        begins_with_seven(lines, i, '\\') == is_marker_line(bare_line(lines[i]), '\\'),
        begins_with_seven(lines, i, '+') == is_marker_line(bare_line(lines[i]), '+'),
        begins_with_seven(lines, i, '-') == is_marker_line(bare_line(lines[i]), '-'),
{
    lemma_seven(lines, i, '<');
    lemma_seven(lines, i, '>');
    lemma_seven(lines, i, '%');
    lemma_seven(lines, i, '\\');
    lemma_seven(lines, i, '+');
    lemma_seven(lines, i, '-');
}

proof fn lemma_part(lines: Seq<Seq<char>>, mark: nat, i: nat)
    requires
        mark < i <= lines.len(),
        forall|k: int| mark < k < i ==> !#[trigger] marks_a_part(lines, k),
    ensures
        section_after(lines, i) == section_after(lines, mark + 1),
    decreases i - mark,
{
    if mark + 1 < i {
        lemma_part(lines, mark, (i - 1) as nat);
        assert(!marks_a_part(lines, i - 1));
        lemma_markers(lines, i - 1);
    }
}

proof fn lemma_all_are_listed(lines: Seq<Seq<char>>, n: nat, i: nat)
    requires
        i < n <= lines.len() <= usize::MAX,
    ensures
        kind_of(lines, i) is Some ==> conflict_lines(lines, n).contains(
            JjConflictLine { line_index: i as usize, kind: kind_of(lines, i)->0 },
        ),
        kind_of(lines, i) is None ==> forall|kind: JjConflictLineKind|
            !conflict_lines(lines, n).contains(
                #[trigger] line_at(i as usize, kind),
            ),
    decreases n,
{
    let before = conflict_lines(lines, (n - 1) as nat);
    let all = conflict_lines(lines, n);
    law_conflict_lines_are_in_order(lines, n);
    if kind_of(lines, i) is Some {
        let line = JjConflictLine { line_index: i as usize, kind: kind_of(lines, i)->0 };
        if i == n - 1 {
            assert(all[before.len() as int] == line);
        } else {
            lemma_all_are_listed(lines, (n - 1) as nat, i);
            let k = choose|k: int| 0 <= k < before.len() && before[k] == line;
            assert(all[k] == line);
        }
    } else {
        assert forall|kind: JjConflictLineKind| !all.contains(
            #[trigger] line_at(i as usize, kind),
        ) by {
            if all.contains(line_at(i as usize, kind)) {
                let k = choose|k: int| 0 <= k < all.len() && all[k] == line_at(i as usize, kind);
                assert(kind_of(lines, all[k].line_index as nat) == Some(all[k].kind));
            }
        }
    }
}

/// A line of a conflict.
pub open spec fn line_at(line_index: usize, kind: JjConflictLineKind) -> JjConflictLine {
    JjConflictLine { line_index, kind }
}

/// Whether the line number `i` is listed as a line of a conflict of this kind, or not at all.
pub open spec fn is_listed_as(
    lines: Seq<Seq<char>>,
    i: nat,
    kind: Option<JjConflictLineKind>,
) -> bool {
    let list = conflict_lines(lines, lines.len());
    forall|other: JjConflictLineKind|
        list.contains(#[trigger] line_at(i as usize, other)) <==> kind == Some(other)
}

proof fn lemma_listed(lines: Seq<Seq<char>>, i: nat)
    requires
        i < lines.len() <= usize::MAX,
    ensures
        is_listed_as(lines, i, kind_of(lines, i)),
{
    lemma_all_are_listed(lines, lines.len(), i);
    law_conflict_lines_are_in_order(lines, lines.len());
    let list = conflict_lines(lines, lines.len());
    assert forall|other: JjConflictLineKind|
        list.contains(#[trigger] line_at(i as usize, other)) <==> kind_of(lines, i) == Some(
            other,
        ) by {
        if list.contains(line_at(i as usize, other)) {
            let k = choose|k: int| 0 <= k < list.len() && list[k] == line_at(i as usize, other);
            assert(kind_of(lines, list[k].line_index as nat) == Some(list[k].kind));
        }
    }
}

/// A line of a conflict that marks nothing is what the part of the conflict says that it stands
/// in, which is the one that the last line before it that marks something begins. Behind `%` and
/// `\` stand changes: a line that is added behind `+`, one that is removed behind `-`, and else
/// one that stays. Behind `+` and `-` stands a text as it is. Behind `<` stands what belongs to
/// the mark. Behind `>`, and before any conflict, a line belongs to none.
pub proof fn law_lines_are_what_their_part_says(
    lines: Seq<Seq<char>>,
    begin: nat,
    mark: nat,
    i: nat,
)
    requires
        begin <= mark < i < lines.len() <= usize::MAX,
        begins_with_seven(lines, begin as int, '<'),
        forall|k: int| begin < k < mark ==> !#[trigger] begins_with_seven(lines, k, '>'),
        marks_a_part(lines, mark as int),
        forall|k: int| mark < k <= i ==> !#[trigger] marks_a_part(lines, k),
    ensures
        ({
            let line = bare_line(lines[i as int]);
            let change = if line.len() > 0 && line[0] == '+' {
                JjConflictLineKind::DiffAdded
            } else if line.len() > 0 && line[0] == '-' {
                JjConflictLineKind::DiffRemoved
            } else {
                JjConflictLineKind::Diff
            };
            &&& begins_with_seven(lines, mark as int, '<') ==> is_listed_as(
                lines,
                i,
                Some(JjConflictLineKind::Marker),
            )
            &&& begins_with_seven(lines, mark as int, '>') ==> is_listed_as(lines, i, None)
            &&& begins_with_seven(lines, mark as int, '%') || begins_with_seven(
                lines,
                mark as int,
                '\\',
            ) ==> is_listed_as(lines, i, Some(change))
            &&& begins_with_seven(lines, mark as int, '+') || begins_with_seven(
                lines,
                mark as int,
                '-',
            ) ==> is_listed_as(lines, i, Some(JjConflictLineKind::Snapshot))
        }),
{
    lemma_listed(lines, i);
    lemma_part(lines, mark, i);
    lemma_markers(lines, begin as int);
    lemma_markers(lines, mark as int);
    lemma_markers(lines, i as int);
    assert(!marks_a_part(lines, i as int));
    if begin < mark {
        assert forall|k: int| begin < k < mark implies !is_marker_line(
            bare_line(#[trigger] lines[k]),
            '>',
        ) by {
            assert(!begins_with_seven(lines, k, '>'));
            lemma_markers(lines, k);
        }
        lemma_inside(lines, begin, mark);
    }
    lemma_one_marker(lines, mark as int);
}

proof fn lemma_one_marker(lines: Seq<Seq<char>>, i: int)
    ensures
        forall|a: char, b: char| #[trigger]
            begins_with_seven(lines, i, a) && #[trigger] begins_with_seven(lines, i, b) ==> a == b,
{
    assert forall|a: char, b: char| #[trigger]
        begins_with_seven(lines, i, a) && #[trigger] begins_with_seven(lines, i, b) implies a
        == b by {
        lemma_seven(lines, i, a);
        lemma_seven(lines, i, b);
        assert(bare_line(lines[i])[0] == a);
    }
}

/// Lines that mark the parts of a conflict are listed as such: one that begins a conflict anywhere,
/// and the others within a conflict.
pub proof fn law_marks_are_listed(lines: Seq<Seq<char>>, begin: nat, i: nat)
    requires
        begin <= i < lines.len() <= usize::MAX,
        begins_with_seven(lines, begin as int, '<'),
        forall|k: int| begin < k < i ==> !#[trigger] begins_with_seven(lines, k, '>'),
        marks_a_part(lines, i as int),
    ensures
        is_listed_as(lines, i, Some(JjConflictLineKind::Marker)),
{
    lemma_listed(lines, i);
    lemma_markers(lines, begin as int);
    lemma_markers(lines, i as int);
    if begin < i {
        assert forall|k: int| begin < k < i implies !is_marker_line(
            bare_line(#[trigger] lines[k]),
            '>',
        ) by {
            assert(!begins_with_seven(lines, k, '>'));
            lemma_markers(lines, k);
        }
        lemma_inside(lines, begin, i);
    }
}

/// Before the first line that begins a conflict, no line is listed.
pub proof fn law_lines_before_conflicts_are_not_listed(lines: Seq<Seq<char>>, i: nat)
    requires
        i < lines.len() <= usize::MAX,
        forall|k: int| 0 <= k <= i ==> !#[trigger] begins_with_seven(lines, k, '<'),
    ensures
        is_listed_as(lines, i, None),
{
    lemma_listed(lines, i);
    assert forall|k: int| 0 <= k < i + 1 implies !is_marker_line(
        bare_line(#[trigger] lines[k]),
        '<',
    ) by {
        assert(!begins_with_seven(lines, k, '<'));
        lemma_markers(lines, k);
    }
    law_no_beginning_no_conflict(lines, i);
    assert(!is_marker_line(bare_line(lines[i as int]), '<'));
}

/// The lines of a text are what stands between its line feeds. A line feed at the end of the text
/// ends its last line, and begins no other.
pub proof fn law_line_feeds_end_lines(text: Seq<char>)
    ensures
        lines_of(text.push('\n')) == pieces(text, '\n'),
        text.len() > 0 && text.last() != '\n' ==> lines_of(text) == pieces(text, '\n'),
        lines_of(Seq::empty()).len() == 0,
{
    let ended = text.push('\n');
    assert(ended.drop_last() =~= text);
    assert(pieces(ended, '\n').drop_last() =~= pieces(text, '\n'));
    if text.len() > 0 && text.last() != '\n' {
        assert(pieces(text, '\n').last().len() > 0);
    }
    let empty = Seq::<char>::empty();
    assert(pieces(empty, '\n').drop_last().len() == 0);
}

} // verus!
