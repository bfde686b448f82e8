//! How a file is to be indented and saved, by its EditorConfig properties.

use crate::decimal::{decimal, is_digit, law_decimal_is_read_back, parse_number_text, parsed_number};
use crate::table::TextTable;
use crate::text::{
    ascii_lower, chars_of, eq_ignore_case, first_rule, join_texts, joined_texts,
    law_joined_texts_are_separated_again, law_pieces_are_joined_back,
    law_replacements_are_not_reprocessed, law_substitution_keeps_other_text,
    law_substitution_splits, pieces, rule_applies, rules_view, same_ignoring_case, split, str_eq,
    string_of, substitute, substitute_from, substituted, texts,
};
use vstd::prelude::*;

verus! {

/// How a file is indented: by so many of a character per level.
#[derive(Clone, Copy, Debug, PartialEq, Eq, Structural)]
pub struct IndentSettings {
    char: char,
    width: usize,
}

impl IndentSettings {
    /// The character that indents.
    pub closed spec fn spec_char(self) -> char {
        self.char
    }

    /// How many characters indent a level.
    pub closed spec fn spec_width(self) -> usize {
        self.width
    }

    /// Indentation by `width` times `char` per level.
    pub fn new(char: char, width: usize) -> (settings: IndentSettings)
        ensures
            settings.spec_char() == char,
            settings.spec_width() == width,
    {
        IndentSettings { char, width }
    }

    /// The character that indents.
    pub fn char(self) -> (char: char)
        ensures
            char == self.spec_char(),
    {
        self.char
    }

    /// How many characters indent a level.
    pub fn width(self) -> (width: usize)
        ensures
            width == self.spec_width(),
    {
        self.width
    }
}

/// What the EditorConfig properties of a file say, as far as they say something.
#[derive(Clone, Copy, Debug, PartialEq, Eq, Structural)]
pub struct EditorConfigSettings {
    pub indent_char: Option<char>,
    pub indent_width: Option<usize>,
    pub insert_final_newline: Option<bool>,
    pub trim_trailing_whitespace: Option<bool>,
}

impl Default for EditorConfigSettings {
    fn default() -> (settings: EditorConfigSettings)
        ensures
            settings == (EditorConfigSettings {
                indent_char: None,
                indent_width: None,
                insert_final_newline: None,
                trim_trailing_whitespace: None,
            }),
    {
        EditorConfigSettings {
            indent_char: None,
            indent_width: None,
            insert_final_newline: None,
            trim_trailing_whitespace: None,
        }
    }
}

/// The value of a property, unless it is unset.
pub open spec fn property_value(properties: Map<Seq<char>, Seq<char>>, key: Seq<char>) -> Option<
    Seq<char>,
> {
    if properties.dom().contains(key) && !same_ignoring_case(properties[key], "unset"@) {
        Some(properties[key])
    } else {
        None
    }
}

/// The width that a text stands for: a number greater than zero.
pub open spec fn width_value(value: Option<Seq<char>>) -> Option<usize> {
    match value {
        Some(value) => match parsed_number(value, usize::MAX as nat) {
            Some(width) => if width > 0 {
                Some(width as usize)
            } else {
                None
            },
            None => None,
        },
        None => None,
    }
}

/// The truth value that a text stands for.
pub open spec fn bool_value(value: Option<Seq<char>>) -> Option<bool> {
    match value {
        Some(value) => if value == "true"@ {
            Some(true)
        } else if value == "false"@ {
            Some(false)
        } else {
            None
        },
        None => None,
    }
}

/// What EditorConfig properties say. Tabs always indent by one per level.
pub open spec fn settings_of(properties: Map<Seq<char>, Seq<char>>) -> EditorConfigSettings {
    let style = property_value(properties, "indent_style"@);
    EditorConfigSettings {
        indent_char: if style == Some("tab"@) {
            Some('\t')
        } else if style == Some("space"@) {
            Some(' ')
        } else {
            None
        },
        indent_width: if style == Some("tab"@) {
            Some(1)
        } else {
            width_value(property_value(properties, "indent_size"@))
        },
        insert_final_newline: bool_value(property_value(properties, "insert_final_newline"@)),
        trim_trailing_whitespace: bool_value(
            property_value(properties, "trim_trailing_whitespace"@),
        ),
    }
}

/// A text with `\n` for each line ending: `\r\n` or `\r`.
pub open spec fn with_lf(text: Seq<char>) -> Seq<char> {
    substituted(text, seq![("\r\n"@, "\n"@), ("\r"@, "\n"@)])
}

/// Whether `c` is a space or a tab.
pub open spec fn is_blank(c: char) -> bool {
    c == ' ' || c == '\t'
}

/// A line without the spaces and tabs at its end.
pub open spec fn trimmed_line(line: Seq<char>) -> Seq<char>
    decreases line.len(),
{
    if line.len() > 0 && is_blank(line.last()) {
        trimmed_line(line.drop_last())
    } else {
        line
    }
}

/// Lines without the spaces and tabs at their ends.
pub open spec fn trimmed_lines(lines: Seq<Seq<char>>) -> Seq<Seq<char>> {
    lines.map_values(|line: Seq<char>| trimmed_line(line))
}

/// A text without the spaces and tabs at the ends of its lines.
pub open spec fn without_trailing_blanks(text: Seq<char>) -> Seq<char> {
    joined_texts(trimmed_lines(pieces(text, '\n')), "\n"@)
}

/// A text with a line ending at its end, unless it is empty.
pub open spec fn with_final_newline(text: Seq<char>) -> Seq<char> {
    if text.len() > 0 && text.last() != '\n' {
        text.push('\n')
    } else {
        text
    }
}

/// A text as it is saved.
pub open spec fn saved_text(settings: EditorConfigSettings, content: Seq<char>) -> Seq<char> {
    let normalized = with_lf(content);
    let trimmed = if settings.trim_trailing_whitespace == Some(true) {
        without_trailing_blanks(normalized)
    } else {
        normalized
    };
    if settings.insert_final_newline == Some(true) {
        with_final_newline(trimmed)
    } else {
        trimmed
    }
}

/// A text with `\n` for each line ending.
pub fn normalize_line_endings_to_lf(content: &str) -> (normalized: String)
    ensures
        normalized@ == with_lf(content@),
{
    let rules = [("\r\n", "\n"), ("\r", "\n")];
    let rules: &[(&str, &str)] = &rules;
    assert(rules_view(rules@) =~= seq![("\r\n"@, "\n"@), ("\r"@, "\n"@)]);
    substitute(content, rules)
}

fn trim_line(line: &str) -> (trimmed: String)
    ensures
        trimmed@ == trimmed_line(line@),
{
    let mut chars = chars_of(line);
    while chars.len() > 0 && (chars[chars.len() - 1] == ' ' || chars[chars.len() - 1] == '\t')
        invariant
            trimmed_line(line@) == trimmed_line(chars@),
        decreases chars.len(),
    {
        let _ = chars.pop();
    }
    string_of(chars.as_slice())
}

fn trim_lines(content: &str) -> (trimmed: String)
    ensures
        trimmed@ == without_trailing_blanks(content@),
{
    let lines = split(content, '\n');
    let mut trimmed: Vec<String> = Vec::new();
    let mut i: usize = 0;
    while i < lines.len()
        invariant
            i <= lines.len(),
            trimmed@.len() == i,
            forall|j: int| 0 <= j < i ==> (#[trigger] trimmed@[j])@ == trimmed_line(lines@[j]@),
        decreases lines.len() - i,
    {
        trimmed.push(trim_line(lines[i].as_str()));
        i += 1;
    }
    assert(texts(trimmed@) =~= trimmed_lines(texts(lines@)));
    join_texts(trimmed.as_slice(), "\n")
}

fn property<'a>(properties: &'a TextTable, key: &str) -> (value: Option<&'a str>)
    ensures
        match value {
            Some(value) => property_value(properties@, key@) == Some(value@),
            None => property_value(properties@, key@) is None,
        },
{
    match properties.get(key) {
        Some(value) => {
            let chars = chars_of(value);
            let unset = chars_of("unset");
            if eq_ignore_case(chars.as_slice(), unset.as_slice()) {
                None
            } else {
                Some(value)
            }
        },
        None => None,
    }
}

fn parse_width(value: &str) -> (width: Option<usize>)
    ensures
        width == width_value(Some(value@)),
{
    match parse_number_text(value) {
        Some(width) => if width > 0 {
            Some(width)
        } else {
            None
        },
        None => None,
    }
}

fn parse_bool(value: &str) -> (parsed: Option<bool>)
    ensures
        parsed == bool_value(Some(value@)),
{
    if str_eq(value, "true") {
        Some(true)
    } else if str_eq(value, "false") {
        Some(false)
    } else {
        None
    }
}

impl EditorConfigSettings {
    /// What EditorConfig properties say. See [`settings_of`].
    pub fn from_properties(properties: &TextTable) -> (settings: EditorConfigSettings)
        ensures
            settings == settings_of(properties@),
    {
        let style = property(properties, "indent_style");
        let (tab, space) = match style {
            Some(style) => (str_eq(style, "tab"), str_eq(style, "space")),
            None => (false, false),
        };
        proof {
            reveal_strlit("tab");
            reveal_strlit("space");
            assert("tab"@.len() == 3);
            assert("space"@.len() == 5);
        }
        let indent_char = if tab {
            Some('\t')
        } else if space {
            Some(' ')
        } else {
            None
        };
        let indent_width = if tab {
            Some(1)
        } else {
            match property(properties, "indent_size") {
                Some(size) => parse_width(size),
                None => None,
            }
        };
        let insert_final_newline = match property(properties, "insert_final_newline") {
            Some(value) => parse_bool(value),
            None => None,
        };
        let trim_trailing_whitespace = match property(properties, "trim_trailing_whitespace") {
            Some(value) => parse_bool(value),
            None => None,
        };
        EditorConfigSettings {
            indent_char,
            indent_width,
            insert_final_newline,
            trim_trailing_whitespace,
        }
    }

    /// How the file is indented. What the properties do not say is taken from `fallback`.
    pub fn indent_settings(&self, fallback: IndentSettings) -> (settings: IndentSettings)
        ensures
            settings.spec_char() == (match self.indent_char {
                Some(char) => char,
                None => fallback.spec_char(),
            }),
            settings.spec_width() == (match self.indent_width {
                Some(width) => width,
                None => fallback.spec_width(),
            }),
    {
        let char = match self.indent_char {
            Some(char) => char,
            None => fallback.char(),
        };
        let width = match self.indent_width {
            Some(width) => width,
            None => fallback.width(),
        };
        IndentSettings::new(char, width)
    }

    /// A text as it is saved. See [`saved_text`].
    pub fn format_content_for_save(&self, content: &str) -> (saved: String)
        ensures
            saved@ == saved_text(*self, content@),
    {
        let mut saved = normalize_line_endings_to_lf(content);
        if let Some(true) = self.trim_trailing_whitespace {
            saved = trim_lines(saved.as_str());
        }
        if let Some(true) = self.insert_final_newline {
            let chars = chars_of(saved.as_str());
            if chars.len() > 0 && chars[chars.len() - 1] != '\n' {
                saved.push('\n');
            }
        }
        saved
    }
}

spec fn lf_rules() -> Seq<(Seq<char>, Seq<char>)> {
    seq![("\r\n"@, "\n"@), ("\r"@, "\n"@)]
}

proof fn lemma_cr_rule(text: Seq<char>, at: int)
    requires
        0 <= at < text.len(),
    ensures
        text[at] == '\r' ==> rule_applies(text, lf_rules(), at, 1),
        forall|k: int| rule_applies(text, lf_rules(), at, k) ==> text[at] == '\r',
{
    reveal_strlit("\r\n");
    reveal_strlit("\r");
    if text[at] == '\r' {
        assert(text.subrange(at, at + 1) =~= "\r"@);
    }
    assert forall|k: int| rule_applies(text, lf_rules(), at, k) implies text[at] == '\r' by {
        let token = lf_rules()[k].0;
        assert(text.subrange(at, at + token.len())[0] == token[0]);
    }
}

proof fn lemma_no_cr(text: Seq<char>, from: int)
    requires
        0 <= from,
    ensures
        !substitute_from(text, lf_rules(), from).contains('\r'),
    decreases text.len() - from,
{
    reveal_strlit("\r\n");
    reveal_strlit("\r");
    reveal_strlit("\n");
    let result = substitute_from(text, lf_rules(), from);
    if from < text.len() {
        lemma_cr_rule(text, from);
        lemma_first_rule(text, from);
        match first_rule(text, lf_rules(), from, 0) {
            Some(k) => {
                let rest = substitute_from(text, lf_rules(), from + lf_rules()[k].0.len());
                lemma_no_cr(text, from + lf_rules()[k].0.len());
                assert(result == "\n"@ + rest);
                assert forall|i: int| 0 <= i < result.len() implies result[i] != '\r' by {
                    if i > 0 {
                        assert(result[i] == rest[i - 1]);
                        assert(rest.contains(rest[i - 1]));
                    }
                }
            },
            None => {
                let rest = substitute_from(text, lf_rules(), from + 1);
                lemma_no_cr(text, from + 1);
                assert(result == seq![text[from]] + rest);
                assert forall|i: int| 0 <= i < result.len() implies result[i] != '\r' by {
                    if i > 0 {
                        assert(result[i] == rest[i - 1]);
                        assert(rest.contains(rest[i - 1]));
                    }
                }
            },
        }
    }
}

proof fn lemma_first_rule(text: Seq<char>, at: int)
    requires
        0 <= at < text.len(),
    ensures
        match first_rule(text, lf_rules(), at, 0) {
            Some(k) => (k == 0 || k == 1) && rule_applies(text, lf_rules(), at, k),
            None => text[at] != '\r',
        },
{
    reveal_with_fuel(first_rule, 3);
    lemma_cr_rule(text, at);
}

proof fn lemma_plain_text_stays(text: Seq<char>)
    requires
        !text.contains('\r'),
    ensures
        with_lf(text) == text,
{
    assert forall|at: int, k: int| 0 <= at implies !rule_applies(text, lf_rules(), at, k) by {
        if rule_applies(text, lf_rules(), at, k) {
            reveal_strlit("\r\n");
            reveal_strlit("\r");
            let token = lf_rules()[k].0;
            assert(at < text.len());
            lemma_cr_rule(text, at);
            assert(text.contains(text[at]));
        }
    }
    law_substitution_keeps_other_text(text, lf_rules(), 0);
    assert(text.skip(0) =~= text);
}

proof fn lemma_trimmed_line(line: Seq<char>)
    ensures
        trimmed_line(trimmed_line(line)) == trimmed_line(line),
        forall|c: char| #[trigger] trimmed_line(line).contains(c) ==> line.contains(c),
    decreases line.len(),
{
    if line.len() > 0 && is_blank(line.last()) {
        lemma_trimmed_line(line.drop_last());
        assert forall|c: char| #[trigger] trimmed_line(line).contains(c) implies line.contains(
            c,
        ) by {
            let shorter = line.drop_last();
            assert(shorter.contains(c));
            let i = choose|i: int| 0 <= i < shorter.len() && shorter[i] == c;
            assert(line[i] == c);
        }
    }
}

/// Whether no line of a text ends in spaces or tabs.
pub open spec fn lines_are_trimmed(text: Seq<char>) -> bool {
    trimmed_lines(pieces(text, '\n')) == pieces(text, '\n')
}

proof fn lemma_trimmed_text_stays(text: Seq<char>)
    requires
        lines_are_trimmed(text),
    ensures
        without_trailing_blanks(text) == text,
{
    reveal_strlit("\n");
    assert("\n"@ =~= seq!['\n']);
    law_pieces_are_joined_back(text, '\n');
}

proof fn lemma_trimming_trims(text: Seq<char>)
    ensures
        pieces(without_trailing_blanks(text), '\n') == trimmed_lines(pieces(text, '\n')),
        lines_are_trimmed(without_trailing_blanks(text)),
{
    reveal_strlit("\n");
    assert("\n"@ =~= seq!['\n']);
    let lines = pieces(text, '\n');
    let trimmed = trimmed_lines(lines);
    law_pieces_are_joined_back(text, '\n');
    assert forall|i: int| 0 <= i < trimmed.len() implies !(#[trigger] trimmed[i]).contains(
        '\n',
    ) by {
        lemma_trimmed_line(lines[i]);
        assert(!lines[i].contains('\n'));
    }
    law_joined_texts_are_separated_again(trimmed, '\n');
    assert(trimmed_lines(trimmed) =~= trimmed) by {
        assert forall|i: int| 0 <= i < trimmed.len() implies trimmed_lines(trimmed)[i]
            == trimmed[i] by {
            lemma_trimmed_line(lines[i]);
        }
    }
}

proof fn lemma_joined_chars(list: Seq<Seq<char>>, separator: Seq<char>, c: char)
    requires
        joined_texts(list, separator).contains(c),
    ensures
        separator.contains(c) || exists|i: int|
            0 <= i < list.len() && (#[trigger] list[i]).contains(c),
    decreases list.len(),
{
    let joined = joined_texts(list, separator);
    if list.len() == 1 {
        assert(list[0].contains(c));
    } else if list.len() > 1 {
        let rest = list.drop_last();
        let before = joined_texts(rest, separator);
        let at = choose|at: int| 0 <= at < joined.len() && joined[at] == c;
        if at < before.len() {
            assert(before[at] == c);
            lemma_joined_chars(rest, separator, c);
            if !separator.contains(c) {
                let i = choose|i: int| 0 <= i < rest.len() && (#[trigger] rest[i]).contains(c);
                assert(list[i].contains(c));
            }
        } else if at < before.len() + separator.len() {
            assert(separator[at - before.len()] == c);
        } else {
            assert(list[list.len() - 1][at - before.len() - separator.len()] == c);
        }
    }
}

proof fn lemma_trimming_adds_nothing(text: Seq<char>)
    requires
        !text.contains('\r'),
    ensures
        !without_trailing_blanks(text).contains('\r'),
{
    reveal_strlit("\n");
    let lines = pieces(text, '\n');
    let trimmed = trimmed_lines(lines);
    law_pieces_are_joined_back(text, '\n');
    if without_trailing_blanks(text).contains('\r') {
        lemma_joined_chars(trimmed, "\n"@, '\r');
        let i = choose|i: int| 0 <= i < trimmed.len() && (#[trigger] trimmed[i]).contains('\r');
        lemma_trimmed_line(lines[i]);
        assert(lines[i].contains('\r'));
        lemma_piece_chars(text, '\n', i, '\r');
    }
}

proof fn lemma_piece_chars(text: Seq<char>, separator: char, i: int, c: char)
    requires
        0 <= i < pieces(text, separator).len(),
        pieces(text, separator)[i].contains(c),
    ensures
        text.contains(c),
    decreases text.len(),
{
    if text.len() > 0 {
        let shorter = text.drop_last();
        let before = pieces(shorter, separator);
        let list = pieces(text, separator);
        law_pieces_are_joined_back(shorter, separator);
        let k = choose|k: int| 0 <= k < list[i].len() && list[i][k] == c;
        if i < before.len() - 1 || (i < before.len() && text.last() == separator) {
            assert(list[i] == before[i]);
            lemma_piece_chars(shorter, separator, i, c);
        } else if i == before.len() - 1 {
            if k < before[i].len() {
                assert(before[i][k] == c);
                lemma_piece_chars(shorter, separator, i, c);
            } else {
                assert(text[text.len() - 1] == c);
            }
        }
        if shorter.contains(c) {
            let m = choose|m: int| 0 <= m < shorter.len() && shorter[m] == c;
            assert(text[m] == c);
        }
    }
}

/// A saved text has `\n` for line endings and no other. No line of it ends in spaces or tabs, where
/// that is asked for, and it ends with a line ending, where that is asked for, unless it is empty.
pub proof fn law_saved_text_is_as_asked_for(settings: EditorConfigSettings, content: Seq<char>)
    ensures
        ({
            let saved = saved_text(settings, content);
            &&& !saved.contains('\r')
            &&& settings.trim_trailing_whitespace == Some(true) ==> lines_are_trimmed(saved)
            &&& settings.insert_final_newline == Some(true) && saved.len() > 0 ==> saved.last()
                == '\n'
        }),
{
    let normalized = with_lf(content);
    lemma_no_cr(content, 0);
    let trimmed = if settings.trim_trailing_whitespace == Some(true) {
        without_trailing_blanks(normalized)
    } else {
        normalized
    };
    lemma_trimming_adds_nothing(normalized);
    lemma_trimming_trims(normalized);
    let saved = saved_text(settings, content);
    if saved != trimmed {
        assert(saved == trimmed.push('\n'));
        assert forall|i: int| 0 <= i < saved.len() implies saved[i] != '\r' by {
            if i < trimmed.len() {
                assert(trimmed.contains(trimmed[i]));
            }
        }
        assert(saved.drop_last() =~= trimmed);
        let lines = pieces(trimmed, '\n');
        assert(pieces(saved, '\n') == lines.push(Seq::empty()));
        if settings.trim_trailing_whitespace == Some(true) {
            assert(trimmed_lines(lines.push(Seq::empty())) =~= lines.push(Seq::empty())) by {
                assert forall|i: int| 0 <= i < lines.len() implies #[trigger] trimmed_line(lines[i])
                    == lines[i] by {
                    assert(trimmed_lines(lines)[i] == trimmed_line(lines[i]));
                }
            }
        }
    }
}

/// Saving a text that was saved with the same settings changes nothing.
pub proof fn law_saving_again_changes_nothing(settings: EditorConfigSettings, content: Seq<char>)
    ensures
        saved_text(settings, saved_text(settings, content)) == saved_text(settings, content),
{
    let saved = saved_text(settings, content);
    law_saved_text_is_as_asked_for(settings, content);
    lemma_plain_text_stays(saved);
    if settings.trim_trailing_whitespace == Some(true) {
        lemma_trimmed_text_stays(saved);
    }
}

/// Whether `short` is `line` without some of the spaces and tabs at its end.
pub open spec fn is_cut_behind(short: Seq<char>, line: Seq<char>) -> bool {
    &&& short.is_prefix_of(line)
    &&& forall|k: int|
        short.len() <= k < line.len() ==> (#[trigger] line[k]) == ' ' || line[k] == '\t'
}

/// Whether a line ends in neither a space nor a tab.
pub open spec fn ends_in_no_blank(line: Seq<char>) -> bool {
    line.len() > 0 ==> line.last() != ' ' && line.last() != '\t'
}

proof fn lemma_cut_behind(line: Seq<char>)
    ensures
        is_cut_behind(trimmed_line(line), line),
        ends_in_no_blank(trimmed_line(line)),
    decreases line.len(),
{
    if line.len() > 0 && is_blank(line.last()) {
        let shorter = line.drop_last();
        lemma_cut_behind(shorter);
        let trimmed = trimmed_line(line);
        assert(trimmed.is_prefix_of(line));
        assert forall|k: int| trimmed.len() <= k < line.len() implies (#[trigger] line[k]) == ' '
            || line[k] == '\t' by {
            if k < shorter.len() {
                assert(shorter[k] == line[k]);
            }
        }
    }
}

/// Trimming keeps all but the ends of lines: the saved text has as many lines as the text that
/// would be saved without trimming, each line of it is the same line without spaces and tabs at
/// its end, nothing but spaces and tabs is cut off, and no line of it ends in a space or a tab.
pub proof fn law_trimming_cuts_only_the_ends_of_lines(
    settings: EditorConfigSettings,
    content: Seq<char>,
)
    requires
        settings.trim_trailing_whitespace == Some(true),
        settings.insert_final_newline != Some(true),
    ensures
        ({
            let before = pieces(
                saved_text(
                    EditorConfigSettings { trim_trailing_whitespace: None, ..settings },
                    content,
                ),
                '\n',
            );
            let after = pieces(saved_text(settings, content), '\n');
            &&& after.len() == before.len()
            &&& forall|i: int|
                0 <= i < after.len() ==> is_cut_behind(#[trigger] after[i], before[i])
                    && ends_in_no_blank(after[i])
        }),
{
    let text = with_lf(content);
    lemma_trimming_trims(text);
    let before = pieces(text, '\n');
    let after = trimmed_lines(before);
    assert forall|i: int| 0 <= i < after.len() implies is_cut_behind(#[trigger] after[i], before[i])
        && ends_in_no_blank(after[i]) by {
        lemma_cut_behind(before[i]);
    }
}

/// A line ending is added at the end of a text that is not empty and has none there, where that is
/// asked for, and nothing else is changed by asking for it.
pub proof fn law_a_final_newline_is_only_added(settings: EditorConfigSettings, content: Seq<char>)
    ensures
        ({
            let without = saved_text(
                EditorConfigSettings { insert_final_newline: None, ..settings },
                content,
            );
            let saved = saved_text(settings, content);
            if settings.insert_final_newline == Some(true) && without.len() > 0 && without.last()
                != '\n' {
                saved == without.push('\n')
            } else {
                saved == without
            }
        }),
{
}

/// Without trimming and without a final line ending, only line endings change: a text without `\r`
/// is saved as it is, and each `\r\n`, and each `\r` that no `\n` follows, becomes one `\n`,
/// whatever stands before and behind it.
pub proof fn law_line_endings_become_newlines(
    settings: EditorConfigSettings,
    before: Seq<char>,
    behind: Seq<char>,
)
    requires
        settings.trim_trailing_whitespace != Some(true),
        settings.insert_final_newline != Some(true),
    ensures
        !before.contains('\r') ==> saved_text(settings, before) == before,
        saved_text(settings, before + seq!['\r', '\n'] + behind) == saved_text(settings, before)
            + seq!['\n'] + saved_text(settings, behind),
        behind.len() == 0 || behind[0] != '\n' ==> saved_text(
            settings,
            before + seq!['\r'] + behind,
        ) == saved_text(settings, before) + seq!['\n'] + saved_text(settings, behind),
{
    reveal_strlit("\r\n");
    reveal_strlit("\r");
    reveal_strlit("\n");
    assert("\n"@ =~= seq!['\n']);
    let rules = lf_rules();
    if !before.contains('\r') {
        lemma_plain_text_stays(before);
    }
    let start = with_lf(before);
    let rest = with_lf(behind);
    let first = seq!['\r', '\n'] + behind;
    assert(first.subrange(0, 2) =~= "\r\n"@);
    assert(first.skip(2) =~= behind);
    law_replacements_are_not_reprocessed(first, rules, 0);
    law_substitution_splits(before, first, rules, '\r');
    assert(before + seq!['\r', '\n'] + behind =~= before + first);
    assert(start + (seq!['\n'] + rest) =~= start + seq!['\n'] + rest);
    if behind.len() == 0 || behind[0] != '\n' {
        let second = seq!['\r'] + behind;
        assert(second.subrange(0, 1) =~= "\r"@);
        assert(second.skip(1) =~= behind);
        assert(!rule_applies(second, rules, 0, 0)) by {
            if rule_applies(second, rules, 0, 0) {
                assert(second.subrange(0, 2)[1] == "\r\n"@[1]);
            }
        }
        law_replacements_are_not_reprocessed(second, rules, 1);
        law_substitution_splits(before, second, rules, '\r');
        assert(before + seq!['\r'] + behind =~= before + second);
    }
}

/// Each property says what it is for and nothing else. `true` and `false` switch trimming and the
/// final line ending on and off, a number greater than zero sets the width, and other properties do
/// not matter.
pub proof fn law_properties_say_what_they_are_for(
    properties: Map<Seq<char>, Seq<char>>,
    width: nat,
    key: Seq<char>,
    value: Seq<char>,
)
    ensures
        settings_of(properties.insert("insert_final_newline"@, "true"@)) == (EditorConfigSettings {
            insert_final_newline: Some(true),
            ..settings_of(properties)
        }),
        settings_of(properties.insert("insert_final_newline"@, "false"@)) == (
        EditorConfigSettings { insert_final_newline: Some(false), ..settings_of(properties) }),
        settings_of(properties.insert("trim_trailing_whitespace"@, "true"@)) == (
        EditorConfigSettings { trim_trailing_whitespace: Some(true), ..settings_of(properties) }),
        settings_of(properties.insert("trim_trailing_whitespace"@, "false"@)) == (
        EditorConfigSettings { trim_trailing_whitespace: Some(false), ..settings_of(properties) }),
        0 < width <= usize::MAX && settings_of(properties).indent_char != Some('\t')
            ==> settings_of(properties.insert("indent_size"@, decimal(width))) == (
        EditorConfigSettings { indent_width: Some(width as usize), ..settings_of(properties) }),
        key != "indent_style"@ && key != "indent_size"@ && key != "insert_final_newline"@ && key
            != "trim_trailing_whitespace"@ ==> settings_of(properties.insert(key, value))
            == settings_of(properties),
{
    lemma_property_names();
    lemma_set_values();
    if 0 < width <= usize::MAX {
        law_decimal_is_read_back(width, usize::MAX as nat);
        reveal_strlit("unset");
        assert(is_digit(decimal(width)[0]));
        assert(!same_ignoring_case(decimal(width), "unset"@)) by {
            if same_ignoring_case(decimal(width), "unset"@) {
                assert(ascii_lower(decimal(width)[0]) == ascii_lower("unset"@[0]));
            }
        }
    }
}

/// Tabs indent by one per level, whatever width is asked for. Spaces indent by the width that is
/// asked for. Neither style changes anything else, and where no style or width is set, none is
/// taken.
pub proof fn law_styles_say_how_to_indent(properties: Map<Seq<char>, Seq<char>>)
    ensures
        settings_of(properties.insert("indent_style"@, "tab"@)) == (EditorConfigSettings {
            indent_char: Some('\t'),
            indent_width: Some(1),
            ..settings_of(properties)
        }),
        settings_of(properties.insert("indent_style"@, "space"@)) == (EditorConfigSettings {
            indent_char: Some(' '),
            ..settings_of(properties.remove("indent_style"@))
        }),
        settings_of(properties.remove("indent_style"@)).indent_char is None,
        settings_of(
            properties.remove("indent_style"@).remove("indent_size"@),
        ).indent_width is None,
        settings_of(properties.remove("insert_final_newline"@)).insert_final_newline is None,
        settings_of(
            properties.remove("trim_trailing_whitespace"@),
        ).trim_trailing_whitespace is None,
{
    lemma_property_names();
    lemma_set_values();
}

/// A property that is unset, in upper or lower case, says the same as one that is not there.
pub proof fn law_unset_properties_say_nothing(
    properties: Map<Seq<char>, Seq<char>>,
    key: Seq<char>,
    value: Seq<char>,
)
    requires
        same_ignoring_case(value, "unset"@),
    ensures
        settings_of(properties.insert(key, value)) == settings_of(properties.remove(key)),
{
}

proof fn lemma_property_names()
    ensures
        "indent_style"@ != "indent_size"@,
        "indent_style"@ != "insert_final_newline"@,
        "indent_style"@ != "trim_trailing_whitespace"@,
        "indent_size"@ != "insert_final_newline"@,
        "indent_size"@ != "trim_trailing_whitespace"@,
        "insert_final_newline"@ != "trim_trailing_whitespace"@,
{
    reveal_strlit("indent_style");
    reveal_strlit("indent_size");
    reveal_strlit("insert_final_newline");
    reveal_strlit("trim_trailing_whitespace");
    assert("indent_style"@.len() == 12);
    assert("indent_size"@.len() == 11);
    assert("insert_final_newline"@.len() == 20);
    assert("trim_trailing_whitespace"@.len() == 24);
}

proof fn lemma_set_values()
    ensures
        !same_ignoring_case("true"@, "unset"@),
        !same_ignoring_case("false"@, "unset"@),
        !same_ignoring_case("tab"@, "unset"@),
        !same_ignoring_case("space"@, "unset"@),
        "true"@ != "false"@,
        "tab"@ != "space"@,
{
    reveal_strlit("unset");
    reveal_strlit("true");
    reveal_strlit("false");
    reveal_strlit("tab");
    reveal_strlit("space");
    assert("true"@.len() == 4 && "false"@.len() == 5 && "tab"@.len() == 3 && "space"@.len() == 5
        && "unset"@.len() == 5);
    assert(ascii_lower("false"@[0]) != ascii_lower("unset"@[0]));
    assert(ascii_lower("space"@[0]) != ascii_lower("unset"@[0]));
}

/// A width of zero, and a text that is no number, set no width.
pub proof fn law_widths_are_greater_than_zero(
    properties: Map<Seq<char>, Seq<char>>,
    value: Seq<char>,
)
    requires
        settings_of(properties).indent_char != Some('\t'),
        value == decimal(0) || parsed_number(value, usize::MAX as nat) is None,
    ensures
        settings_of(properties.insert("indent_size"@, value)).indent_width is None,
{
    lemma_property_names();
    law_decimal_is_read_back(0, usize::MAX as nat);
}

/// Letters are the same in upper and in lower case, and nothing else is the same but itself.
pub proof fn law_only_the_case_of_letters_is_ignored(left: char, right: char)
    ensures
        same_ignoring_case(seq![left], seq![right]) <==> left == right || ('A' <= left <= 'Z'
            && right as u32 == left as u32 + 32) || ('A' <= right <= 'Z' && left as u32
            == right as u32 + 32),
{
    let a = seq![left];
    let b = seq![right];
    if same_ignoring_case(a, b) {
        assert(ascii_lower(a[0]) == ascii_lower(b[0]));
    }
    if ascii_lower(left) == ascii_lower(right) {
        assert forall|i: int| 0 <= i < a.len() implies ascii_lower(#[trigger] a[i]) == ascii_lower(
            b[i],
        ) by {}
    }
}

} // verus!
