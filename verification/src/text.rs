//! Operations on text, stated over sequences of characters.

use vstd::prelude::*;
use vstd::utf8::*;

verus! {

/// Appends one character to a string.
pub assume_specification[ String::push ](string: &mut String, ch: char)
    ensures
        final(string)@ == old(string)@.push(ch),
;

/// The error of a text that is not UTF-8.
#[verifier::external_type_specification]
#[verifier::external_body]
pub struct ExUtf8Error(core::str::Utf8Error);

/// Reads bytes as UTF-8: the characters that they encode, or an error where they encode none.
pub assume_specification[ core::str::from_utf8 ](bytes: &[u8]) -> (text: Result<
    &str,
    core::str::Utf8Error,
>)
    ensures
        match text {
            Ok(text) => valid_utf8(bytes@) && text@ == decode_utf8(bytes@),
            Err(_) => !valid_utf8(bytes@),
        },
;

/// How `std` shows a text in quotes, with its special characters escaped.
pub uninterp spec fn quoted_text(text: Seq<char>) -> Seq<char>;

/// Calls `format!` with the `Debug` form of a text: the text in quotes, with its special characters
/// escaped.
#[verifier::external_body]
pub(crate) fn quote(text: &str) -> (quoted: String)
    ensures
        quoted@ == quoted_text(text@),
{
    format!("{:?}", text)
}

/// The characters of `text`, in order.
pub fn chars_of(text: &str) -> (chars: Vec<char>)
    ensures
        chars@ == text@,
{
    let mut chars: Vec<char> = Vec::new();
    for c in it: text.chars()
        invariant
            it.seq() == text@,
            chars@ == text@.take(it.index()),
    {
        chars.push(c);
    }
    assert(text@.take(text@.len() as int) == text@);
    chars
}

/// The string made of `chars`.
pub fn string_of(chars: &[char]) -> (string: String)
    ensures
        string@ == chars@,
{
    let mut string = String::new();
    let mut i: usize = 0;
    while i < chars.len()
        invariant
            i <= chars.len(),
            string@ == chars@.take(i as int),
        decreases chars.len() - i,
    {
        string.push(chars[i]);
        i += 1;
    }
    assert(chars@.take(chars@.len() as int) == chars@);
    string
}

/// Whether two texts are the same.
pub fn str_eq(left: &str, right: &str) -> (equal: bool)
    ensures
        equal == (left@ == right@),
{
    let left_chars = chars_of(left);
    let right_chars = chars_of(right);
    chars_eq(left_chars.as_slice(), right_chars.as_slice())
}

/// Whether two runs of characters are the same.
pub fn chars_eq(left: &[char], right: &[char]) -> (equal: bool)
    ensures
        equal == (left@ == right@),
{
    if left.len() != right.len() {
        return false;
    }
    let mut i: usize = 0;
    while i < left.len()
        invariant
            i <= left.len(),
            left.len() == right.len(),
            forall|j: int| 0 <= j < i ==> left@[j] == right@[j],
        decreases left.len() - i,
    {
        if left[i] != right[i] {
            return false;
        }
        i += 1;
    }
    assert(left@ =~= right@);
    true
}

/// Whether `pattern` stands in `text` at position `at`.
pub open spec fn occurs_at(text: Seq<char>, pattern: Seq<char>, at: int) -> bool {
    &&& 0 <= at
    &&& at + pattern.len() <= text.len()
    &&& text.subrange(at, at + pattern.len()) == pattern
}

/// Whether `pattern` stands anywhere in `text`.
pub open spec fn contains_text(text: Seq<char>, pattern: Seq<char>) -> bool {
    exists|at: int| occurs_at(text, pattern, at)
}

/// Whether `pattern` stands in `text` at position `at`.
pub fn chars_occur_at(text: &[char], pattern: &[char], at: usize) -> (occurs: bool)
    ensures
        occurs == occurs_at(text@, pattern@, at as int),
{
    if at > text.len() || pattern.len() > text.len() - at {
        return false;
    }
    let mut i: usize = 0;
    while i < pattern.len()
        invariant
            i <= pattern.len(),
            at + pattern.len() <= text.len(),
            forall|j: int| 0 <= j < i ==> text@[at + j] == pattern@[j],
        decreases pattern.len() - i,
    {
        if text[at + i] != pattern[i] {
            proof {
                let window = text@.subrange(at as int, at + pattern@.len());
                assert(window[i as int] == text@[at + i]);
            }
            return false;
        }
        i += 1;
    }
    assert(text@.subrange(at as int, at + pattern@.len()) =~= pattern@);
    true
}

/// Whether `pattern` stands anywhere in `text`.
pub fn str_contains(text: &str, pattern: &str) -> (contains: bool)
    ensures
        contains == contains_text(text@, pattern@),
{
    let text_chars = chars_of(text);
    let pattern_chars = chars_of(pattern);
    let mut at: usize = 0;
    while at <= text_chars.len()
        invariant
            text_chars@ == text@,
            pattern_chars@ == pattern@,
            at <= text_chars.len() + 1,
            forall|i: int| 0 <= i < at ==> !occurs_at(text@, pattern@, i),
        decreases text_chars.len() + 1 - at,
    {
        if chars_occur_at(text_chars.as_slice(), pattern_chars.as_slice(), at) {
            return true;
        }
        if at == text_chars.len() {
            return false;
        }
        at += 1;
    }
    false
}

/// What a set of substitution rules means: each pairs a token with what stands in its place.
pub open spec fn rules_view(rules: Seq<(&str, &str)>) -> Seq<(Seq<char>, Seq<char>)> {
    rules.map_values(|rule: (&str, &str)| (rule.0@, rule.1@))
}

/// Whether the token of rule number `k` stands in `text` at position `at`.
pub open spec fn rule_applies(
    text: Seq<char>,
    rules: Seq<(Seq<char>, Seq<char>)>,
    at: int,
    k: int,
) -> bool {
    0 <= k < rules.len() && rules[k].0.len() > 0 && occurs_at(text, rules[k].0, at)
}

/// The number of the first rule from `k` on whose token stands in `text` at position `at`.
pub open spec fn first_rule(
    text: Seq<char>,
    rules: Seq<(Seq<char>, Seq<char>)>,
    at: int,
    k: int,
) -> Option<int>
    decreases rules.len() - k,
{
    if k >= rules.len() {
        None
    } else if rule_applies(text, rules, at, k) {
        Some(k)
    } else {
        first_rule(text, rules, at, k + 1)
    }
}

/// `text` from position `from` on, read once from left to right: wherever a token stands, its
/// replacement takes its place. What was put in is not read again.
pub open spec fn substitute_from(
    text: Seq<char>,
    rules: Seq<(Seq<char>, Seq<char>)>,
    from: int,
) -> Seq<char>
    decreases text.len() - from,
{
    if from < 0 || from >= text.len() {
        Seq::empty()
    } else {
        match first_rule(text, rules, from, 0) {
            Some(k) => if rule_applies(text, rules, from, k) {
                rules[k].1 + substitute_from(text, rules, from + rules[k].0.len())
            } else {
                Seq::empty()
            },
            None => seq![text[from]] + substitute_from(text, rules, from + 1),
        }
    }
}

/// `text` with every token replaced.
pub open spec fn substituted(text: Seq<char>, rules: Seq<(Seq<char>, Seq<char>)>) -> Seq<char> {
    substitute_from(text, rules, 0)
}

/// `text` with `with` wherever `pattern`, which is not empty, stood.
pub open spec fn replaced(text: Seq<char>, pattern: Seq<char>, with: Seq<char>) -> Seq<char> {
    substituted(text, seq![(pattern, with)])
}

proof fn lemma_first_rule_applies(
    text: Seq<char>,
    rules: Seq<(Seq<char>, Seq<char>)>,
    at: int,
    k: int,
)
    requires
        0 <= k,
    ensures
        match first_rule(text, rules, at, k) {
            Some(found) => {
                &&& k <= found
                &&& rule_applies(text, rules, at, found)
                &&& forall|j: int| k <= j < found ==> !rule_applies(text, rules, at, j)
            },
            None => forall|j: int| k <= j < rules.len() ==> !rule_applies(text, rules, at, j),
        },
    decreases rules.len() - k,
{
    if k < rules.len() && !rule_applies(text, rules, at, k) {
        lemma_first_rule_applies(text, rules, at, k + 1);
    }
}

/// A text in which no token stands is left as it is.
pub proof fn law_substitution_keeps_other_text(
    text: Seq<char>,
    rules: Seq<(Seq<char>, Seq<char>)>,
    from: int,
)
    requires
        0 <= from <= text.len(),
        forall|at: int, k: int| from <= at ==> !rule_applies(text, rules, at, k),
    ensures
        substitute_from(text, rules, from) == text.skip(from),
    decreases text.len() - from,
{
    if from < text.len() {
        lemma_first_rule_applies(text, rules, from, 0);
        law_substitution_keeps_other_text(text, rules, from + 1);
        assert(seq![text[from]] + text.skip(from + 1) == text.skip(from));
    } else {
        assert(text.skip(from) == Seq::<char>::empty());
    }
}

proof fn lemma_substitute_shift(
    text: Seq<char>,
    rules: Seq<(Seq<char>, Seq<char>)>,
    by: int,
    from: int,
)
    requires
        0 <= by <= text.len(),
        0 <= from,
    ensures
        substitute_from(text.skip(by), rules, from) == substitute_from(text, rules, by + from),
    decreases text.len() - by - from,
{
    let rest = text.skip(by);
    if from < rest.len() {
        assert forall|k: int| rule_applies(rest, rules, from, k) == rule_applies(
            text,
            rules,
            by + from,
            k,
        ) by {
            if 0 <= k < rules.len() {
                let token = rules[k].0;
                if from + token.len() <= rest.len() {
                    assert(rest.subrange(from, from + token.len()) == text.subrange(
                        by + from,
                        by + from + token.len(),
                    ));
                }
            }
        }
        lemma_first_rule_same(rest, from, text, by + from, rules, 0);
        lemma_first_rule_applies(rest, rules, from, 0);
        match first_rule(rest, rules, from, 0) {
            Some(k) => {
                lemma_substitute_shift(text, rules, by, from + rules[k].0.len());
            },
            None => {
                lemma_substitute_shift(text, rules, by, from + 1);
            },
        }
    }
}

proof fn lemma_first_rule_same(
    left: Seq<char>,
    left_at: int,
    right: Seq<char>,
    right_at: int,
    rules: Seq<(Seq<char>, Seq<char>)>,
    k: int,
)
    requires
        0 <= k,
        forall|j: int|
            rule_applies(left, rules, left_at, j) == rule_applies(right, rules, right_at, j),
    ensures
        first_rule(left, rules, left_at, k) == first_rule(right, rules, right_at, k),
    decreases rules.len() - k,
{
    if k < rules.len() {
        assert(rule_applies(left, rules, left_at, k) == rule_applies(right, rules, right_at, k));
        lemma_first_rule_same(left, left_at, right, right_at, rules, k + 1);
    }
}

/// Where a text begins with a token, the result begins with the token's replacement, and the rest
/// of the result comes from the rest of the text alone: the replacement is not read again, whatever
/// tokens it holds.
pub proof fn law_replacements_are_not_reprocessed(
    text: Seq<char>,
    rules: Seq<(Seq<char>, Seq<char>)>,
    k: int,
)
    requires
        rule_applies(text, rules, 0, k),
        forall|j: int| 0 <= j < k ==> !rule_applies(text, rules, 0, j),
    ensures
        substituted(text, rules) == rules[k].1 + substituted(
            text.skip(rules[k].0.len() as int),
            rules,
        ),
{
    lemma_first_rule_applies(text, rules, 0, 0);
    lemma_substitute_shift(text, rules, rules[k].0.len() as int, 0);
}

proof fn lemma_substitution_splits_from(
    a: Seq<char>,
    b: Seq<char>,
    rules: Seq<(Seq<char>, Seq<char>)>,
    mark: char,
    from: int,
)
    requires
        0 <= from <= a.len(),
        b.len() > 0,
        b[0] == mark,
        forall|k: int, j: int|
            0 <= k < rules.len() && 0 < j < rules[k].0.len() ==> #[trigger] rules[k].0[j] != mark,
    ensures
        substitute_from(a + b, rules, from) == substitute_from(a, rules, from) + substituted(
            b,
            rules,
        ),
    decreases a.len() - from,
{
    let whole = a + b;
    if from == a.len() {
        assert(whole.skip(from) =~= b);
        lemma_substitute_shift(whole, rules, from, 0);
        assert(substitute_from(a, rules, from) + substituted(b, rules) =~= substituted(b, rules));
    } else {
        assert forall|k: int| rule_applies(whole, rules, from, k) == rule_applies(
            a,
            rules,
            from,
            k,
        ) by {
            if 0 <= k < rules.len() {
                let token = rules[k].0;
                let end = from + token.len();
                if end <= a.len() {
                    assert(whole.subrange(from, end) =~= a.subrange(from, end));
                } else if rule_applies(whole, rules, from, k) {
                    assert(whole.subrange(from, end)[a.len() - from] == b[0]);
                    assert(token[a.len() - from] == mark);
                }
            }
        }
        lemma_first_rule_same(whole, from, a, from, rules, 0);
        lemma_first_rule_applies(a, rules, from, 0);
        let rest = substituted(b, rules);
        match first_rule(a, rules, from, 0) {
            Some(k) => {
                let next = from + rules[k].0.len();
                lemma_substitution_splits_from(a, b, rules, mark, next);
                assert(rules[k].1 + (substitute_from(a, rules, next) + rest) =~= rules[k].1
                    + substitute_from(a, rules, next) + rest);
            },
            None => {
                lemma_substitution_splits_from(a, b, rules, mark, from + 1);
                assert(seq![a[from]] + (substitute_from(a, rules, from + 1) + rest) =~= seq![
                    a[from],
                ] + substitute_from(a, rules, from + 1) + rest);
            },
        }
    }
}

/// Where no token has the character `mark` but at its beginning, a text can be taken apart before
/// any `mark`: both parts come to what they would come to alone.
pub proof fn law_substitution_splits(
    a: Seq<char>,
    b: Seq<char>,
    rules: Seq<(Seq<char>, Seq<char>)>,
    mark: char,
)
    requires
        b.len() > 0,
        b[0] == mark,
        forall|k: int, j: int|
            0 <= k < rules.len() && 0 < j < rules[k].0.len() ==> #[trigger] rules[k].0[j] != mark,
    ensures
        substituted(a + b, rules) == substituted(a, rules) + substituted(b, rules),
{
    lemma_substitution_splits_from(a, b, rules, mark, 0);
}

/// `text` with every token replaced, in one pass from left to right.
pub fn substitute(text: &str, rules: &[(&str, &str)]) -> (result: String)
    ensures
        result@ == substituted(text@, rules_view(rules@)),
{
    let ghost meaning = rules_view(rules@);
    let chars = chars_of(text);
    let mut tokens: Vec<Vec<char>> = Vec::new();
    let mut n: usize = 0;
    while n < rules.len()
        invariant
            n <= rules.len(),
            tokens@.len() == n,
            meaning == rules_view(rules@),
            forall|j: int| 0 <= j < n ==> (#[trigger] tokens@[j])@ == meaning[j].0,
        decreases rules.len() - n,
    {
        tokens.push(chars_of(rules[n].0));
        n += 1;
    }
    let mut result = String::new();
    let mut i: usize = 0;
    while i < chars.len()
        invariant
            i <= chars.len(),
            chars@ == text@,
            tokens@.len() == rules@.len(),
            meaning == rules_view(rules@),
            forall|j: int| 0 <= j < tokens@.len() ==> (#[trigger] tokens@[j])@ == meaning[j].0,
            result@ + substitute_from(text@, meaning, i as int) == substituted(text@, meaning),
        decreases chars.len() - i,
    {
        let mut k: usize = 0;
        while k < tokens.len() && !(tokens[k].len() > 0 && chars_occur_at(
            chars.as_slice(),
            tokens[k].as_slice(),
            i,
        ))
            invariant
                k <= tokens.len(),
                i < chars.len(),
                chars@ == text@,
                tokens@.len() == meaning.len(),
                forall|j: int| 0 <= j < tokens@.len() ==> (#[trigger] tokens@[j])@ == meaning[j].0,
                first_rule(text@, meaning, i as int, 0) == first_rule(
                    text@,
                    meaning,
                    i as int,
                    k as int,
                ),
            decreases tokens.len() - k,
        {
            k += 1;
        }
        if k < tokens.len() {
            assert(rule_applies(text@, meaning, i as int, k as int));
            assert(result@ + (meaning[k as int].1 + substitute_from(
                text@,
                meaning,
                i + meaning[k as int].0.len(),
            )) == (result@ + meaning[k as int].1) + substitute_from(
                text@,
                meaning,
                i + meaning[k as int].0.len(),
            ));
            result.append(rules[k].1);
            i += tokens[k].len();
        } else {
            assert(result@ + (seq![chars@[i as int]] + substitute_from(text@, meaning, i + 1))
                == result@.push(chars@[i as int]) + substitute_from(text@, meaning, i + 1));
            result.push(chars[i]);
            i += 1;
        }
    }
    assert(result@ + Seq::<char>::empty() == result@);
    result
}

/// `text` with `with` wherever `pattern` stood.
pub fn replace(text: &str, pattern: &str, with: &str) -> (result: String)
    ensures
        result@ == replaced(text@, pattern@, with@),
{
    let rules = [(pattern, with)];
    let result = substitute(text, &rules);
    assert(rules_view(rules@) == seq![(pattern@, with@)]);
    result
}

/// Whether `c` is white space in the sense of Unicode.
pub open spec fn is_white_space(c: char) -> bool {
    ||| '\u{9}' <= c <= '\u{d}'
    ||| c == ' '
    ||| c == '\u{85}'
    ||| c == '\u{a0}'
    ||| c == '\u{1680}'
    ||| '\u{2000}' <= c <= '\u{200a}'
    ||| c == '\u{2028}'
    ||| c == '\u{2029}'
    ||| c == '\u{202f}'
    ||| c == '\u{205f}'
    ||| c == '\u{3000}'
}

/// Whether `c` is white space in the sense of Unicode.
pub fn white_space(c: char) -> (white: bool)
    ensures
        white == is_white_space(c),
{
    ('\u{9}' <= c && c <= '\u{d}') || c == ' ' || c == '\u{85}' || c == '\u{a0}' || c == '\u{1680}'
        || ('\u{2000}' <= c && c <= '\u{200a}') || c == '\u{2028}' || c == '\u{2029}' || c
        == '\u{202f}' || c == '\u{205f}' || c == '\u{3000}'
}

/// `text` without the white space that it begins with.
pub open spec fn trimmed_start(text: Seq<char>) -> Seq<char>
    decreases text.len(),
{
    if text.len() > 0 && is_white_space(text[0]) {
        trimmed_start(text.skip(1))
    } else {
        text
    }
}

/// `text` without the white space that it ends with.
pub open spec fn trimmed_end(text: Seq<char>) -> Seq<char>
    decreases text.len(),
{
    if text.len() > 0 && is_white_space(text.last()) {
        trimmed_end(text.drop_last())
    } else {
        text
    }
}

/// `text` without the white space at both of its ends.
pub open spec fn trimmed(text: Seq<char>) -> Seq<char> {
    trimmed_end(trimmed_start(text))
}

/// `text` without the white space at both of its ends.
pub fn trim(text: &[char]) -> (result: Vec<char>)
    ensures
        result@ == trimmed(text@),
{
    let mut start: usize = 0;
    assert(text@.skip(0) == text@);
    while start < text.len() && white_space(text[start])
        invariant
            start <= text.len(),
            trimmed_start(text@) == trimmed_start(text@.skip(start as int)),
        decreases text.len() - start,
    {
        assert(text@.skip(start as int).skip(1) == text@.skip(start + 1));
        start += 1;
    }
    let ghost kept = text@.skip(start as int);
    let mut end: usize = text.len();
    assert(kept.take(end - start) == kept);
    while start < end && white_space(text[end - 1])
        invariant
            start <= end <= text.len(),
            kept == text@.skip(start as int),
            trimmed_end(kept) == trimmed_end(kept.take(end - start)),
        decreases end - start,
    {
        assert(kept.take(end - start).drop_last() == kept.take(end - start - 1));
        assert(kept.take(end - start).last() == text@[end - 1]);
        end -= 1;
    }
    assert(end > start ==> kept.take(end - start).last() == text@[end - 1]);
    chars_between(text, start, end)
}

/// The characters of `text` from `start` up to `end`.
pub fn chars_between(text: &[char], start: usize, end: usize) -> (result: Vec<char>)
    requires
        start <= end <= text.len(),
    ensures
        result@ == text@.subrange(start as int, end as int),
{
    let mut result: Vec<char> = Vec::new();
    let mut i: usize = start;
    while i < end
        invariant
            start <= i <= end <= text.len(),
            result@ == text@.subrange(start as int, i as int),
        decreases end - i,
    {
        result.push(text[i]);
        i += 1;
    }
    result
}

/// The bytes from `start` up to `end`.
pub fn bytes_between(bytes: &[u8], start: usize, end: usize) -> (result: Vec<u8>)
    requires
        start <= end <= bytes.len(),
    ensures
        result@ == bytes@.subrange(start as int, end as int),
{
    let mut result: Vec<u8> = Vec::new();
    let mut i: usize = start;
    while i < end
        invariant
            start <= i <= end <= bytes.len(),
            result@ == bytes@.subrange(start as int, i as int),
        decreases end - i,
    {
        result.push(bytes[i]);
        i += 1;
    }
    result
}

/// The texts of a list of strings.
pub open spec fn texts(list: Seq<String>) -> Seq<Seq<char>> {
    list.map_values(|text: String| text@)
}

/// The texts of a list, one behind the other, with `separator` between each two.
pub open spec fn joined_texts(list: Seq<Seq<char>>, separator: Seq<char>) -> Seq<char>
    decreases list.len(),
{
    if list.len() == 0 {
        Seq::empty()
    } else if list.len() == 1 {
        list[0]
    } else {
        joined_texts(list.drop_last(), separator) + separator + list.last()
    }
}

/// The strings of a list, one behind the other, with `separator` between each two.
pub fn join_texts(list: &[String], separator: &str) -> (result: String)
    ensures
        result@ == joined_texts(texts(list@), separator@),
{
    let mut result = String::new();
    let ghost all = texts(list@);
    let mut i: usize = 0;
    while i < list.len()
        invariant
            i <= list.len(),
            all == texts(list@),
            result@ == joined_texts(all.take(i as int), separator@),
        decreases list.len() - i,
    {
        assert(all.take(i + 1).drop_last() == all.take(i as int));
        assert(all.take(i + 1).last() == list@[i as int]@);
        if i > 0 {
            result.append(separator);
        }
        result.append(list[i].as_str());
        assert(i == 0 ==> result@ =~= list@[0]@);
        i += 1;
    }
    assert(all.take(list@.len() as int) == all);
    result
}

/// A list of the same strings.
pub fn copy_texts(list: &[String]) -> (copy: Vec<String>)
    ensures
        copy@ == list@,
{
    let mut copy: Vec<String> = Vec::new();
    let mut i: usize = 0;
    while i < list.len()
        invariant
            i <= list.len(),
            copy@ == list@.take(i as int),
        decreases list.len() - i,
    {
        copy.push(list[i].clone());
        i += 1;
    }
    assert(list@.take(list@.len() as int) == list@);
    copy
}

/// Whether `c` stands anywhere in `text`.
pub fn str_has(text: &str, c: char) -> (has: bool)
    ensures
        has == text@.contains(c),
{
    let chars = chars_of(text);
    let mut i: usize = 0;
    while i < chars.len()
        invariant
            i <= chars.len(),
            chars@ == text@,
            forall|j: int| 0 <= j < i ==> chars@[j] != c,
        decreases chars.len() - i,
    {
        if chars[i] == c {
            assert(text@[i as int] == c);
            return true;
        }
        i += 1;
    }
    false
}

/// What stands between the separators of a text, before the first and behind the last one.
pub open spec fn pieces(text: Seq<char>, separator: char) -> Seq<Seq<char>>
    decreases text.len(),
{
    if text.len() == 0 {
        seq![Seq::empty()]
    } else {
        let before = pieces(text.drop_last(), separator);
        if text.last() == separator {
            before.push(Seq::empty())
        } else {
            before.drop_last().push(before.last().push(text.last()))
        }
    }
}

/// What stands between the separators of a text. See [`pieces`].
pub fn split(text: &str, separator: char) -> (list: Vec<String>)
    ensures
        texts(list@) == pieces(text@, separator),
{
    let chars = chars_of(text);
    let mut list: Vec<String> = Vec::new();
    let mut piece = String::new();
    let mut i: usize = 0;
    assert(texts(list@).push(piece@) =~= pieces(chars@.take(0), separator));
    while i < chars.len()
        invariant
            i <= chars.len(),
            chars@ == text@,
            texts(list@).push(piece@) == pieces(chars@.take(i as int), separator),
        decreases chars.len() - i,
    {
        assert(chars@.take(i + 1).drop_last() == chars@.take(i as int));
        assert(chars@.take(i + 1).last() == chars@[i as int]);
        let ghost before = texts(list@).push(piece@);
        assert(before.drop_last() =~= texts(list@));
        if chars[i] == separator {
            list.push(piece);
            piece = String::new();
            assert(texts(list@) =~= before);
        } else {
            piece.push(chars[i]);
        }
        i += 1;
    }
    assert(chars@.take(chars@.len() as int) == chars@);
    let ghost before = texts(list@).push(piece@);
    list.push(piece);
    assert(texts(list@) =~= before);
    list
}

/// The text of an optional string.
pub open spec fn text_of(text: Option<&str>) -> Option<Seq<char>> {
    match text {
        Some(text) => Some(text@),
        None => None,
    }
}

/// An optional string, borrowed.
pub fn str_of(text: &Option<String>) -> (borrowed: Option<&str>)
    ensures
        match *text {
            Some(text) => text_of(borrowed) == Some(text@),
            None => borrowed is None,
        },
{
    match text {
        Some(text) => Some(text.as_str()),
        None => None,
    }
}

/// A character, in lower case where it is an ASCII letter.
pub open spec fn ascii_lower(c: char) -> char {
    if 'A' <= c && c <= 'Z' {
        ((c as u8) + 32) as u8 as char
    } else {
        c
    }
}

/// Whether two texts are the same but for the case of ASCII letters.
pub open spec fn same_ignoring_case(left: Seq<char>, right: Seq<char>) -> bool {
    &&& left.len() == right.len()
    &&& forall|i: int|
        0 <= i < left.len() ==> ascii_lower(#[trigger] left[i]) == ascii_lower(right[i])
}

fn lower(c: char) -> (lowered: char)
    ensures
        lowered == ascii_lower(c),
{
    if 'A' <= c && c <= 'Z' {
        ((c as u8) + 32) as char
    } else {
        c
    }
}

/// Whether two texts are the same but for the case of ASCII letters.
pub fn eq_ignore_case(left: &[char], right: &[char]) -> (same: bool)
    ensures
        same == same_ignoring_case(left@, right@),
{
    if left.len() != right.len() {
        return false;
    }
    let mut i: usize = 0;
    while i < left.len()
        invariant
            i <= left.len(),
            left.len() == right.len(),
            forall|j: int|
                0 <= j < i ==> ascii_lower(#[trigger] left@[j]) == ascii_lower(right@[j]),
        decreases left.len() - i,
    {
        if lower(left[i]) != lower(right[i]) {
            return false;
        }
        i += 1;
    }
    true
}

/// Items that were separated stay the same when they are joined again.
pub proof fn law_pieces_are_joined_back(text: Seq<char>, separator: char)
    ensures
        pieces(text, separator).len() > 0,
        joined_texts(pieces(text, separator), seq![separator]) == text,
        forall|i: int|
            0 <= i < pieces(text, separator).len() ==> !(#[trigger] pieces(
                text,
                separator,
            )[i]).contains(separator),
    decreases text.len(),
{
    let list = pieces(text, separator);
    if text.len() == 0 {
        assert(list[0] == Seq::<char>::empty());
        assert(joined_texts(list, seq![separator]) =~= text);
    } else {
        let before = pieces(text.drop_last(), separator);
        law_pieces_are_joined_back(text.drop_last(), separator);
        assert(text =~= text.drop_last().push(text.last()));
        if text.last() == separator {
            assert(list.drop_last() =~= before);
            assert(joined_texts(list, seq![separator]) =~= text);
            assert forall|i: int| 0 <= i < list.len() implies !(#[trigger] list[i]).contains(
                separator,
            ) by {
                if i < before.len() {
                    assert(list[i] == before[i]);
                }
            }
        } else {
            assert(list.drop_last() =~= before.drop_last());
            assert(list.last() == before.last().push(text.last()));
            if list.len() == 1 {
                assert(before =~= seq![before[0]]);
                assert(joined_texts(list, seq![separator]) =~= text);
            } else {
                assert(joined_texts(list, seq![separator]) =~= joined_texts(
                    before,
                    seq![separator],
                ).push(text.last()));
            }
            assert forall|i: int| 0 <= i < list.len() implies !(#[trigger] list[i]).contains(
                separator,
            ) by {
                if i < before.len() - 1 {
                    assert(list[i] == before[i]);
                } else {
                    let last = before.last();
                    assert(last == before[before.len() - 1]);
                    assert forall|k: int| 0 <= k < list[i].len() implies list[i][k]
                        != separator by {
                        if k < last.len() {
                            assert(last.contains(last[k]));
                        }
                    }
                }
            }
        }
    }
}

proof fn lemma_pieces_append(text: Seq<char>, piece: Seq<char>, separator: char)
    requires
        !piece.contains(separator),
    ensures
        pieces(text + piece, separator) == pieces(text, separator).drop_last().push(
            pieces(text, separator).last() + piece,
        ),
    decreases piece.len(),
{
    law_pieces_are_joined_back(text, separator);
    let list = pieces(text, separator);
    if piece.len() == 0 {
        assert(text + piece =~= text);
        assert(list.last() + piece =~= list.last());
        assert(list.drop_last().push(list.last()) =~= list);
    } else {
        let shorter = piece.drop_last();
        assert(!shorter.contains(separator)) by {
            if shorter.contains(separator) {
                let k = choose|k: int| 0 <= k < shorter.len() && shorter[k] == separator;
                assert(piece[k] == separator);
            }
        }
        lemma_pieces_append(text, shorter, separator);
        assert((text + piece).drop_last() =~= text + shorter);
        assert((text + piece).last() == piece.last());
        assert(piece.last() != separator) by {
            assert(piece.contains(piece.last()));
        }
        let before = pieces(text + shorter, separator);
        assert(before.drop_last() =~= list.drop_last());
        assert(before.last() == list.last() + shorter);
        assert((list.last() + shorter).push(piece.last()) =~= list.last() + piece);
    }
}

/// Items that do not hold the separator stay the same when they are joined and separated again.
pub proof fn law_joined_texts_are_separated_again(list: Seq<Seq<char>>, separator: char)
    requires
        list.len() > 0,
        forall|i: int| 0 <= i < list.len() ==> !(#[trigger] list[i]).contains(separator),
    ensures
        pieces(joined_texts(list, seq![separator]), separator) == list,
    decreases list.len(),
{
    let empty = Seq::<char>::empty();
    if list.len() == 1 {
        lemma_pieces_append(empty, list[0], separator);
        assert(empty + list[0] =~= list[0]);
        assert(pieces(empty, separator) =~= seq![empty]);
        assert(pieces(list[0], separator) =~= list);
    } else {
        let rest = list.drop_last();
        assert forall|i: int| 0 <= i < rest.len() implies !(#[trigger] rest[i]).contains(
            separator,
        ) by {
            assert(rest[i] == list[i]);
        }
        law_joined_texts_are_separated_again(rest, separator);
        let text = joined_texts(rest, seq![separator]) + seq![separator];
        assert(text.drop_last() =~= joined_texts(rest, seq![separator]));
        assert(pieces(text, separator) == rest.push(empty));
        assert(!list[list.len() - 1].contains(separator));
        lemma_pieces_append(text, list.last(), separator);
        assert(rest.push(empty).drop_last() =~= rest);
        assert(empty + list.last() =~= list.last());
        assert(rest.push(list.last()) =~= list);
    }
}

/// Whether a text comes before another one in the order of characters by their code points.
pub open spec fn text_precedes(left: Seq<char>, right: Seq<char>) -> bool
    decreases left.len(),
{
    if right.len() == 0 {
        false
    } else if left.len() == 0 {
        true
    } else if left[0] == right[0] {
        text_precedes(left.skip(1), right.skip(1))
    } else {
        left[0] < right[0]
    }
}

/// Of two different texts, exactly one comes before the other.
pub proof fn law_texts_are_in_order(left: Seq<char>, right: Seq<char>)
    ensures
        left == right ==> !text_precedes(left, right),
        left != right ==> (text_precedes(left, right) <==> !text_precedes(right, left)),
    decreases left.len(),
{
    if left.len() == 0 || right.len() == 0 {
        assert(left.len() == right.len() ==> left =~= right);
    } else if left[0] == right[0] {
        law_texts_are_in_order(left.skip(1), right.skip(1));
        if left.skip(1) == right.skip(1) {
            assert(left =~= seq![left[0]] + left.skip(1));
            assert(right =~= seq![right[0]] + right.skip(1));
        }
    }
}

/// The order of texts is transitive.
pub proof fn law_text_order_is_transitive(first: Seq<char>, second: Seq<char>, third: Seq<char>)
    requires
        text_precedes(first, second),
        text_precedes(second, third),
    ensures
        text_precedes(first, third),
    decreases first.len(),
{
    if first.len() > 0 && second.len() > 0 && third.len() > 0 && first[0] == second[0] && second[0]
        == third[0] {
        law_text_order_is_transitive(first.skip(1), second.skip(1), third.skip(1));
    }
}

/// Whether a text comes before another one. See [`text_precedes`].
pub fn precedes(first: &str, second: &str) -> (precedes: bool)
    ensures
        precedes == text_precedes(first@, second@),
{
    let left = chars_of(first);
    let right = chars_of(second);
    let mut i: usize = 0;
    assert(left@.skip(0) == left@);
    assert(right@.skip(0) == right@);
    while i < left.len() && i < right.len()
        invariant
            i <= left.len(),
            i <= right.len(),
            left@ == first@,
            right@ == second@,
            text_precedes(left@, right@) == text_precedes(
                left@.skip(i as int),
                right@.skip(i as int),
            ),
        decreases left.len() - i,
    {
        assert(left@.skip(i as int).skip(1) == left@.skip(i + 1));
        assert(right@.skip(i as int).skip(1) == right@.skip(i + 1));
        if left[i] != right[i] {
            return left[i] < right[i];
        }
        i += 1;
    }
    left.len() < right.len()
}

proof fn lemma_precedes_at(left: Seq<char>, right: Seq<char>, at: int)
    requires
        0 <= at <= left.len(),
        at <= right.len(),
        left.take(at) == right.take(at),
    ensures
        at == left.len() && at < right.len() ==> text_precedes(left, right),
        at == right.len() ==> !text_precedes(left, right),
        at < left.len() && at < right.len() && left[at] != right[at] ==> (text_precedes(left, right)
            <==> left[at] < right[at]),
    decreases at,
{
    if at > 0 {
        assert forall|i: int| 0 <= i < at implies #[trigger] left[i] == right[i] by {
            assert(left.take(at)[i] == left[i]);
            assert(right.take(at)[i] == right[i]);
        }
        assert(left.skip(1).take(at - 1) =~= right.skip(1).take(at - 1));
        lemma_precedes_at(left.skip(1), right.skip(1), at - 1);
        assert(at < left.len() ==> left.skip(1)[at - 1] == left[at]);
        assert(at < right.len() ==> right.skip(1)[at - 1] == right[at]);
    }
}

/// Texts are in the order of the first characters in which they differ. Where they differ in none,
/// the shorter one comes first.
pub proof fn law_the_first_difference_decides(left: Seq<char>, right: Seq<char>, at: int)
    requires
        0 <= at <= left.len(),
        at <= right.len(),
        left.take(at) == right.take(at),
    ensures
        at == left.len() && at < right.len() ==> text_precedes(left, right) && !text_precedes(
            right,
            left,
        ),
        at < left.len() && at < right.len() && left[at] < right[at] ==> text_precedes(left, right)
            && !text_precedes(right, left),
{
    lemma_precedes_at(left, right, at);
    lemma_precedes_at(right, left, at);
}

proof fn lemma_trimmed_start(text: Seq<char>)
    ensures
        trimmed_start(text).len() <= text.len(),
        trimmed_start(text) == text.skip(text.len() - trimmed_start(text).len()),
        forall|k: int|
            0 <= k < text.len() - trimmed_start(text).len() ==> is_white_space(#[trigger] text[k]),
        trimmed_start(text).len() > 0 ==> !is_white_space(trimmed_start(text)[0]),
    decreases text.len(),
{
    if text.len() > 0 && is_white_space(text[0]) {
        let rest = text.skip(1);
        lemma_trimmed_start(rest);
        let cut: int = text.len() - trimmed_start(text).len();
        assert(rest.skip(cut - 1) =~= text.skip(cut));
        assert forall|k: int| 0 <= k < cut implies is_white_space(#[trigger] text[k]) by {
            if k > 0 {
                assert(rest[k - 1] == text[k]);
            }
        }
    } else {
        assert(text.skip(0) =~= text);
    }
}

proof fn lemma_trimmed_end(text: Seq<char>)
    ensures
        trimmed_end(text).len() <= text.len(),
        trimmed_end(text) == text.take(trimmed_end(text).len() as int),
        forall|k: int|
            trimmed_end(text).len() <= k < text.len() ==> is_white_space(#[trigger] text[k]),
        trimmed_end(text).len() > 0 ==> !is_white_space(trimmed_end(text).last()),
    decreases text.len(),
{
    if text.len() > 0 && is_white_space(text.last()) {
        let rest = text.drop_last();
        lemma_trimmed_end(rest);
        let kept = trimmed_end(text).len() as int;
        assert(rest.take(kept) =~= text.take(kept));
        assert forall|k: int| kept <= k < text.len() implies is_white_space(#[trigger] text[k]) by {
            if k < rest.len() {
                assert(rest[k] == text[k]);
            }
        }
    } else {
        assert(text.take(text.len() as int) =~= text);
    }
}

/// Whether `kept` is what stands in a text from `from` on, with nothing but white space before it
/// and behind it.
pub open spec fn is_all_but_white_space(text: Seq<char>, kept: Seq<char>, from: int) -> bool {
    &&& 0 <= from <= text.len() - kept.len()
    &&& kept == text.subrange(from, from + kept.len())
    &&& forall|k: int|
        0 <= k < text.len() && (k < from || k >= from + kept.len()) ==> is_white_space(
            #[trigger] text[k],
        )
}

/// Trimming cuts white space off both ends of a text, all of it, and nothing else.
pub proof fn law_trimming_cuts_white_space(text: Seq<char>)
    ensures
        exists|from: int| #[trigger] is_all_but_white_space(text, trimmed(text), from),
        trimmed(text).len() > 0 ==> !is_white_space(trimmed(text)[0]) && !is_white_space(
            trimmed(text).last(),
        ),
{
    lemma_trimmed_start(text);
    let start = trimmed_start(text);
    lemma_trimmed_end(start);
    let kept = trimmed(text);
    let from: int = text.len() - start.len();
    assert(kept =~= text.subrange(from, from + kept.len()));
    assert forall|k: int|
        0 <= k < text.len() && (k < from || k >= from + kept.len()) implies is_white_space(
        #[trigger] text[k],
    ) by {
        if k >= from {
            assert(start[k - from] == text[k]);
        }
    }
    assert(is_all_but_white_space(text, kept, from));
}

/// A part of a text stands in it.
pub proof fn law_parts_are_contained(before: Seq<char>, part: Seq<char>, behind: Seq<char>)
    ensures
        contains_text(before + part + behind, part),
{
    let text = before + part + behind;
    let at = before.len() as int;
    assert(text.subrange(at, at + part.len()) =~= part);
    assert(occurs_at(text, part, at));
}

} // verus!
