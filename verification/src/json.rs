//! JSON values.
//!
//! A [`Json`] owns plain data, so that the rules of the library can read it. Its meaning is a
//! [`JsonSpec`], in which the members of an object have an order: the one in which they are
//! printed.
//! Reading JSON text is the work of `serde_json`, which keeps the members of an object by their
//! names. See [`by_name`].

use crate::decimal::{decimal, print_number, print_signed, signed_decimal};
use crate::text::{
    join_texts, joined_texts, law_text_order_is_transitive, law_texts_are_in_order, str_eq,
    text_precedes, texts,
};
use vstd::prelude::*;

verus! {

/// The meaning of a JSON value.
pub enum JsonSpec {
    Null,
    Bool(bool),
    Unsigned(u64),
    Negative(i64),
    Fraction(serde_json::Number),
    Text(Seq<char>),
    Array(Seq<JsonSpec>),
    Object(Seq<(Seq<char>, JsonSpec)>),
}

/// A number that is no integer of 64 bits.
#[derive(Debug)]
pub struct Fraction {
    number: serde_json::Number,
}

/// A JSON value.
#[derive(Debug)]
pub enum Json {
    Null,
    Bool(bool),
    /// An integer that is not negative.
    Unsigned(u64),
    /// An integer. One that is not negative means the same as the `Unsigned` one.
    Signed(i64),
    Fraction(Fraction),
    Text(String),
    Array(Vec<Json>),
    /// The members of an object, in the order in which they are printed. Of two members with one
    /// name the later counts.
    Object(Vec<(String, Json)>),
}

/// A JSON value of `serde_json`.
#[verifier::external_type_specification]
#[verifier::external_body]
pub struct ExValue(serde_json::Value);

/// A JSON number of `serde_json`.
#[verifier::external_type_specification]
#[verifier::external_body]
pub struct ExNumber(serde_json::Number);

/// An error of `serde_json`.
#[verifier::external_type_specification]
#[verifier::external_body]
pub struct ExError(serde_json::Error);

impl Json {
    /// What the value means.
    pub open spec fn spec_view(self) -> JsonSpec
        decreases self,
    {
        match self {
            Json::Null => JsonSpec::Null,
            Json::Bool(value) => JsonSpec::Bool(value),
            Json::Unsigned(value) => JsonSpec::Unsigned(value),
            Json::Signed(value) => if value >= 0 {
                JsonSpec::Unsigned(value as u64)
            } else {
                JsonSpec::Negative(value)
            },
            Json::Fraction(fraction) => JsonSpec::Fraction(fraction.spec_number()),
            Json::Text(text) => JsonSpec::Text(text@),
            Json::Array(items) => JsonSpec::Array(
                Seq::new(
                    items@.len(),
                    |i: int|
                        if 0 <= i < items@.len() {
                            items@[i].spec_view()
                        } else {
                            JsonSpec::Null
                        },
                ),
            ),
            Json::Object(members) => JsonSpec::Object(
                Seq::new(
                    members@.len(),
                    |i: int|
                        if 0 <= i < members@.len() {
                            (members@[i].0@, members@[i].1.spec_view())
                        } else {
                            (Seq::empty(), JsonSpec::Null)
                        },
                ),
            ),
        }
    }
}

impl Fraction {
    pub closed spec fn spec_number(self) -> serde_json::Number {
        self.number
    }
}

/// What a list of values means.
pub open spec fn items_view(items: Seq<Json>) -> Seq<JsonSpec> {
    items.map_values(|item: Json| item.spec_view())
}

impl View for Json {
    type V = JsonSpec;

    open spec fn view(&self) -> JsonSpec {
        self.spec_view()
    }
}

/// What a JSON value of `serde_json` holds: the members of objects in the order in which
/// `serde_json` keeps them, by their names.
pub uninterp spec fn value_content(value: serde_json::Value) -> JsonSpec;

/// What `serde_json` reads from a text, if it is JSON.
pub uninterp spec fn parsed_json(text: Seq<char>) -> Option<JsonSpec>;

/// A text as `serde_json` prints it: in quotation marks, with escapes where they are needed.
pub uninterp spec fn string_text(text: Seq<char>) -> Seq<char>;

/// A number as `serde_json` prints it.
pub uninterp spec fn number_text(number: serde_json::Number) -> Seq<char>;

/// What `serde_json` shows of a value for debugging, on several lines.
pub uninterp spec fn shown_json(content: JsonSpec) -> Seq<char>;

/// What `serde_json` says is wrong with a text as JSON, or nothing where it is JSON.
pub uninterp spec fn json_fault(text: Seq<char>) -> Seq<char>;

/// The text of a value, without white space. The members of an object come in their order.
pub open spec fn json_text(content: JsonSpec) -> Seq<char>
    decreases content,
{
    match content {
        JsonSpec::Null => "null"@,
        JsonSpec::Bool(value) => if value {
            "true"@
        } else {
            "false"@
        },
        JsonSpec::Unsigned(value) => decimal(value as nat),
        JsonSpec::Negative(value) => signed_decimal(value as int),
        JsonSpec::Fraction(number) => number_text(number),
        JsonSpec::Text(text) => string_text(text),
        JsonSpec::Array(items) => "["@ + joined_texts(item_texts(items), ","@) + "]"@,
        JsonSpec::Object(members) => "{"@ + joined_texts(member_texts(members), ","@) + "}"@,
    }
}

/// The texts of some values.
pub open spec fn item_texts(items: Seq<JsonSpec>) -> Seq<Seq<char>>
    decreases items,
{
    Seq::new(
        items.len(),
        |i: int|
            if 0 <= i < items.len() {
                json_text(items[i])
            } else {
                Seq::empty()
            },
    )
}

/// The texts of some members of an object.
pub open spec fn member_texts(members: Seq<(Seq<char>, JsonSpec)>) -> Seq<Seq<char>>
    decreases members,
{
    Seq::new(
        members.len(),
        |i: int|
            if 0 <= i < members.len() {
                string_text(members[i].0) + ":"@ + json_text(members[i].1)
            } else {
                Seq::empty()
            },
    )
}

/// The members of an object, which are in the order of their names, with one more, or with another
/// value for it.
pub open spec fn put_member(
    members: Seq<(Seq<char>, JsonSpec)>,
    name: Seq<char>,
    value: JsonSpec,
) -> Seq<(Seq<char>, JsonSpec)>
    decreases members.len(),
{
    if members.len() == 0 || text_precedes(name, members[0].0) {
        seq![(name, value)] + members
    } else if members[0].0 == name {
        seq![(name, value)] + members.skip(1)
    } else {
        seq![members[0]] + put_member(members.skip(1), name, value)
    }
}

/// The same value with the members of all objects in the order of their names, each name once.
pub open spec fn by_name(content: JsonSpec) -> JsonSpec
    decreases content,
{
    match content {
        JsonSpec::Array(items) => JsonSpec::Array(
            Seq::new(
                items.len(),
                |i: int|
                    if 0 <= i < items.len() {
                        by_name(items[i])
                    } else {
                        JsonSpec::Null
                    },
            ),
        ),
        JsonSpec::Object(members) => JsonSpec::Object(members_by_name(members)),
        other => other,
    }
}

/// Some members in the order of their names. Of two members with one name the later counts.
pub open spec fn members_by_name(members: Seq<(Seq<char>, JsonSpec)>) -> Seq<
    (Seq<char>, JsonSpec),
>
    decreases members,
{
    if members.len() == 0 {
        Seq::empty()
    } else {
        put_member(
            members_by_name(members.drop_last()),
            members.last().0,
            by_name(members.last().1),
        )
    }
}

/// Whether a value is what its text is read as: it holds no fraction, which may be rounded, and
/// nests no deeper than `depth`.
pub open spec fn is_plain(content: JsonSpec, depth: nat) -> bool
    decreases depth,
{
    match content {
        JsonSpec::Fraction(_) => false,
        JsonSpec::Negative(value) => value < 0,
        JsonSpec::Array(items) => depth > 0 && forall|i: int|
            0 <= i < items.len() ==> is_plain(#[trigger] items[i], (depth - 1) as nat),
        JsonSpec::Object(members) => depth > 0 && forall|i: int|
            0 <= i < members.len() ==> is_plain((#[trigger] members[i]).1, (depth - 1) as nat),
        _ => true,
    }
}

/// How deep the values nest that `serde_json` is willing to read.
pub const MAX_DEPTH: usize = 127;

/// Calls `serde_json::from_str`: the JSON value that a text holds, or an error where it holds none.
/// The text of a value is read as that value, with the members of objects by their names, unless
/// the value holds a fraction or nests too deep to be read.
#[verifier::external_body]
fn parse_value(text: &str) -> (value: Result<serde_json::Value, serde_json::Error>)
    ensures
        match value {
            Ok(value) => parsed_json(text@) == Some(value_content(value)),
            Err(_) => parsed_json(text@) is None,
        },
        forall|content: JsonSpec|
            text@ == #[trigger] json_text(content) && is_plain(content, MAX_DEPTH as nat) ==> value
                is Ok && value_content(value->Ok_0) == by_name(content),
{
    serde_json::from_str(text)
}

/// Calls `serde_json::from_str`: the `Debug` form of its error, or nothing where it has none.
#[verifier::external_body]
pub(crate) fn explain_fault(text: &str) -> (fault: String)
    ensures
        fault@ == json_fault(text@),
{
    match serde_json::from_str::<serde_json::Value>(text) {
        Ok(_) => String::new(),
        Err(error) => format!("{:?}", error),
    }
}

/// Calls `serde_json::to_string` on a text: the text in quotation marks. It does not fail on a
/// text.
#[verifier::external_body]
fn print_string(text: &str) -> (printed: String)
    ensures
        printed@ == string_text(text@),
{
    serde_json::to_string(text).unwrap_or_default()
}

/// Calls `serde_json::Value::to_string` on a number.
#[verifier::external_body]
fn print_fraction(number: &serde_json::Number) -> (printed: String)
    ensures
        printed@ == number_text(*number),
{
    serde_json::Value::Number(number.clone()).to_string()
}

/// Prints a `serde_json::Value` for debugging, on several lines. The text depends on what the value
/// holds alone; how it is put is left to `serde_json`.
#[verifier::external_body]
fn show_value(value: &serde_json::Value) -> (shown: String)
    ensures
        shown@ == shown_json(value_content(*value)),
{
    format!("{value:#?}")
}

/// Takes a `serde_json::Value` apart: the plain data that it holds, in the same order.
#[verifier::external_body]
pub(crate) fn json_from_value(value: serde_json::Value) -> (json: Json)
    ensures
        json@ == value_content(value),
{
    match value {
        serde_json::Value::Null => Json::Null,
        serde_json::Value::Bool(value) => Json::Bool(value),
        serde_json::Value::Number(number) => match (number.as_u64(), number.as_i64()) {
            (Some(value), _) => Json::Unsigned(value),
            (_, Some(value)) => Json::Signed(value),
            _ => Json::Fraction(Fraction { number }),
        },
        serde_json::Value::String(text) => Json::Text(text),
        serde_json::Value::Array(list) => Json::Array(list.into_iter().map(json_from_value).collect()),
        serde_json::Value::Object(members) => Json::Object(
            members.into_iter().map(|(name, value)| (name, json_from_value(value))).collect(),
        ),
    }
}

/// Builds the `serde_json::Value` that holds the same data. It keeps the members of an object by
/// their names.
#[verifier::external_body]
pub(crate) fn json_to_value(json: &Json) -> (value: serde_json::Value)
    ensures
        value_content(value) == by_name(json@),
{
    match json {
        Json::Null => serde_json::Value::Null,
        Json::Bool(value) => serde_json::Value::from(*value),
        Json::Unsigned(value) => serde_json::Value::from(*value),
        Json::Signed(value) => serde_json::Value::from(*value),
        Json::Fraction(fraction) => serde_json::Value::Number(fraction.number.clone()),
        Json::Text(text) => serde_json::Value::from(text.as_str()),
        Json::Array(items) => serde_json::Value::Array(items.iter().map(json_to_value).collect()),
        Json::Object(members) => serde_json::Value::Object(
            members.iter().map(|(name, value)| (name.clone(), json_to_value(value))).collect(),
        ),
    }
}

/// Calls `serde_json::Number::clone`: the same number.
#[verifier::external_body]
fn copy_number(number: &serde_json::Number) -> (copy: serde_json::Number)
    ensures
        copy == *number,
{
    number.clone()
}

/// The JSON value that a text holds, if it holds one. What [`print_json`] prints is read back, with
/// the members of objects by their names.
pub fn parse_json(text: &str) -> (json: Option<Json>)
    ensures
        match json {
            Some(json) => parsed_json(text@) == Some(json@),
            None => parsed_json(text@) is None,
        },
        forall|content: JsonSpec|
            text@ == #[trigger] json_text(content) && is_plain(content, MAX_DEPTH as nat)
                ==> parsed_json(text@) == Some(by_name(content)),
{
    match parse_value(text) {
        Ok(value) => Some(json_from_value(value)),
        Err(_) => None,
    }
}

/// What is shown of a JSON value for debugging.
pub fn show_json(json: &Json) -> (shown: String)
    ensures
        shown@ == shown_json(by_name(json@)),
{
    show_value(&json_to_value(json))
}

/// The text of a JSON value. See [`json_text`].
pub fn print_json(json: &Json) -> (text: String)
    ensures
        text@ == json_text(json@),
    decreases json,
{
    match json {
        Json::Null => "null".to_owned(),
        Json::Bool(value) => if *value {
            "true".to_owned()
        } else {
            "false".to_owned()
        },
        Json::Unsigned(value) => print_number(*value),
        Json::Signed(value) => if *value >= 0 {
            print_number(*value as u64)
        } else {
            print_signed(*value)
        },
        Json::Fraction(fraction) => print_fraction(&fraction.number),
        Json::Text(text) => print_string(text.as_str()),
        Json::Array(items) => {
            let mut pieces: Vec<String> = Vec::new();
            let mut i: usize = 0;
            while i < items.len()
                invariant
                    i <= items.len(),
                    *json == Json::Array(*items),
                    pieces@.len() == i,
                    forall|j: int|
                        0 <= j < i ==> (#[trigger] pieces@[j])@ == json_text(items@[j]@),
                decreases items.len() - i,
            {
                assert(decreases_to!(*json => json->Array_0@[i as int]));
                pieces.push(print_json(&items[i]));
                i += 1;
            }
            let list = join_texts(pieces.as_slice(), ",");
            let mut text = "[".to_owned();
            text.append(list.as_str());
            text.append("]");
            assert(texts(pieces@) =~= item_texts(json@->Array_0));
            text
        },
        Json::Object(members) => {
            let mut pieces: Vec<String> = Vec::new();
            let mut i: usize = 0;
            while i < members.len()
                invariant
                    i <= members.len(),
                    *json == Json::Object(*members),
                    pieces@.len() == i,
                    forall|j: int|
                        0 <= j < i ==> (#[trigger] pieces@[j])@ == string_text(members@[j].0@)
                            + ":"@ + json_text(members@[j].1@),
                decreases members.len() - i,
            {
                assert(decreases_to!(*json => json->Object_0@[i as int].1));
                let mut piece = print_string(members[i].0.as_str());
                piece.append(":");
                let value = print_json(&members[i].1);
                piece.append(value.as_str());
                pieces.push(piece);
                i += 1;
            }
            let list = join_texts(pieces.as_slice(), ",");
            let mut text = "{".to_owned();
            text.append(list.as_str());
            text.append("}");
            assert(texts(pieces@) =~= member_texts(json@->Object_0));
            text
        },
    }
}

/// The value of the last of some members that is called `name`.
pub open spec fn member(members: Seq<(Seq<char>, JsonSpec)>, name: Seq<char>) -> Option<JsonSpec>
    decreases members.len(),
{
    if members.len() == 0 {
        None
    } else if members.last().0 == name {
        Some(members.last().1)
    } else {
        member(members.drop_last(), name)
    }
}

impl JsonSpec {
    /// The value of the member called `name`, where this is an object that has it.
    pub open spec fn get(self, name: Seq<char>) -> Option<JsonSpec> {
        match self {
            JsonSpec::Object(members) => member(members, name),
            _ => None,
        }
    }

    /// The text, where this is one.
    pub open spec fn as_text(self) -> Option<Seq<char>> {
        match self {
            JsonSpec::Text(text) => Some(text),
            _ => None,
        }
    }

    /// The object without members.
    pub open spec fn object() -> JsonSpec {
        JsonSpec::Object(Seq::empty())
    }

    /// The object with one more member at its end.
    pub open spec fn with(self, name: Seq<char>, value: JsonSpec) -> JsonSpec {
        match self {
            JsonSpec::Object(members) => JsonSpec::Object(members.push((name, value))),
            other => other,
        }
    }

    /// The object with one more member at its end, where there is a value for it.
    pub open spec fn with_some(self, name: Seq<char>, value: Option<JsonSpec>) -> JsonSpec {
        match value {
            Some(value) => self.with(name, value),
            None => self,
        }
    }

    /// The array without items.
    pub open spec fn array() -> JsonSpec {
        JsonSpec::Array(Seq::empty())
    }

    /// The number `n`, which lies between `i64::MIN` and `i64::MAX`.
    pub open spec fn integer(n: int) -> JsonSpec {
        if n >= 0 {
            JsonSpec::Unsigned(n as u64)
        } else {
            JsonSpec::Negative(n as i64)
        }
    }

    /// The array of the texts `list`.
    pub open spec fn texts(list: Seq<Seq<char>>) -> JsonSpec {
        JsonSpec::Array(list.map_values(|text: Seq<char>| JsonSpec::Text(text)))
    }

    /// The array with one more item at its end.
    pub open spec fn item(self, value: JsonSpec) -> JsonSpec {
        match self {
            JsonSpec::Array(items) => JsonSpec::Array(items.push(value)),
            other => other,
        }
    }
}

/// An object has the member that was added to it last, and else those that it had before.
pub broadcast proof fn law_members_are_found(
    object: JsonSpec,
    name: Seq<char>,
    value: JsonSpec,
    other: Seq<char>,
)
    requires
        object is Object,
    ensures
        (#[trigger] object.with(name, value).get(other)) == if other == name {
            Some(value)
        } else {
            object.get(other)
        },
        object.with(name, value) is Object,
{
    let members = object->Object_0;
    assert(members.push((name, value)).drop_last() =~= members);
}

/// Whether members are in the order of their names, each name once.
pub open spec fn is_by_name(members: Seq<(Seq<char>, JsonSpec)>) -> bool {
    forall|i: int, j: int|
        0 <= i < j < members.len() ==> text_precedes(
            (#[trigger] members[i]).0,
            (#[trigger] members[j]).0,
        )
}

proof fn lemma_member_of(members: Seq<(Seq<char>, JsonSpec)>, name: Seq<char>)
    requires
        is_by_name(members),
    ensures
        match member(members, name) {
            Some(value) => members.contains((name, value)),
            None => forall|value: JsonSpec| !members.contains((name, value)),
        },
        forall|value: JsonSpec| #[trigger]
            members.contains((name, value)) ==> member(members, name) == Some(value),
    decreases members.len(),
{
    if members.len() > 0 {
        let rest = members.drop_last();
        let last = members.last();
        assert(is_by_name(rest)) by {
            assert forall|i: int, j: int| 0 <= i < j < rest.len() implies text_precedes(
                (#[trigger] rest[i]).0,
                (#[trigger] rest[j]).0,
            ) by {
                assert(rest[i] == members[i] && rest[j] == members[j]);
            }
        }
        lemma_member_of(rest, name);
        assert(members[members.len() - 1] == last);
        assert forall|value: JsonSpec| #[trigger] members.contains((name, value)) implies member(
            members,
            name,
        ) == Some(value) by {
            let i = choose|i: int| 0 <= i < members.len() && members[i] == (name, value);
            if i < rest.len() {
                assert(rest[i] == (name, value));
                assert(rest.contains((name, value)));
                assert(text_precedes(members[i].0, members[members.len() - 1].0));
                law_texts_are_in_order(name, last.0);
            }
        }
        if last.0 == name {
            assert(last == (name, last.1));
            assert(members.contains((name, last.1)));
        } else if member(rest, name) is Some {
            let value = member(rest, name)->0;
            let i = choose|i: int| 0 <= i < rest.len() && rest[i] == (name, value);
            assert(members[i] == (name, value));
        }
    }
}

proof fn lemma_put_member(
    members: Seq<(Seq<char>, JsonSpec)>,
    name: Seq<char>,
    value: JsonSpec,
)
    requires
        is_by_name(members),
    ensures
        is_by_name(put_member(members, name, value)),
        forall|pair: (Seq<char>, JsonSpec)| #[trigger]
            put_member(members, name, value).contains(pair) <==> pair == (name, value) || (pair.0
                != name && members.contains(pair)),
    decreases members.len(),
{
    let put = put_member(members, name, value);
    let new = (name, value);
    if members.len() == 0 {
        assert(put =~= seq![new]);
        assert(put[0] == new);
    } else {
        let first = members[0];
        let rest = members.skip(1);
        law_texts_are_in_order(name, first.0);
        assert forall|i: int, j: int| 0 <= i < j < rest.len() implies text_precedes(
            (#[trigger] rest[i]).0,
            (#[trigger] rest[j]).0,
        ) by {
            assert(rest[i] == members[i + 1] && rest[j] == members[j + 1]);
        }
        assert forall|j: int| 0 <= j < rest.len() implies text_precedes(
            first.0,
            (#[trigger] rest[j]).0,
        ) by {
            assert(members[j + 1] == rest[j]);
            assert(text_precedes(members[0].0, members[j + 1].0));
        }
        let tail = if text_precedes(name, first.0) {
            members
        } else if first.0 == name {
            rest
        } else {
            put_member(rest, name, value)
        };
        let head = if text_precedes(name, first.0) || first.0 == name {
            new
        } else {
            first
        };
        assert(put =~= seq![head] + tail);
        if !text_precedes(name, first.0) && first.0 != name {
            lemma_put_member(rest, name, value);
        }
        assert(is_by_name(tail));
        assert forall|j: int| 0 <= j < tail.len() implies text_precedes(
            head.0,
            (#[trigger] tail[j]).0,
        ) by {
            assert(tail.contains(tail[j]));
            if text_precedes(name, first.0) {
                if j > 0 {
                    assert(rest[j - 1] == tail[j]);
                    law_text_order_is_transitive(name, first.0, tail[j].0);
                }
            } else if first.0 != name {
                if tail[j] != new {
                    assert(rest.contains(tail[j]));
                    let k = choose|k: int| 0 <= k < rest.len() && rest[k] == tail[j];
                    assert(text_precedes(first.0, rest[k].0));
                }
            }
        }
        assert forall|i: int, j: int| 0 <= i < j < put.len() implies text_precedes(
            (#[trigger] put[i]).0,
            (#[trigger] put[j]).0,
        ) by {
            assert(put[j] == tail[j - 1]);
            if i > 0 {
                assert(put[i] == tail[i - 1]);
            }
        }
        assert forall|pair: (Seq<char>, JsonSpec)| #[trigger] put.contains(pair) <==> pair == new
            || (pair.0 != name && members.contains(pair)) by {
            assert(put.contains(pair) <==> pair == head || tail.contains(pair)) by {
                if tail.contains(pair) {
                    let k = choose|k: int| 0 <= k < tail.len() && tail[k] == pair;
                    assert(put[k + 1] == pair);
                }
                assert(put[0] == head);
                if put.contains(pair) {
                    let k = choose|k: int| 0 <= k < put.len() && put[k] == pair;
                    if k > 0 {
                        assert(tail[k - 1] == pair);
                    }
                }
            }
            assert(members.contains(pair) <==> pair == first || rest.contains(pair)) by {
                if rest.contains(pair) {
                    let k = choose|k: int| 0 <= k < rest.len() && rest[k] == pair;
                    assert(members[k + 1] == pair);
                }
                if members.contains(pair) {
                    let k = choose|k: int| 0 <= k < members.len() && members[k] == pair;
                    if k > 0 {
                        assert(rest[k - 1] == pair);
                    }
                }
            }
            if rest.contains(pair) && pair.0 == name {
                let k = choose|k: int| 0 <= k < rest.len() && rest[k] == pair;
                assert(text_precedes(first.0, rest[k].0));
                law_texts_are_in_order(first.0, name);
            }
        }
    }
}

proof fn lemma_members_by_name(members: Seq<(Seq<char>, JsonSpec)>, name: Seq<char>)
    ensures
        is_by_name(members_by_name(members)),
        member(members_by_name(members), name) == match member(members, name) {
            Some(value) => Some(by_name(value)),
            None => None,
        },
    decreases members.len(),
{
    if members.len() > 0 {
        let rest = members_by_name(members.drop_last());
        let last = members.last();
        let put = members_by_name(members);
        lemma_members_by_name(members.drop_last(), name);
        lemma_put_member(rest, last.0, by_name(last.1));
        lemma_member_of(rest, name);
        lemma_member_of(put, name);
        if last.0 == name {
            assert(put.contains((name, by_name(last.1))));
        } else if member(rest, name) is Some {
            assert(put.contains((name, member(rest, name)->0)));
        } else if member(put, name) is Some {
            assert(put.contains((name, member(put, name)->0)));
        }
    }
}

/// The order of members carries no meaning: with its members in the order of their names, an object
/// has the same members.
pub proof fn law_order_carries_no_meaning(object: JsonSpec, name: Seq<char>)
    requires
        object is Object,
    ensures
        by_name(object) is Object,
        is_by_name(by_name(object)->Object_0),
        by_name(object).get(name) == match object.get(name) {
            Some(value) => Some(by_name(value)),
            None => None,
        },
{
    lemma_members_by_name(object->Object_0, name);
}

impl Json {
    /// The text `text`.
    pub fn text(text: &str) -> (json: Json)
        ensures
            json@ == JsonSpec::Text(text@),
    {
        Json::Text(text.to_owned())
    }

    /// The object without members.
    pub fn object() -> (json: Json)
        ensures
            json@ == JsonSpec::object(),
    {
        let json = Json::Object(Vec::new());
        assert(json@->Object_0 =~= Seq::<(Seq<char>, JsonSpec)>::empty());
        json
    }

    /// The object with one more member at its end. What is no object stays as it is.
    pub fn with(self, name: &str, value: Json) -> (json: Json)
        ensures
            json@ == self@.with(name@, value@),
    {
        let ghost before = self@;
        match self {
            Json::Object(members) => {
                let mut members = members;
                members.push((name.to_owned(), value));
                let json = Json::Object(members);
                assert(json@->Object_0 =~= before->Object_0.push((name@, value@)));
                json
            },
            other => other,
        }
    }

    /// The object with one more member at its end, where there is a value for it.
    pub fn with_some(self, name: &str, value: Option<Json>) -> (json: Json)
        ensures
            json@ == self@.with_some(
                name@,
                match value {
                    Some(value) => Some(value@),
                    None => None,
                },
            ),
    {
        match value {
            Some(value) => self.with(name, value),
            None => self,
        }
    }

    /// The number `n`.
    pub fn integer(n: i64) -> (json: Json)
        ensures
            json@ == JsonSpec::integer(n as int),
    {
        Json::Signed(n)
    }

    /// The array of the values `items`.
    pub fn list(items: Vec<Json>) -> (json: Json)
        ensures
            json@ == JsonSpec::Array(items_view(items@)),
    {
        let json = Json::Array(items);
        assert(json@->Array_0 =~= items_view(items@));
        json
    }

    /// The array of the texts `list`.
    pub fn texts(list: &[String]) -> (json: Json)
        ensures
            json@ == JsonSpec::texts(texts(list@)),
    {
        let mut items: Vec<Json> = Vec::new();
        let mut i: usize = 0;
        while i < list.len()
            invariant
                i <= list.len(),
                items@.len() == i,
                forall|j: int|
                    0 <= j < i ==> (#[trigger] items@[j])@ == JsonSpec::Text(list@[j]@),
            decreases list.len() - i,
        {
            items.push(Json::text(list[i].as_str()));
            i += 1;
        }
        let json = Json::list(items);
        assert(json@->Array_0 =~= JsonSpec::texts(texts(list@))->Array_0);
        json
    }

    /// The array without items.
    pub fn array() -> (json: Json)
        ensures
            json@ == JsonSpec::array(),
    {
        let json = Json::Array(Vec::new());
        assert(json@->Array_0 =~= Seq::<JsonSpec>::empty());
        json
    }

    /// The array with one more item at its end. What is no array stays as it is.
    pub fn item(self, value: Json) -> (json: Json)
        ensures
            json@ == self@.item(value@),
    {
        let ghost before = self@;
        match self {
            Json::Array(items) => {
                let mut items = items;
                items.push(value);
                let json = Json::Array(items);
                assert(json@->Array_0 =~= before->Array_0.push(value@));
                json
            },
            other => other,
        }
    }

    /// The value of the member called `name`, where this is an object that has it.
    pub fn get(&self, name: &str) -> (value: Option<&Json>)
        ensures
            match value {
                Some(value) => self@.get(name@) == Some(value@),
                None => self@.get(name@) is None,
            },
    {
        match self {
            Json::Object(members) => {
                let ghost all = self@->Object_0;
                let mut n: usize = members.len();
                assert(all.take(n as int) =~= all);
                while n > 0
                    invariant
                        n <= members.len(),
                        *self == Json::Object(*members),
                        all == self@->Object_0,
                        member(all, name@) == member(all.take(n as int), name@),
                    decreases n,
                {
                    assert(all.take(n as int).drop_last() =~= all.take(n - 1));
                    assert(all.take(n as int).last() == all[n - 1]);
                    if str_eq(members[n - 1].0.as_str(), name) {
                        return Some(&members[n - 1].1);
                    }
                    n -= 1;
                }
                None
            },
            _ => None,
        }
    }

    /// A copy of the value of the member called `name`, where this is an object that has it.
    pub fn get_copy(&self, name: &str) -> (value: Option<Json>)
        ensures
            match value {
                Some(value) => self@.get(name@) == Some(value@),
                None => self@.get(name@) is None,
            },
    {
        match self.get(name) {
            Some(value) => Some(value.copy()),
            None => None,
        }
    }

    /// The text, where this is one.
    pub fn as_text(&self) -> (text: Option<&str>)
        ensures
            match text {
                Some(text) => self@.as_text() == Some(text@),
                None => self@.as_text() is None,
            },
    {
        match self {
            Json::Text(text) => Some(text.as_str()),
            _ => None,
        }
    }

    /// The number, where this is an integer from 0 to `u64::MAX`.
    pub fn as_u64(&self) -> (number: Option<u64>)
        ensures
            match number {
                Some(number) => self@ == JsonSpec::Unsigned(number),
                None => !(self@ is Unsigned),
            },
    {
        match self {
            Json::Unsigned(number) => Some(*number),
            Json::Signed(number) => if *number >= 0 {
                Some(*number as u64)
            } else {
                None
            },
            _ => None,
        }
    }

    /// Whether this is `null`.
    pub fn is_null(&self) -> (null: bool)
        ensures
            null == (self@ is Null),
    {
        match self {
            Json::Null => true,
            _ => false,
        }
    }

    /// A value that means the same.
    pub fn copy(&self) -> (copy: Json)
        ensures
            copy@ == self@,
        decreases self,
    {
        match self {
            Json::Null => Json::Null,
            Json::Bool(value) => Json::Bool(*value),
            Json::Unsigned(value) => Json::Unsigned(*value),
            Json::Signed(value) => Json::Signed(*value),
            Json::Fraction(fraction) => Json::Fraction(
                Fraction { number: copy_number(&fraction.number) },
            ),
            Json::Text(text) => Json::Text(text.clone()),
            Json::Array(items) => {
                let mut copies: Vec<Json> = Vec::new();
                let mut i: usize = 0;
                while i < items.len()
                    invariant
                        i <= items.len(),
                        *self == Json::Array(*items),
                        copies@.len() == i,
                        forall|j: int| 0 <= j < i ==> (#[trigger] copies@[j])@ == items@[j]@,
                    decreases items.len() - i,
                {
                    assert(decreases_to!(*self => self->Array_0@[i as int]));
                    copies.push(items[i].copy());
                    i += 1;
                }
                let copy = Json::Array(copies);
                assert(copy@->Array_0 =~= self@->Array_0);
                copy
            },
            Json::Object(members) => {
                let mut copies: Vec<(String, Json)> = Vec::new();
                let mut i: usize = 0;
                while i < members.len()
                    invariant
                        i <= members.len(),
                        *self == Json::Object(*members),
                        copies@.len() == i,
                        forall|j: int|
                            0 <= j < i ==> (#[trigger] copies@[j]).0@ == members@[j].0@
                                && copies@[j].1@ == members@[j].1@,
                    decreases members.len() - i,
                {
                    assert(decreases_to!(*self => self->Object_0@[i as int].1));
                    copies.push((members[i].0.clone(), members[i].1.copy()));
                    i += 1;
                }
                let copy = Json::Object(copies);
                assert(copy@->Object_0 =~= self@->Object_0);
                copy
            },
        }
    }
}

/// A list of the same values.
pub fn copy_list(items: &Vec<Json>) -> (copy: Vec<Json>)
    ensures
        items_view(copy@) == items_view(items@),
{
    let mut copy: Vec<Json> = Vec::new();
    let mut i: usize = 0;
    while i < items.len()
        invariant
            i <= items.len(),
            copy@.len() == i,
            forall|j: int| 0 <= j < i ==> (#[trigger] copy@[j])@ == items@[j]@,
        decreases items.len() - i,
    {
        copy.push(items[i].copy());
        i += 1;
    }
    assert(items_view(copy@) =~= items_view(items@));
    copy
}

} // verus!
