//! Formatters: commands that read a file's content and print it anew.

use crate::decimal::{decimal, print_number};
use crate::process_command::ProcessCommand;
use crate::text::{
    contains_text, join_texts, joined_texts, law_replacements_are_not_reprocessed,
    law_substitution_keeps_other_text, law_substitution_splits, occurs_at, replace, replaced,
    rule_applies, texts,
};
use vstd::prelude::*;
use vstd::utf8::{
    decode_utf8, encode_utf8, encode_utf8_decode_utf8, encode_utf8_valid_utf8, valid_utf8,
};

verus! {

/// A command that formats files.
pub struct Formatter {
    pub process_command: ProcessCommand,
}

impl vstd::std_specs::convert::FromSpecImpl<ProcessCommand> for Formatter {
    open spec fn obeys_from_spec() -> bool {
        true
    }

    open spec fn from_spec(value: ProcessCommand) -> Formatter {
        Formatter { process_command: value }
    }
}

impl From<ProcessCommand> for Formatter {
    fn from(value: ProcessCommand) -> (formatter: Formatter) {
        Formatter { process_command: value }
    }
}

/// What a formatter is to be run with.
pub struct FormatPlan {
    pub command: ProcessCommand,
    /// What the command reads.
    pub input: String,
}

/// What keeps a file from being formatted.
#[derive(Debug)]
pub enum FormatError {
    PathNotUtf8,
    /// The output is not UTF-8, and what is wrong with it.
    OutputNotUtf8 { fault: String },
    Failed { stderr: String, stdout: String },
}

/// What `std` says is wrong with bytes that are not UTF-8.
pub uninterp spec fn utf8_fault(bytes: Seq<u8>) -> Seq<char>;

/// Calls `std::str::from_utf8` on bytes that are not UTF-8 and prints its error, as
/// `String::from_utf8` would put it too. The text depends on the bytes alone; what it says of them
/// is left to `std`.
#[verifier::external_body]
fn explain_utf8_fault(bytes: &[u8]) -> (fault: String)
    requires
        !valid_utf8(bytes@),
    ensures
        fault@ == utf8_fault(bytes@),
{
    match core::str::from_utf8(bytes) {
        Ok(text) => text.to_string(),
        Err(error) => error.to_string(),
    }
}

/// The arguments with the path of the file in place of `{file_path}`.
pub open spec fn filled_arguments(arguments: Seq<Seq<char>>, file_path: Seq<char>) -> Seq<
    Seq<char>,
> {
    Seq::new(arguments.len(), |i: int| replaced(arguments[i], "{file_path}"@, file_path))
}

/// How a list of bytes is shown: as numbers in square brackets.
pub open spec fn shown_bytes(bytes: Seq<u8>) -> Seq<char> {
    "["@ + joined_texts(bytes.map_values(|byte: u8| decimal(byte as nat)), ", "@) + "]"@
}

/// How an output is shown: as the text that it is, or else as its bytes.
pub open spec fn shown_output(bytes: Seq<u8>) -> Seq<char> {
    if valid_utf8(bytes) {
        decode_utf8(bytes)
    } else {
        shown_bytes(bytes)
    }
}

fn show_bytes(bytes: &[u8]) -> (text: String)
    ensures
        text@ == shown_bytes(bytes@),
{
    let mut numbers: Vec<String> = Vec::new();
    let mut i: usize = 0;
    while i < bytes.len()
        invariant
            i <= bytes.len(),
            numbers@.len() == i,
            forall|j: int| 0 <= j < i ==> numbers@[j]@ == decimal(bytes@[j] as nat),
        decreases bytes.len() - i,
    {
        numbers.push(print_number(bytes[i] as u64));
        i += 1;
    }
    assert(texts(numbers@) =~= bytes@.map_values(|byte: u8| decimal(byte as nat)));
    let mut text = "[".to_owned();
    let list = join_texts(numbers.as_slice(), ", ");
    text.append(list.as_str());
    text.append("]");
    text
}

fn show_output(bytes: &[u8]) -> (text: String)
    ensures
        text@ == shown_output(bytes@),
{
    match core::str::from_utf8(bytes) {
        Ok(text) => text.to_owned(),
        Err(_) => show_bytes(bytes),
    }
}

impl Formatter {
    /// What to run to format `content`, which belongs to the file with the path `file_path`. The
    /// path stands in the arguments as it is: no shell sees it.
    pub fn format(&self, content: &str, file_path: &[u8]) -> (plan: Result<FormatPlan, FormatError>)
        ensures
            match plan {
                Ok(plan) => {
                    &&& valid_utf8(file_path@)
                    &&& plan.input@ == content@
                    &&& plan.command.spec_command() == self.process_command.spec_command()
                    &&& plan.command.spec_arguments() == filled_arguments(
                        self.process_command.spec_arguments(),
                        decode_utf8(file_path@),
                    )
                    &&& plan.command.spec_environment() == self.process_command.spec_environment()
                },
                Err(error) => error is PathNotUtf8 && !valid_utf8(file_path@),
            },
    {
        let file_path = match core::str::from_utf8(file_path) {
            Ok(file_path) => file_path,
            Err(_) => {
                return Err(FormatError::PathNotUtf8);
            },
        };
        let arguments = self.process_command.arguments();
        let mut filled: Vec<String> = Vec::new();
        let mut i: usize = 0;
        while i < arguments.len()
            invariant
                i <= arguments.len(),
                filled@.len() == i,
                forall|j: int|
                    0 <= j < i ==> filled@[j]@ == replaced(
                        arguments@[j]@,
                        "{file_path}"@,
                        file_path@,
                    ),
            decreases arguments.len() - i,
        {
            filled.push(replace(arguments[i].as_str(), "{file_path}", file_path));
            i += 1;
        }
        assert(texts(filled@) =~= filled_arguments(texts(arguments@), file_path@));
        Ok(
            FormatPlan {
                command: ProcessCommand::with_environment(
                    self.process_command.command(),
                    filled.as_slice(),
                    self.process_command.environment(),
                ),
                input: content.to_owned(),
            },
        )
    }

    /// What formatting came to, once the command has ended: what it printed, where it succeeded.
    pub fn finish(&self, success: bool, stdout: &[u8], stderr: &[u8]) -> (formatted: Result<
        String,
        FormatError,
    >)
        ensures
            match formatted {
                Ok(text) => success && valid_utf8(stdout@) && text@ == decode_utf8(stdout@),
                Err(FormatError::OutputNotUtf8 { fault }) => success && !valid_utf8(stdout@)
                    && fault@ == utf8_fault(stdout@),
                Err(FormatError::Failed { stderr: shown_stderr, stdout: shown_stdout }) => !success
                    && shown_stderr@ == shown_output(stderr@) && shown_stdout@ == shown_output(
                    stdout@,
                ),
                Err(FormatError::PathNotUtf8) => false,
            },
    {
        if !success {
            return Err(
                FormatError::Failed { stderr: show_output(stderr), stdout: show_output(stdout) },
            );
        }
        match core::str::from_utf8(stdout) {
            Ok(text) => Ok(text.to_owned()),
            Err(_) => Err(FormatError::OutputNotUtf8 { fault: explain_utf8_fault(stdout) }),
        }
    }
}

impl FormatError {
    /// What the error says.
    pub open spec fn spec_message(self) -> Seq<char> {
        match self {
            FormatError::PathNotUtf8 => "Formatter file path is not valid UTF-8"@,
            FormatError::OutputNotUtf8 { fault } => fault@,
            FormatError::Failed { stderr, stdout } => "[[STDERR]]:\n"@ + stderr@
                + "\n\n[[STDOUT]]:\n"@ + stdout@,
        }
    }

    /// What the error says.
    pub fn message(&self) -> (message: String)
        ensures
            message@ == self.spec_message(),
    {
        match self {
            FormatError::PathNotUtf8 => "Formatter file path is not valid UTF-8".to_owned(),
            FormatError::OutputNotUtf8 { fault } => fault.clone(),
            FormatError::Failed { stderr, stdout } => {
                let mut message = "[[STDERR]]:\n".to_owned();
                message.append(stderr.as_str());
                message.append("\n\n[[STDOUT]]:\n");
                message.append(stdout.as_str());
                message
            },
        }
    }
}

/// Arguments without the placeholder stay as they are.
pub proof fn law_arguments_without_placeholder_stay(
    arguments: Seq<Seq<char>>,
    file_path: Seq<char>,
)
    requires
        forall|i: int|
            0 <= i < arguments.len() ==> !contains_text(
                #[trigger] arguments[i],
                "{file_path}"@,
            ),
    ensures
        filled_arguments(arguments, file_path) == arguments,
{
    let rules = seq![("{file_path}"@, file_path)];
    assert forall|i: int| 0 <= i < arguments.len() implies #[trigger] filled_arguments(
        arguments,
        file_path,
    )[i] == arguments[i] by {
        let argument = arguments[i];
        assert(!contains_text(argument, "{file_path}"@));
        assert forall|at: int, k: int| 0 <= at implies !rule_applies(argument, rules, at, k) by {
            if rule_applies(argument, rules, at, k) {
                assert(occurs_at(argument, "{file_path}"@, at));
            }
        }
        law_substitution_keeps_other_text(argument, rules, 0);
        assert(argument.skip(0) =~= argument);
    }
    assert(filled_arguments(arguments, file_path) =~= arguments);
}

/// The path of the file takes the place of the placeholder, wherever it stands in an argument and
/// whatever the path holds, and no argument is added or lost.
pub proof fn law_the_path_takes_the_place_of_the_placeholder(
    arguments: Seq<Seq<char>>,
    file_path: Seq<char>,
    i: int,
    before: Seq<char>,
    behind: Seq<char>,
)
    requires
        0 <= i < arguments.len(),
        arguments[i] == before + "{file_path}"@ + behind,
    ensures
        filled_arguments(arguments, file_path).len() == arguments.len(),
        filled_arguments(arguments, file_path)[i] == filled_arguments(seq![before], file_path)[0]
            + file_path + filled_arguments(seq![behind], file_path)[0],
{
    let rules = seq![("{file_path}"@, file_path)];
    reveal_strlit("{file_path}");
    let token = "{file_path}"@;
    let rest = token + behind;
    assert(rest.subrange(0, token.len() as int) =~= token);
    assert(rest.skip(token.len() as int) =~= behind);
    law_replacements_are_not_reprocessed(rest, rules, 0);
    law_substitution_splits(before, rest, rules, '{');
    assert(before + token + behind =~= before + rest);
    let start = replaced(before, token, file_path);
    let end = replaced(behind, token, file_path);
    assert(start + (file_path + end) =~= start + file_path + end);
}

/// An output is shown as the text that it is, and as the numbers of its bytes, in their order, only
/// where it is none.
pub proof fn law_outputs_are_shown_as_text(text: Seq<char>, bytes: Seq<u8>, byte: u8)
    ensures
        shown_output(encode_utf8(text)) == text,
        !valid_utf8(seq![byte]) ==> shown_output(seq![byte]) == seq!['['] + decimal(byte as nat)
            + seq![']'],
        !valid_utf8(bytes) && bytes.len() > 1 ==> shown_output(bytes) == seq!['['] + joined_texts(
            bytes.drop_last().map_values(|b: u8| decimal(b as nat)),
            ", "@,
        ) + ", "@ + decimal(bytes.last() as nat) + seq![']'],
{
    encode_utf8_valid_utf8(text);
    encode_utf8_decode_utf8(text);
    reveal_strlit("[");
    reveal_strlit("]");
    assert("["@ =~= seq!['[']);
    assert("]"@ =~= seq![']']);
    let one = seq![byte].map_values(|b: u8| decimal(b as nat));
    assert(one.len() == 1 && one[0] == decimal(byte as nat));
    let all = bytes.map_values(|b: u8| decimal(b as nat));
    if bytes.len() > 1 {
        let rest = bytes.drop_last().map_values(|b: u8| decimal(b as nat));
        assert(all.drop_last() =~= rest);
        assert(all.last() == decimal(bytes.last() as nat));
        let front = joined_texts(rest, ", "@);
        assert(seq!['['] + (front + ", "@ + all.last()) + seq![']'] =~= seq!['['] + front + ", "@
            + all.last() + seq![']']);
    }
}

} // verus!
