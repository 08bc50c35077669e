//! What the program says when its command line cannot be parsed.
use vstd::prelude::*;
use vstd::string::{StrSliceExecFns, StringSliceAdditionalSpecFns};
use vstd::utf8::encode_utf8;
use crate::effect::StyleEffect;
use crate::ops::is_white_space;
use crate::text::StyledText;

verus! {

/// A string as `Debug` shows it: between double quotes, with quotes,
/// backslashes and unprintable characters escaped.
pub uninterp spec fn debug_quoted(text: Seq<char>) -> Seq<char>;

/// The `Debug` form of a string, by `format!("{:?}", ..)`.
#[verifier::external_body]
pub(crate) fn str_debug(text: &str) -> (quoted: String)
    ensures
        quoted@ == debug_quoted(text@),
{
    format!("{:?}", text)
}

/// `char::is_whitespace`: whether the character has the Unicode property
/// `White_Space`.
#[verifier::external_body]
pub(crate) fn char_is_whitespace(c: char) -> (white: bool)
    ensures
        white == is_white_space(c),
{
    c.is_whitespace()
}

/// What went wrong with the command line.
#[derive(Clone, Copy, Debug, PartialEq, Eq, Structural)]
pub enum FailureKind {
    /// An argument or operation that the program does not know.
    UnknownArgument,
    /// An argument that was given more than once.
    ArgumentConflict,
    /// A value that an argument does not take.
    InvalidValue,
    /// Anything else.
    Other,
}

/// What the parser reports of a command line that it cannot parse.
#[derive(Clone, Debug)]
pub struct ParseFailure {
    /// What went wrong.
    pub kind: FailureKind,
    /// The argument that is at fault, where the parser names one.
    pub invalid_arg: Option<String>,
    /// The value that is at fault, where the parser names one.
    pub invalid_value: Option<String>,
    /// The values that would do, where the parser lists them.
    pub valid_values: Option<Vec<String>>,
    /// The parser's own message.
    pub rendered: String,
}

/// What the program does about a failure.
#[derive(Debug)]
pub enum Verdict {
    /// Print the message as an error and leave.
    Exit { message: StyledText },
    /// Print `error` as an error, then print `last` as an error too where
    /// there is one, and leave.
    Explain { error: StyledText, last: Option<StyledText> },
    /// Leave without a word.
    Quit,
}

/// The index at which the white space at the start of `text` ends.
pub open spec fn word_start(text: Seq<char>, from: int) -> int
    decreases text.len() - from,
{
    if from < 0 || from >= text.len() || !is_white_space(text[from]) {
        from
    } else {
        word_start(text, from + 1)
    }
}

/// The index at which the word that begins at `from` ends.
pub open spec fn word_stop(text: Seq<char>, from: int) -> int
    decreases text.len() - from,
{
    if from < 0 || from >= text.len() || is_white_space(text[from]) {
        from
    } else {
        word_stop(text, from + 1)
    }
}

/// The first word of `text`; `text` itself where it holds no word.
pub open spec fn first_word(text: Seq<char>) -> Seq<char> {
    let start = word_start(text, 0);
    if start >= text.len() {
        text
    } else {
        text.subrange(start, word_stop(text, start))
    }
}

/// `text` begins with a hyphen.
pub open spec fn is_dashed(text: Seq<char>) -> bool {
    text.len() > 0 && text[0] == '-'
}

/// The first `upto` of `values` with `, ` between each two.
pub open spec fn listed(values: Seq<String>, upto: int) -> Seq<u8>
    decreases upto,
{
    if upto <= 0 {
        Seq::empty()
    } else if upto == 1 {
        encode_utf8(values[0]@)
    } else {
        listed(values, upto - 1) + ", ".spec_bytes() + encode_utf8(values[upto - 1]@)
    }
}

/// The message that ends every failure that nothing more can be said of.
pub open spec fn unknown_behavior() -> Seq<u8> {
    "Unkown operation behavior".spec_bytes()
}

/// The message about an argument or operation that the program does not
/// know.
pub open spec fn not_recognized(arg: Seq<char>) -> Seq<u8> {
    "The ".spec_bytes() + (if is_dashed(arg) {
        "argument".spec_bytes()
    } else {
        "operation".spec_bytes()
    }) + " ".spec_bytes() + encode_utf8(debug_quoted(arg)) + " is not recognized.".spec_bytes()
}

/// The message about an argument that was given more than once.
pub open spec fn used_twice(arg: Seq<char>) -> Seq<u8> {
    "The argument '".spec_bytes() + encode_utf8(arg) + "' is used more than once.".spec_bytes()
}

/// The message about an argument that was given no value.
pub open spec fn requires_value(name: Seq<char>) -> Seq<u8> {
    "The argument <brightmagenta>".spec_bytes() + encode_utf8(name)
        + "</brightmagenta> requires a value.".spec_bytes()
}

/// The message about a value that an argument does not take.
pub open spec fn not_valid(name: Seq<char>) -> Seq<u8> {
    "The value is not valid for the argument <brightmagenta>".spec_bytes() + encode_utf8(name)
        + "</brightmagenta>.".spec_bytes()
}

/// The message that lists the values that would do.
pub open spec fn valid_values(values: Seq<String>) -> Seq<u8> {
    "Valid values are: ".spec_bytes() + listed(values, values.len() as int)
}

/// What the program says about a failure, as a list of what it prints: the
/// last entry is what it leaves with. `None` stands for leaving without a
/// word.
pub open spec fn verdict_spec(failure: ParseFailure) -> Seq<Option<Seq<u8>>> {
    let fallback = seq![Some(unknown_behavior())];
    match failure.kind {
        FailureKind::UnknownArgument => match failure.invalid_arg {
            Some(arg) => seq![Some(not_recognized(arg@))],
            None => fallback,
        },
        FailureKind::ArgumentConflict => match failure.invalid_arg {
            Some(arg) => if is_dashed(arg@) {
                seq![Some(used_twice(arg@))]
            } else {
                fallback
            },
            None => fallback,
        },
        FailureKind::InvalidValue => match (failure.invalid_arg, failure.invalid_value) {
            (Some(arg), Some(value)) => if !is_dashed(arg@) {
                fallback
            } else if value@.len() == 0 {
                if arg@ != first_word(arg@) {
                    seq![Some(requires_value(first_word(arg@)))]
                } else {
                    seq![None]
                }
            } else {
                match failure.valid_values {
                    Some(values) => seq![
                        Some(not_valid(first_word(arg@))),
                        Some(valid_values(values@)),
                    ],
                    None => seq![Some(not_valid(first_word(arg@))), None],
                }
            },
            _ => fallback,
        },
        FailureKind::Other => seq![Some(encode_utf8(failure.rendered@))],
    }
}

/// What a verdict prints, the last entry being what the program leaves
/// with.
pub open spec fn printed(verdict: Verdict) -> Seq<Option<Seq<u8>>> {
    match verdict {
        Verdict::Exit { message } => seq![Some(message@)],
        Verdict::Explain { error, last: Some(message) } => seq![Some(error@), Some(message@)],
        Verdict::Explain { error, last: None } => seq![Some(error@), None],
        Verdict::Quit => seq![None],
    }
}

/// The text that holds `first`, `middle` and `last` one after the other.
fn joined(first: &str, middle: &str, last: &str) -> (text: StyledText)
    ensures
        text@ == first.spec_bytes() + middle.spec_bytes() + last.spec_bytes(),
        text.spec_baseline() == Seq::<StyleEffect>::empty(),
{
    let mut bytes: Vec<u8> = Vec::new();
    bytes.extend_from_slice(first.as_bytes());
    bytes.extend_from_slice(middle.as_bytes());
    bytes.extend_from_slice(last.as_bytes());
    assert(bytes@ =~= first.spec_bytes() + middle.spec_bytes() + last.spec_bytes());
    StyledText::from(bytes)
}

/// Whether `text` begins with a hyphen.
fn starts_with_dash(text: &str) -> (dashed: bool)
    ensures
        dashed == is_dashed(text@),
{
    text.unicode_len() > 0 && text.get_char(0) == '-'
}

/// The first word of `text`; `text` itself where it holds no word.
fn take_first_word(text: &str) -> (word: &str)
    ensures
        word@ == first_word(text@),
{
    let len = text.unicode_len();
    let mut start: usize = 0;
    while start < len && char_is_whitespace(text.get_char(start))
        invariant
            start <= len,
            len == text@.len(),
            word_start(text@, 0) == word_start(text@, start as int),
        decreases len - start,
    {
        start += 1;
    }
    if start >= len {
        return text;
    }
    let mut stop: usize = start;
    while stop < len && !char_is_whitespace(text.get_char(stop))
        invariant
            start <= stop <= len,
            len == text@.len(),
            word_stop(text@, start as int) == word_stop(text@, stop as int),
        decreases len - stop,
    {
        stop += 1;
    }
    text.substring_char(start, stop)
}

/// The message that lists the values that would do.
fn list_values(values: &Vec<String>) -> (message: StyledText)
    ensures
        message@ == valid_values(values@),
        message.spec_baseline() == Seq::<StyleEffect>::empty(),
{
    let mut bytes: Vec<u8> = Vec::new();
    bytes.extend_from_slice("Valid values are: ".as_bytes());
    let ghost head = bytes@;
    let mut i: usize = 0;
    while i < values.len()
        invariant
            i <= values.len(),
            bytes@ == head + listed(values@, i as int),
        decreases values.len() - i,
    {
        if i > 0 {
            bytes.extend_from_slice(", ".as_bytes());
        }
        bytes.extend_from_slice(values[i].as_str().as_bytes());
        i += 1;
        assert(bytes@ =~= head + listed(values@, i as int));
    }
    StyledText::from(bytes)
}

/// Decides what the program says about a command line that cannot be
/// parsed, and whether it says anything before it leaves.
pub fn handle_error(failure: &ParseFailure) -> (verdict: Verdict)
    ensures
        printed(verdict) == verdict_spec(*failure),
{
    let fallback = Verdict::Exit { message: StyledText::from("Unkown operation behavior") };
    match failure.kind {
        FailureKind::UnknownArgument => match &failure.invalid_arg {
            Some(arg) => {
                let kind = if starts_with_dash(arg.as_str()) {
                    "argument"
                } else {
                    "operation"
                };
                let quoted = str_debug(arg.as_str());
                let mut bytes: Vec<u8> = Vec::new();
                bytes.extend_from_slice("The ".as_bytes());
                bytes.extend_from_slice(kind.as_bytes());
                bytes.extend_from_slice(" ".as_bytes());
                bytes.extend_from_slice(quoted.as_str().as_bytes());
                bytes.extend_from_slice(" is not recognized.".as_bytes());
                assert(bytes@ =~= not_recognized(arg@));
                Verdict::Exit { message: StyledText::from(bytes) }
            },
            None => fallback,
        },
        FailureKind::ArgumentConflict => match &failure.invalid_arg {
            Some(arg) => if starts_with_dash(arg.as_str()) {
                Verdict::Exit {
                    message: joined("The argument '", arg.as_str(), "' is used more than once."),
                }
            } else {
                fallback
            },
            None => fallback,
        },
        FailureKind::InvalidValue => match (&failure.invalid_arg, &failure.invalid_value) {
            (Some(arg), Some(value)) => {
                let name = take_first_word(arg.as_str());
                if !starts_with_dash(arg.as_str()) {
                    fallback
                } else if value.as_str().unicode_len() == 0 {
                    if arg.as_str().unicode_len() != name.unicode_len() {
                        proof {
                            assert(arg@ != first_word(arg@));
                        }
                        Verdict::Exit {
                            message: joined(
                                "The argument <brightmagenta>",
                                name,
                                "</brightmagenta> requires a value.",
                            ),
                        }
                    } else {
                        proof {
                            lemma_first_word_whole(arg@);
                        }
                        Verdict::Quit
                    }
                } else {
                    let error = joined(
                        "The value is not valid for the argument <brightmagenta>",
                        name,
                        "</brightmagenta>.",
                    );
                    match &failure.valid_values {
                        Some(values) => Verdict::Explain {
                            error,
                            last: Some(list_values(values)),
                        },
                        None => Verdict::Explain { error, last: None },
                    }
                }
            },
            _ => fallback,
        },
        FailureKind::Other => Verdict::Exit { message: StyledText::from(failure.rendered.as_str()) },
    }
}

/// A first word as long as its text is the text.
pub proof fn lemma_first_word_whole(text: Seq<char>)
    requires
        first_word(text).len() == text.len(),
    ensures
        first_word(text) == text,
{
    let start = word_start(text, 0);
    lemma_word_bounds(text, 0);
    if start < text.len() {
        lemma_word_bounds(text, start);
        assert(text.subrange(start, word_stop(text, start)) =~= text);
    }
}

/// Words begin and end within their text.
pub proof fn lemma_word_bounds(text: Seq<char>, from: int)
    requires
        0 <= from <= text.len(),
    ensures
        from <= word_start(text, from) <= text.len(),
        from <= word_stop(text, from) <= text.len(),
    decreases text.len() - from,
{
    if from < text.len() {
        lemma_word_bounds(text, from + 1);
    }
}

} // verus!
