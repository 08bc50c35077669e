//! How flags and operations are described and named in the help pages.
use vstd::prelude::*;
use vstd::string::{StringExecFns, StringSliceAdditionalSpecFns};
use vstd::utf8::encode_utf8;
use crate::bytes::is_ascii_whitespace;
use crate::effect::StyleEffect;
use crate::render::{render_text, MarkupError, Rendering, NESTING};
use crate::stack::pushed;
use crate::text::StyledText;

verus! {

/// The lower-case equivalent of a text, as Unicode defines it.
pub uninterp spec fn lowercase(text: Seq<char>) -> Seq<char>;

/// `str::to_lowercase`: the lower-case equivalent of the string.
#[verifier::external_body]
pub(crate) fn str_to_lowercase(text: &str) -> (lowered: String)
    ensures
        lowered@ == lowercase(text@),
{
    text.to_lowercase()
}

/// `char::encode_utf8`: the UTF-8 encoding of one character.
#[verifier::external_body]
pub(crate) fn char_bytes(c: char) -> (bytes: Vec<u8>)
    ensures
        bytes@ == encode_utf8(seq![c]),
{
    let mut buffer = [0u8; 4];
    c.encode_utf8(&mut buffer).as_bytes().to_vec()
}

/// `c` as a capital, where it is an ASCII small letter.
pub open spec fn ascii_capital(c: char) -> char {
    if 'a' <= c <= 'z' {
        ((c as u32) - 32) as char
    } else {
        c
    }
}

/// `c` as a capital, where it is an ASCII small letter.
pub fn to_ascii_capital(c: char) -> (capital: char)
    ensures
        capital == ascii_capital(c),
{
    if 'a' <= c && c <= 'z' {
        ((c as u8) - 32) as char
    } else {
        c
    }
}

/// What an entry of a help page describes.
#[derive(Clone, Debug)]
pub enum CommandType {
    /// A flag with a short and a long name; a space for `short` means that it
    /// has none.
    Flag { short: char, long: String },
    /// A flag with a long name only.
    LongFlag { long: String },
    /// An operation.
    Operation { name: String },
    /// Arguments that are handed on.
    Variadic { name: String },
    /// Anything else.
    Other { name: String },
}

impl CommandType {
    /// The long name of a flag, or the name of anything else.
    pub open spec fn name_spec(&self) -> Seq<char> {
        match self {
            CommandType::Flag { long, .. } => long@,
            CommandType::LongFlag { long } => long@,
            CommandType::Operation { name } => name@,
            CommandType::Variadic { name } => name@,
            CommandType::Other { name } => name@,
        }
    }

    /// The effect that names of this kind are shown in.
    pub open spec fn color_spec(&self) -> StyleEffect {
        match self {
            CommandType::Flag { .. } => StyleEffect::Magenta,
            CommandType::LongFlag { .. } => StyleEffect::Magenta,
            CommandType::Operation { .. } => StyleEffect::Blue,
            CommandType::Variadic { .. } => StyleEffect::Green,
            CommandType::Other { .. } => StyleEffect::Reset,
        }
    }

    /// The long name of a flag, or the name of anything else.
    pub fn name(&self) -> (name: String)
        ensures
            name@ == self.name_spec(),
    {
        match self {
            CommandType::Flag { long, .. } => long.clone(),
            CommandType::LongFlag { long } => long.clone(),
            CommandType::Operation { name } => name.clone(),
            CommandType::Variadic { name } => name.clone(),
            CommandType::Other { name } => name.clone(),
        }
    }

    /// The effect that names of this kind are shown in.
    pub fn color(&self) -> (effect: StyleEffect)
        ensures
            effect == self.color_spec(),
    {
        match self {
            CommandType::Flag { .. } => StyleEffect::Magenta,
            CommandType::LongFlag { .. } => StyleEffect::Magenta,
            CommandType::Operation { .. } => StyleEffect::Blue,
            CommandType::Variadic { .. } => StyleEffect::Green,
            CommandType::Other { .. } => StyleEffect::Reset,
        }
    }

    /// The tag name of the effect that names of this kind are shown in.
    pub fn to_color(&self) -> (name: &'static str)
        ensures
            name.spec_bytes() == self.color_spec().name_spec(),
    {
        self.color().name()
    }
}

/// An entry of a help page: a flag or an operation, what it does, and an
/// example value where it takes one.
#[derive(Clone, Debug)]
pub struct Command {
    example: Option<String>,
    about: String,
    command_type: CommandType,
}

impl Command {
    /// The example value.
    pub closed spec fn spec_example(&self) -> Option<Seq<char>> {
        match self.example {
            Some(example) => Some(example@),
            None => None,
        }
    }

    /// The description.
    pub closed spec fn spec_about(&self) -> Seq<char> {
        self.about@
    }

    /// What the entry describes.
    pub closed spec fn spec_command_type(&self) -> CommandType {
        self.command_type
    }

    /// The example value.
    pub fn example(&self) -> (example: &Option<String>)
        ensures
            match example {
                Some(text) => self.spec_example() == Some(text@),
                None => self.spec_example().is_none(),
            },
    {
        &self.example
    }

    /// The description.
    pub fn about(&self) -> (about: &String)
        ensures
            about@ == self.spec_about(),
    {
        &self.about
    }

    /// What the entry describes.
    pub fn command_type(&self) -> (command_type: &CommandType)
        ensures
            *command_type == self.spec_command_type(),
    {
        &self.command_type
    }

    /// The entry of the flag that asks for the help page.
    pub fn help_flag() -> (entry: Self)
        ensures
            entry.spec_example().is_none(),
            entry.spec_about() == "Prints this message."@,
            entry.spec_command_type() matches CommandType::Flag { short, long } && short == 'H'
                && long@ == "help"@,
    {
        Command {
            example: None,
            about: String::from_str("Prints this message."),
            command_type: CommandType::Flag { short: 'H', long: String::from_str("help") },
        }
    }

    /// A flag that takes a value. The long name is put in lower case; `None`
    /// where that leaves it empty.
    pub fn option(short: char, long: &str, example: &str, about: &str) -> (entry: Option<Self>)
        ensures
            entry.is_some() == (lowercase(long@).len() > 0),
            entry matches Some(made) ==> {
                &&& made.spec_example() == Some(example@)
                &&& made.spec_about() == about@
                &&& made.spec_command_type() matches CommandType::Flag { short: s, long: l } && s
                    == short && l@ == lowercase(long@)
            },
    {
        let long = str_to_lowercase(long);
        if long.as_str().unicode_len() == 0 {
            return None;
        }
        Some(
            Command {
                example: Some(String::from_str(example)),
                about: String::from_str(about),
                command_type: CommandType::Flag { short, long },
            },
        )
    }

    /// A flag with a long name only that takes a value. The name is put in
    /// lower case; `None` where that leaves it empty.
    pub fn long_option(long: &str, example: &str, about: &str) -> (entry: Option<Self>)
        ensures
            entry.is_some() == (lowercase(long@).len() > 0),
            entry matches Some(made) ==> {
                &&& made.spec_example() == Some(example@)
                &&& made.spec_about() == about@
                &&& made.spec_command_type() matches CommandType::LongFlag { long: l } && l@
                    == lowercase(long@)
            },
    {
        let long = str_to_lowercase(long);
        if long.as_str().unicode_len() == 0 {
            return None;
        }
        Some(
            Command {
                example: Some(String::from_str(example)),
                about: String::from_str(about),
                command_type: CommandType::LongFlag { long },
            },
        )
    }

    /// A flag without a value. The short name is made a capital, the long
    /// name is put in lower case; `None` where the long name is empty.
    pub fn flag(short: char, long: &str, about: &str) -> (entry: Option<Self>)
        ensures
            entry.is_some() == (long@.len() > 0),
            entry matches Some(made) ==> {
                &&& made.spec_example().is_none()
                &&& made.spec_about() == about@
                &&& made.spec_command_type() matches CommandType::Flag { short: s, long: l } && s
                    == ascii_capital(short) && l@ == lowercase(long@)
            },
    {
        if long.unicode_len() == 0 {
            return None;
        }
        Some(
            Command {
                example: None,
                about: String::from_str(about),
                command_type: CommandType::Flag {
                    short: to_ascii_capital(short),
                    long: str_to_lowercase(long),
                },
            },
        )
    }

    /// A flag with a long name only and without a value. The name is put in
    /// lower case; `None` where that leaves it empty.
    pub fn long_flag(long: &str, about: &str) -> (entry: Option<Self>)
        ensures
            entry.is_some() == (lowercase(long@).len() > 0),
            entry matches Some(made) ==> {
                &&& made.spec_example().is_none()
                &&& made.spec_about() == about@
                &&& made.spec_command_type() matches CommandType::LongFlag { long: l } && l@
                    == lowercase(long@)
            },
    {
        let long = str_to_lowercase(long);
        if long.as_str().unicode_len() == 0 {
            return None;
        }
        Some(
            Command {
                example: None,
                about: String::from_str(about),
                command_type: CommandType::LongFlag { long },
            },
        )
    }

    /// An operation with an example. The name is put in lower case; `None`
    /// where that leaves it empty.
    pub fn operation(name: &str, example: &str, about: &str) -> (entry: Option<Self>)
        ensures
            entry.is_some() == (lowercase(name@).len() > 0),
            entry matches Some(made) ==> {
                &&& made.spec_example() == Some(example@)
                &&& made.spec_about() == about@
                &&& made.spec_command_type() matches CommandType::Operation { name: n } && n@
                    == lowercase(name@)
            },
    {
        let name = str_to_lowercase(name);
        if name.as_str().unicode_len() == 0 {
            return None;
        }
        Some(
            Command {
                example: Some(String::from_str(example)),
                about: String::from_str(about),
                command_type: CommandType::Operation { name },
            },
        )
    }

    /// An operation without an example. The name is put in lower case; `None`
    /// where that leaves it empty.
    pub fn subcommand(name: &str, about: &str) -> (entry: Option<Self>)
        ensures
            entry.is_some() == (lowercase(name@).len() > 0),
            entry matches Some(made) ==> {
                &&& made.spec_example().is_none()
                &&& made.spec_about() == about@
                &&& made.spec_command_type() matches CommandType::Operation { name: n } && n@
                    == lowercase(name@)
            },
    {
        let name = str_to_lowercase(name);
        if name.as_str().unicode_len() == 0 {
            return None;
        }
        Some(
            Command {
                example: None,
                about: String::from_str(about),
                command_type: CommandType::Operation { name },
            },
        )
    }

    /// An operation under the name `name`, which is taken as it stands.
    pub fn named(name: &str, about: &str) -> (entry: Self)
        ensures
            entry.spec_example().is_none(),
            entry.spec_about() == about@,
            entry.spec_command_type() matches CommandType::Operation { name: n } && n@ == name@,
    {
        Command {
            example: None,
            about: String::from_str(about),
            command_type: CommandType::Operation { name: String::from_str(name) },
        }
    }

    /// Arguments that are handed on; their name is shown after three dots.
    pub fn variadic(name: &str, about: &str) -> (entry: Self)
        ensures
            entry.spec_example().is_none(),
            entry.spec_about() == about@,
            entry.spec_command_type() matches CommandType::Variadic { name: n } && n@ == "..."@
                + name@,
    {
        Command {
            example: None,
            about: String::from_str(about),
            command_type: CommandType::Variadic { name: String::from_str("...").concat(name) },
        }
    }
}

/// The name of an entry as the help page shows it, without its color: a flag
/// without a short name is indented by four spaces, a flag with one shows
/// both, anything else shows its name.
pub open spec fn operation_name_spec(command_type: CommandType) -> Seq<u8> {
    match command_type {
        CommandType::Flag { short, long } => if short == ' ' {
            "    --".spec_bytes() + encode_utf8(long@)
        } else {
            "-".spec_bytes() + encode_utf8(seq![short]) + "<white>,</white> --".spec_bytes()
                + encode_utf8(long@)
        },
        _ => encode_utf8(command_type.name_spec()),
    }
}

/// The name of an entry as the help page shows it, with the color of its
/// kind as its baseline.
pub fn operation_name(operation: &Command, no_color: bool) -> (shown: StyledText)
    ensures
        shown@ == operation_name_spec(operation.spec_command_type()),
        shown.spec_baseline() == pushed(
            Seq::empty(),
            operation.spec_command_type().color_spec(),
            no_color,
        ),
{
    let command_type = operation.command_type();
    let mut bytes: Vec<u8> = Vec::new();
    match command_type {
        CommandType::Flag { short, long } => {
            if *short == ' ' {
                bytes.extend_from_slice("    --".as_bytes());
                bytes.extend_from_slice(long.as_str().as_bytes());
            } else {
                bytes.extend_from_slice("-".as_bytes());
                bytes.extend_from_slice(char_bytes(*short).as_slice());
                bytes.extend_from_slice("<white>,</white> --".as_bytes());
                bytes.extend_from_slice(long.as_str().as_bytes());
            }
        },
        _ => {
            bytes.extend_from_slice(command_type.name().as_str().as_bytes());
        },
    }
    assert(bytes@ =~= operation_name_spec(operation.spec_command_type()));
    StyledText::from(bytes).push_effect(command_type.color(), no_color)
}

/// What a command takes, as its usage line names it.
#[derive(Clone, Debug)]
pub enum ArgumentType {
    /// Any number of flags.
    Flags,
    /// One argument.
    Operand { name: String },
    /// Any number of arguments.
    Variadic { name: String },
}

impl ArgumentType {
    /// The text that stands for the argument in a usage line.
    pub open spec fn text_spec(&self) -> Seq<u8> {
        match self {
            ArgumentType::Flags => "...flags".spec_bytes(),
            ArgumentType::Operand { name } => encode_utf8(name@),
            ArgumentType::Variadic { name } => "[...".spec_bytes() + encode_utf8(name@)
                + "]".spec_bytes(),
        }
    }

    /// The effect that the argument is shown in.
    pub open spec fn color_spec(&self) -> StyleEffect {
        match self {
            ArgumentType::Flags => StyleEffect::BrightMagenta,
            ArgumentType::Operand { .. } => StyleEffect::BrightBlue,
            ArgumentType::Variadic { .. } => StyleEffect::BrightGreen,
        }
    }

    /// The argument as a usage line shows it, with its color as baseline.
    pub fn to_str_v2(&self, no_color: bool) -> (shown: StyledText)
        ensures
            shown@ == self.text_spec(),
            shown.spec_baseline() == pushed(Seq::empty(), self.color_spec(), no_color),
    {
        let mut bytes: Vec<u8> = Vec::new();
        match self {
            ArgumentType::Flags => {
                bytes.extend_from_slice("...flags".as_bytes());
                assert(bytes@ =~= self.text_spec());
                StyledText::from(bytes).push_effect(StyleEffect::BrightMagenta, no_color)
            },
            ArgumentType::Operand { name } => {
                bytes.extend_from_slice(name.as_str().as_bytes());
                assert(bytes@ =~= self.text_spec());
                StyledText::from(bytes).push_effect(StyleEffect::BrightBlue, no_color)
            },
            ArgumentType::Variadic { name } => {
                bytes.extend_from_slice("[...".as_bytes());
                bytes.extend_from_slice(name.as_str().as_bytes());
                bytes.extend_from_slice("]".as_bytes());
                assert(bytes@ =~= self.text_spec());
                StyledText::from(bytes).push_effect(StyleEffect::BrightGreen, no_color)
            },
        }
    }
}

/// `content` as it is shown between the tags of `code`: a content of
/// nothing but white space is left as it is, any other is rendered and put
/// between `<code>` and `</code>`.
pub open spec fn colorizer_spec(content: Seq<u8>, rendered: Rendering, code: Seq<u8>) -> Rendering {
    if forall|i: int| 0 <= i < content.len() ==> is_ascii_whitespace(content[i]) {
        Ok(content)
    } else {
        match rendered {
            Ok(shown) => Ok(
                "<".spec_bytes() + code + ">".spec_bytes() + shown + "</".spec_bytes() + code
                    + ">".spec_bytes(),
            ),
            Err(error) => Err(error),
        }
    }
}

/// Puts the rendering of `content` between the tags of `code`; a content of
/// nothing but white space is left as it is. It fails where the content
/// cannot be rendered.
pub fn colorizer(content: &StyledText, code: &str, no_color: bool, debug: bool) -> (outcome: Result<
    StyledText,
    MarkupError,
>)
    ensures
        match outcome {
            Ok(colored) => colorizer_spec(
                content@,
                render_text(content@, content.spec_baseline(), !no_color, debug, NESTING as nat),
                code.spec_bytes(),
            ) == Ok::<Seq<u8>, MarkupError>(colored@) && colored.spec_baseline() == Seq::<
                StyleEffect,
            >::empty(),
            Err(error) => colorizer_spec(
                content@,
                render_text(content@, content.spec_baseline(), !no_color, debug, NESTING as nat),
                code.spec_bytes(),
            ) == Err::<Seq<u8>, MarkupError>(error),
        },
{
    if content.is_whitespace() {
        return Ok(content.reset());
    }
    match content.render(no_color, debug) {
        Ok(shown) => {
            let mut bytes: Vec<u8> = Vec::new();
            bytes.extend_from_slice("<".as_bytes());
            bytes.extend_from_slice(code.as_bytes());
            bytes.extend_from_slice(">".as_bytes());
            bytes.extend_from_slice(shown.bytes().as_slice());
            bytes.extend_from_slice("</".as_bytes());
            bytes.extend_from_slice(code.as_bytes());
            bytes.extend_from_slice(">".as_bytes());
            assert(bytes@ =~= "<".spec_bytes() + code.spec_bytes() + ">".spec_bytes() + shown@
                + "</".spec_bytes() + code.spec_bytes() + ">".spec_bytes());
            Ok(StyledText::from(bytes))
        },
        Err(error) => Err(error),
    }
}

/// The tag of a log line: `label` between square brackets in the color
/// `color`.
pub open spec fn tag_spec(label: Seq<u8>, color: StyleEffect) -> Seq<u8> {
    let open = "<".spec_bytes() + color.name_spec() + ">".spec_bytes();
    let close = "</".spec_bytes() + color.name_spec() + ">".spec_bytes();
    open + "[".spec_bytes() + close + label + open + "]".spec_bytes() + close
}

/// The tag of a log line: `label` between square brackets in the color
/// `color`, on a baseline of `font`, bold and `background`.
pub fn generate_tag(
    label: &str,
    color: StyleEffect,
    font: StyleEffect,
    background: StyleEffect,
    no_color: bool,
) -> (tag: StyledText)
    ensures
        tag@ == tag_spec(label.spec_bytes(), color),
        tag.spec_baseline() == pushed(
            pushed(pushed(Seq::empty(), font, no_color), StyleEffect::Bold, no_color),
            background,
            no_color,
        ),
{
    let name = color.name().as_bytes();
    let mut bytes: Vec<u8> = Vec::new();
    bytes.extend_from_slice("<".as_bytes());
    bytes.extend_from_slice(name);
    bytes.extend_from_slice(">".as_bytes());
    bytes.extend_from_slice("[".as_bytes());
    bytes.extend_from_slice("</".as_bytes());
    bytes.extend_from_slice(name);
    bytes.extend_from_slice(">".as_bytes());
    bytes.extend_from_slice(label.as_bytes());
    bytes.extend_from_slice("<".as_bytes());
    bytes.extend_from_slice(name);
    bytes.extend_from_slice(">".as_bytes());
    bytes.extend_from_slice("]".as_bytes());
    bytes.extend_from_slice("</".as_bytes());
    bytes.extend_from_slice(name);
    bytes.extend_from_slice(">".as_bytes());
    assert(bytes@ =~= tag_spec(label.spec_bytes(), color));
    StyledText::from(bytes).push_effect(font, no_color).bold(no_color).push_effect(
        background,
        no_color,
    )
}

/// What stands before the alternative at `index` of `count`: nothing before
/// the first, ` or ` before the last, `, ` before any other.
pub open spec fn alternative_separator(index: int, count: int) -> Seq<u8> {
    if index <= 0 {
        Seq::empty()
    } else if index + 1 == count {
        " or ".spec_bytes()
    } else {
        ", ".spec_bytes()
    }
}

/// The first `upto` of `alternatives`, each in magenta after its separator.
pub open spec fn alternatives_list(alternatives: Seq<&str>, upto: int) -> Seq<u8>
    decreases upto,
{
    if upto <= 0 {
        Seq::empty()
    } else {
        alternatives_list(alternatives, upto - 1) + alternative_separator(
            upto - 1,
            alternatives.len() as int,
        ) + "<magenta>".spec_bytes() + alternatives[upto - 1].spec_bytes()
            + "</magenta>".spec_bytes()
    }
}

/// A message with the advice to use one of `alternatives` instead; the
/// message alone where there are none.
pub open spec fn suggestion_spec(message: Seq<u8>, alternatives: Seq<&str>) -> Seq<u8> {
    if alternatives.len() == 0 {
        message
    } else {
        message + "\nConsider using ".spec_bytes() + alternatives_list(
            alternatives,
            alternatives.len() as int,
        ) + " instead.".spec_bytes()
    }
}

/// A message with the advice to use one of `better_use` instead.
pub fn suggest(message: &str, better_use: Vec<&'static str>) -> (advice: StyledText)
    ensures
        advice@ == suggestion_spec(message.spec_bytes(), better_use@),
        advice.spec_baseline() == Seq::<StyleEffect>::empty(),
{
    let mut bytes: Vec<u8> = Vec::new();
    bytes.extend_from_slice(message.as_bytes());
    assert(bytes@ =~= message.spec_bytes());
    if better_use.len() == 0 {
        return StyledText::from(bytes);
    }
    bytes.extend_from_slice("\nConsider using ".as_bytes());
    let ghost head = bytes@;
    let mut index: usize = 0;
    while index < better_use.len()
        invariant
            index <= better_use.len(),
            bytes@ == head + alternatives_list(better_use@, index as int),
        decreases better_use.len() - index,
    {
        if index > 0 {
            if index + 1 == better_use.len() {
                bytes.extend_from_slice(" or ".as_bytes());
            } else {
                bytes.extend_from_slice(", ".as_bytes());
            }
        }
        bytes.extend_from_slice("<magenta>".as_bytes());
        bytes.extend_from_slice(better_use[index].as_bytes());
        bytes.extend_from_slice("</magenta>".as_bytes());
        index += 1;
        assert(bytes@ =~= head + alternatives_list(better_use@, index as int));
    }
    bytes.extend_from_slice(" instead.".as_bytes());
    assert(bytes@ =~= suggestion_spec(message.spec_bytes(), better_use@));
    StyledText::from(bytes)
}

/// The width that the names and examples of a help page take up at the
/// least.
pub const SPACING: usize = 24;

/// `a - b`, or 0 where `b` is the larger.
pub open spec fn minus(a: int, b: int) -> int {
    if a >= b {
        a - b
    } else {
        0
    }
}

/// The larger of `a` and `b`.
pub open spec fn greater(a: int, b: int) -> int {
    if a >= b {
        a
    } else {
        b
    }
}

/// The spaces around the example of an entry whose name is `width` columns
/// wide, on a page whose names with examples are at most `largest` columns
/// wide and whose descriptions begin after `spacing` columns: first the
/// spaces between the name and the example, then those between the example,
/// `example` columns wide if there is one, and the description.
pub open spec fn entry_spacing_spec(spacing: int, largest: int, width: int, example: Option<int>) -> (
    int,
    int,
) {
    let fitted = if largest < width {
        minus(spacing, width - largest)
    } else {
        spacing
    };
    let before = minus(greater(largest, width) + 1, width);
    (
        before,
        match example {
            Some(columns) => minus(fitted, columns),
            None => fitted + before,
        },
    )
}

/// The spaces around the example of an entry.
pub fn entry_spacing(spacing: usize, largest: usize, width: usize, example: Option<usize>) -> (spaces:
    (usize, usize))
    requires
        spacing + largest + width + 1 <= usize::MAX,
    ensures
        (spaces.0 as int, spaces.1 as int) == entry_spacing_spec(
            spacing as int,
            largest as int,
            width as int,
            match example {
                Some(columns) => Some(columns as int),
                None => None,
            },
        ),
{
    let fitted = if largest < width {
        spacing.saturating_sub(width - largest)
    } else {
        spacing
    };
    let widest = if largest >= width {
        largest
    } else {
        width
    };
    let before = (widest + 1).saturating_sub(width);
    let after = match example {
        Some(columns) => fitted.saturating_sub(columns),
        None => fitted + before,
    };
    (before, after)
}

/// The column after which the descriptions of a page begin, and the width
/// of its widest name with an example, over the first `upto` of `entries`.
/// An entry is the width of a name and the width of its example, if it has
/// one. A name with an example takes up both widths; a name without fills
/// up to `SPACING`.
pub open spec fn page_spacing_spec(entries: Seq<(usize, Option<usize>)>, upto: int) -> (int, int)
    decreases upto,
{
    if upto <= 0 {
        (SPACING as int, 0)
    } else {
        let (spacing, largest) = page_spacing_spec(entries, upto - 1);
        let (width, example) = entries[upto - 1];
        match example {
            Some(columns) => (greater(spacing, width + columns), greater(largest, width as int)),
            None => (greater(spacing, width + minus(SPACING as int, width as int)), largest),
        }
    }
}

/// The column after which the descriptions of a page begin, and the width
/// of its widest name with an example.
pub fn page_spacing(entries: &Vec<(usize, Option<usize>)>) -> (found: (usize, usize))
    requires
        forall|i: int|
            0 <= i < entries@.len() ==> (#[trigger] entries@[i]).0 + SPACING + (match entries@[i].1 {
                Some(columns) => columns as int,
                None => 0,
            }) <= usize::MAX,
    ensures
        (found.0 as int, found.1 as int) == page_spacing_spec(entries@, entries@.len() as int),
{
    let mut spacing: usize = SPACING;
    let mut largest: usize = 0;
    let mut i: usize = 0;
    while i < entries.len()
        invariant
            i <= entries.len(),
            (spacing as int, largest as int) == page_spacing_spec(entries@, i as int),
            forall|k: int|
                0 <= k < entries@.len() ==> (#[trigger] entries@[k]).0 + SPACING + (
                match entries@[k].1 {
                    Some(columns) => columns as int,
                    None => 0,
                }) <= usize::MAX,
        decreases entries.len() - i,
    {
        let (width, example) = entries[i];
        let taken = match example {
            Some(columns) => {
                if width > largest {
                    largest = width;
                }
                width + columns
            },
            None => width + SPACING.saturating_sub(width),
        };
        if taken > spacing {
            spacing = taken;
        }
        i += 1;
    }
    (spacing, largest)
}

impl CommandType {
    /// The place of a part of a help page: flags first, operations second,
    /// the rest after them.
    pub open spec fn rank_spec(&self) -> u8 {
        match self {
            CommandType::Flag { .. } => 0,
            CommandType::Operation { .. } => 1,
            _ => 2,
        }
    }

    /// The place of the part of a help page that entries of this kind make
    /// up.
    pub fn rank(&self) -> (rank: u8)
        ensures
            rank == self.rank_spec(),
    {
        match self {
            CommandType::Flag { .. } => 0,
            CommandType::Operation { .. } => 1,
            _ => 2,
        }
    }

    /// The heading of the part of a help page that `count` entries of this
    /// kind make up: the kind in capitals, in the plural for more than one
    /// entry of a kind other than `Other`.
    pub open spec fn heading_spec(&self, count: nat) -> Seq<char> {
        let plural = count > 1;
        match self {
            CommandType::Flag { .. } => if plural {
                "FLAGS"@
            } else {
                "FLAG"@
            },
            CommandType::LongFlag { .. } => if plural {
                "LONGFLAGS"@
            } else {
                "LONGFLAG"@
            },
            CommandType::Operation { .. } => if plural {
                "OPERATIONS"@
            } else {
                "OPERATION"@
            },
            CommandType::Variadic { .. } => if plural {
                "VARIADICS"@
            } else {
                "VARIADIC"@
            },
            CommandType::Other { .. } => "OTHER"@,
        }
    }

    /// The heading of the part of a help page that `count` entries of this
    /// kind make up.
    pub fn heading(&self, count: usize) -> (heading: &'static str)
        ensures
            heading@ == self.heading_spec(count as nat),
    {
        let plural = count > 1;
        match self {
            CommandType::Flag { .. } => if plural {
                "FLAGS"
            } else {
                "FLAG"
            },
            CommandType::LongFlag { .. } => if plural {
                "LONGFLAGS"
            } else {
                "LONGFLAG"
            },
            CommandType::Operation { .. } => if plural {
                "OPERATIONS"
            } else {
                "OPERATION"
            },
            CommandType::Variadic { .. } => if plural {
                "VARIADICS"
            } else {
                "VARIADIC"
            },
            CommandType::Other { .. } => "OTHER",
        }
    }
}

} // verus!
