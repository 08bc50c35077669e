//! The closed set of style effects and their SGR codes.
use vstd::prelude::*;
use vstd::string::StringSliceAdditionalSpecFns;
use crate::bytes::{bytes_eq, DIGIT_ZERO, ESC, LEFT_SQUARE, LOWER_M};

verus! {

/// The decimal digits of `n`, most significant first.
pub open spec fn decimal(n: nat) -> Seq<u8>
    decreases n,
{
    if n < 10 {
        seq![(48 + n) as u8]
    } else {
        decimal(n / 10).push((48 + n % 10) as u8)
    }
}

/// The escape sequence that selects the SGR code `code`: `ESC [ <code> m`.
pub open spec fn escape_bytes(code: u8) -> Seq<u8> {
    seq![ESC, LEFT_SQUARE] + decimal(code as nat) + seq![LOWER_M]
}

/// A stylistic attribute of terminal text.
///
/// Equality and ordering go by the variant, not by the numeric code.
#[derive(Clone, Copy, Debug, PartialEq, Eq, PartialOrd, Ord, Hash, Structural)]
pub enum StyleEffect {
    Reset,
    Bold,
    Italic,
    Underline,
    Blink,
    Inverse,
    Hidden,
    Strikethrough,
    Black,
    Red,
    Green,
    Yellow,
    Blue,
    Magenta,
    Cyan,
    White,
    BrightBlack,
    BrightRed,
    BrightGreen,
    BrightYellow,
    BrightBlue,
    BrightMagenta,
    BrightCyan,
    BrightWhite,
    BlackBackground,
    RedBackground,
    GreenBackground,
    YellowBackground,
    BlueBackground,
    MagentaBackground,
    CyanBackground,
    WhiteBackground,
    BrightBlackBackground,
    BrightRedBackground,
    BrightGreenBackground,
    BrightYellowBackground,
    BrightBlueBackground,
    BrightMagentaBackground,
    BrightCyanBackground,
    BrightWhiteBackground,
}

impl StyleEffect {
    /// The position of a color among the eight base colors, black first.
    /// Decorations have none.
    pub open spec fn hue(self) -> Option<u8> {
        match self {
            Self::Black | Self::BrightBlack | Self::BlackBackground | Self::BrightBlackBackground => Some(0u8),
            Self::Red | Self::BrightRed | Self::RedBackground | Self::BrightRedBackground => Some(1u8),
            Self::Green | Self::BrightGreen | Self::GreenBackground | Self::BrightGreenBackground => Some(2u8),
            Self::Yellow | Self::BrightYellow | Self::YellowBackground | Self::BrightYellowBackground => Some(3u8),
            Self::Blue | Self::BrightBlue | Self::BlueBackground | Self::BrightBlueBackground => Some(4u8),
            Self::Magenta | Self::BrightMagenta | Self::MagentaBackground | Self::BrightMagentaBackground => Some(5u8),
            Self::Cyan | Self::BrightCyan | Self::CyanBackground | Self::BrightCyanBackground => Some(6u8),
            Self::White | Self::BrightWhite | Self::WhiteBackground | Self::BrightWhiteBackground => Some(7u8),
            _ => None,
        }
    }

    /// Whether this is a bright variant of a color.
    pub open spec fn is_bright(self) -> bool {
        match self {
            Self::BrightBlack
            | Self::BrightRed
            | Self::BrightGreen
            | Self::BrightYellow
            | Self::BrightBlue
            | Self::BrightMagenta
            | Self::BrightCyan
            | Self::BrightWhite
            | Self::BrightBlackBackground
            | Self::BrightRedBackground
            | Self::BrightGreenBackground
            | Self::BrightYellowBackground
            | Self::BrightBlueBackground
            | Self::BrightMagentaBackground
            | Self::BrightCyanBackground
            | Self::BrightWhiteBackground => true,
            _ => false,
        }
    }

    /// Whether this colors the background.
    pub open spec fn is_background(self) -> bool {
        match self {
            Self::BlackBackground
            | Self::RedBackground
            | Self::GreenBackground
            | Self::YellowBackground
            | Self::BlueBackground
            | Self::MagentaBackground
            | Self::CyanBackground
            | Self::WhiteBackground
            | Self::BrightBlackBackground
            | Self::BrightRedBackground
            | Self::BrightGreenBackground
            | Self::BrightYellowBackground
            | Self::BrightBlueBackground
            | Self::BrightMagentaBackground
            | Self::BrightCyanBackground
            | Self::BrightWhiteBackground => true,
            _ => false,
        }
    }

    /// The SGR code. Decorations have fixed codes; a color is 30 plus its hue,
    /// plus 60 when bright, plus 10 when it colors the background.
    pub open spec fn code_spec(self) -> u8 {
        match self {
            Self::Reset => 0u8,
            Self::Bold => 1u8,
            Self::Italic => 3u8,
            Self::Underline => 4u8,
            Self::Blink => 5u8,
            Self::Inverse => 7u8,
            Self::Hidden => 8u8,
            Self::Strikethrough => 9u8,
            _ => (30 + self.hue().unwrap() + (if self.is_bright() {
                60int
            } else {
                0int
            }) + (if self.is_background() {
                10int
            } else {
                0int
            })) as u8,
        }
    }

    /// The tag name: the variant's name in lower case.
    pub open spec fn name_spec(self) -> Seq<u8> {
        match self {
            Self::Reset => "reset".spec_bytes(),
            Self::Bold => "bold".spec_bytes(),
            Self::Italic => "italic".spec_bytes(),
            Self::Underline => "underline".spec_bytes(),
            Self::Blink => "blink".spec_bytes(),
            Self::Inverse => "inverse".spec_bytes(),
            Self::Hidden => "hidden".spec_bytes(),
            Self::Strikethrough => "strikethrough".spec_bytes(),
            Self::Black => "black".spec_bytes(),
            Self::Red => "red".spec_bytes(),
            Self::Green => "green".spec_bytes(),
            Self::Yellow => "yellow".spec_bytes(),
            Self::Blue => "blue".spec_bytes(),
            Self::Magenta => "magenta".spec_bytes(),
            Self::Cyan => "cyan".spec_bytes(),
            Self::White => "white".spec_bytes(),
            Self::BrightBlack => "brightblack".spec_bytes(),
            Self::BrightRed => "brightred".spec_bytes(),
            Self::BrightGreen => "brightgreen".spec_bytes(),
            Self::BrightYellow => "brightyellow".spec_bytes(),
            Self::BrightBlue => "brightblue".spec_bytes(),
            Self::BrightMagenta => "brightmagenta".spec_bytes(),
            Self::BrightCyan => "brightcyan".spec_bytes(),
            Self::BrightWhite => "brightwhite".spec_bytes(),
            Self::BlackBackground => "blackbackground".spec_bytes(),
            Self::RedBackground => "redbackground".spec_bytes(),
            Self::GreenBackground => "greenbackground".spec_bytes(),
            Self::YellowBackground => "yellowbackground".spec_bytes(),
            Self::BlueBackground => "bluebackground".spec_bytes(),
            Self::MagentaBackground => "magentabackground".spec_bytes(),
            Self::CyanBackground => "cyanbackground".spec_bytes(),
            Self::WhiteBackground => "whitebackground".spec_bytes(),
            Self::BrightBlackBackground => "brightblackbackground".spec_bytes(),
            Self::BrightRedBackground => "brightredbackground".spec_bytes(),
            Self::BrightGreenBackground => "brightgreenbackground".spec_bytes(),
            Self::BrightYellowBackground => "brightyellowbackground".spec_bytes(),
            Self::BrightBlueBackground => "brightbluebackground".spec_bytes(),
            Self::BrightMagentaBackground => "brightmagentabackground".spec_bytes(),
            Self::BrightCyanBackground => "brightcyanbackground".spec_bytes(),
            Self::BrightWhiteBackground => "brightwhitebackground".spec_bytes(),
        }
    }

    /// The effect that a tag name stands for. Names are case-sensitive.
    pub open spec fn from_name_spec(name: Seq<u8>) -> Option<StyleEffect> {
        if name == "reset".spec_bytes() {
            Some(Self::Reset)
        } else if name == "bold".spec_bytes() {
            Some(Self::Bold)
        } else if name == "italic".spec_bytes() {
            Some(Self::Italic)
        } else if name == "underline".spec_bytes() {
            Some(Self::Underline)
        } else if name == "blink".spec_bytes() {
            Some(Self::Blink)
        } else if name == "inverse".spec_bytes() {
            Some(Self::Inverse)
        } else if name == "hidden".spec_bytes() {
            Some(Self::Hidden)
        } else if name == "strikethrough".spec_bytes() {
            Some(Self::Strikethrough)
        } else if name == "black".spec_bytes() {
            Some(Self::Black)
        } else if name == "red".spec_bytes() {
            Some(Self::Red)
        } else if name == "green".spec_bytes() {
            Some(Self::Green)
        } else if name == "yellow".spec_bytes() {
            Some(Self::Yellow)
        } else if name == "blue".spec_bytes() {
            Some(Self::Blue)
        } else if name == "magenta".spec_bytes() {
            Some(Self::Magenta)
        } else if name == "cyan".spec_bytes() {
            Some(Self::Cyan)
        } else if name == "white".spec_bytes() {
            Some(Self::White)
        } else if name == "brightblack".spec_bytes() {
            Some(Self::BrightBlack)
        } else if name == "brightred".spec_bytes() {
            Some(Self::BrightRed)
        } else if name == "brightgreen".spec_bytes() {
            Some(Self::BrightGreen)
        } else if name == "brightyellow".spec_bytes() {
            Some(Self::BrightYellow)
        } else if name == "brightblue".spec_bytes() {
            Some(Self::BrightBlue)
        } else if name == "brightmagenta".spec_bytes() {
            Some(Self::BrightMagenta)
        } else if name == "brightcyan".spec_bytes() {
            Some(Self::BrightCyan)
        } else if name == "brightwhite".spec_bytes() {
            Some(Self::BrightWhite)
        } else if name == "blackbackground".spec_bytes() {
            Some(Self::BlackBackground)
        } else if name == "redbackground".spec_bytes() {
            Some(Self::RedBackground)
        } else if name == "greenbackground".spec_bytes() {
            Some(Self::GreenBackground)
        } else if name == "yellowbackground".spec_bytes() {
            Some(Self::YellowBackground)
        } else if name == "bluebackground".spec_bytes() {
            Some(Self::BlueBackground)
        } else if name == "magentabackground".spec_bytes() {
            Some(Self::MagentaBackground)
        } else if name == "cyanbackground".spec_bytes() {
            Some(Self::CyanBackground)
        } else if name == "whitebackground".spec_bytes() {
            Some(Self::WhiteBackground)
        } else if name == "brightblackbackground".spec_bytes() {
            Some(Self::BrightBlackBackground)
        } else if name == "brightredbackground".spec_bytes() {
            Some(Self::BrightRedBackground)
        } else if name == "brightgreenbackground".spec_bytes() {
            Some(Self::BrightGreenBackground)
        } else if name == "brightyellowbackground".spec_bytes() {
            Some(Self::BrightYellowBackground)
        } else if name == "brightbluebackground".spec_bytes() {
            Some(Self::BrightBlueBackground)
        } else if name == "brightmagentabackground".spec_bytes() {
            Some(Self::BrightMagentaBackground)
        } else if name == "brightcyanbackground".spec_bytes() {
            Some(Self::BrightCyanBackground)
        } else if name == "brightwhitebackground".spec_bytes() {
            Some(Self::BrightWhiteBackground)
        } else {
            None
        }
    }

    /// The escape sequence that switches this effect on.
    pub open spec fn escape_spec(self) -> Seq<u8> {
        escape_bytes(self.code_spec())
    }

    /// The code of a color: `base` plus 10 for a background, plus 60 for a
    /// bright variant.
    fn shade(base: u8, bright: bool, background: bool) -> (code: u8)
        requires
            base <= 37,
        ensures
            code == base + (if bright {
                60int
            } else {
                0int
            }) + (if background {
                10int
            } else {
                0int
            }),
    {
        let with_ground: u8 = if background {
            base + 10
        } else {
            base
        };
        if bright {
            with_ground + 60
        } else {
            with_ground
        }
    }

    /// The numeric SGR code of this effect.
    pub fn code(&self) -> (code: u8)
        ensures
            code == self.code_spec(),
    {
        match self {
            Self::Reset => 0,
            Self::Bold => 1,
            Self::Italic => 3,
            Self::Underline => 4,
            Self::Blink => 5,
            Self::Inverse => 7,
            Self::Hidden => 8,
            Self::Strikethrough => 9,
            Self::Black => 30,
            Self::Red => 31,
            Self::Green => 32,
            Self::Yellow => 33,
            Self::Blue => 34,
            Self::Magenta => 35,
            Self::Cyan => 36,
            Self::White => 37,
            Self::BrightBlack => Self::shade(30, true, false),
            Self::BrightRed => Self::shade(31, true, false),
            Self::BrightGreen => Self::shade(32, true, false),
            Self::BrightYellow => Self::shade(33, true, false),
            Self::BrightBlue => Self::shade(34, true, false),
            Self::BrightMagenta => Self::shade(35, true, false),
            Self::BrightCyan => Self::shade(36, true, false),
            Self::BrightWhite => Self::shade(37, true, false),
            Self::BlackBackground => Self::shade(30, false, true),
            Self::RedBackground => Self::shade(31, false, true),
            Self::GreenBackground => Self::shade(32, false, true),
            Self::YellowBackground => Self::shade(33, false, true),
            Self::BlueBackground => Self::shade(34, false, true),
            Self::MagentaBackground => Self::shade(35, false, true),
            Self::CyanBackground => Self::shade(36, false, true),
            Self::WhiteBackground => Self::shade(37, false, true),
            Self::BrightBlackBackground => Self::shade(30, true, true),
            Self::BrightRedBackground => Self::shade(31, true, true),
            Self::BrightGreenBackground => Self::shade(32, true, true),
            Self::BrightYellowBackground => Self::shade(33, true, true),
            Self::BrightBlueBackground => Self::shade(34, true, true),
            Self::BrightMagentaBackground => Self::shade(35, true, true),
            Self::BrightCyanBackground => Self::shade(36, true, true),
            Self::BrightWhiteBackground => Self::shade(37, true, true),
        }
    }

    /// The bytes `ESC [ <code> m`.
    pub fn to_escape(&self) -> (bytes: Vec<u8>)
        ensures
            bytes@ == self.escape_spec(),
    {
        let mut bytes: Vec<u8> = Vec::new();
        push_escape(&mut bytes, self.code());
        assert(bytes@ =~= self.escape_spec());
        bytes
    }

    /// The tag name of this effect.
    pub fn name(&self) -> (name: &'static str)
        ensures
            name.spec_bytes() == self.name_spec(),
    {
        match self {
            Self::Reset => "reset",
            Self::Bold => "bold",
            Self::Italic => "italic",
            Self::Underline => "underline",
            Self::Blink => "blink",
            Self::Inverse => "inverse",
            Self::Hidden => "hidden",
            Self::Strikethrough => "strikethrough",
            Self::Black => "black",
            Self::Red => "red",
            Self::Green => "green",
            Self::Yellow => "yellow",
            Self::Blue => "blue",
            Self::Magenta => "magenta",
            Self::Cyan => "cyan",
            Self::White => "white",
            Self::BrightBlack => "brightblack",
            Self::BrightRed => "brightred",
            Self::BrightGreen => "brightgreen",
            Self::BrightYellow => "brightyellow",
            Self::BrightBlue => "brightblue",
            Self::BrightMagenta => "brightmagenta",
            Self::BrightCyan => "brightcyan",
            Self::BrightWhite => "brightwhite",
            Self::BlackBackground => "blackbackground",
            Self::RedBackground => "redbackground",
            Self::GreenBackground => "greenbackground",
            Self::YellowBackground => "yellowbackground",
            Self::BlueBackground => "bluebackground",
            Self::MagentaBackground => "magentabackground",
            Self::CyanBackground => "cyanbackground",
            Self::WhiteBackground => "whitebackground",
            Self::BrightBlackBackground => "brightblackbackground",
            Self::BrightRedBackground => "brightredbackground",
            Self::BrightGreenBackground => "brightgreenbackground",
            Self::BrightYellowBackground => "brightyellowbackground",
            Self::BrightBlueBackground => "brightbluebackground",
            Self::BrightMagentaBackground => "brightmagentabackground",
            Self::BrightCyanBackground => "brightcyanbackground",
            Self::BrightWhiteBackground => "brightwhitebackground",
        }
    }

    /// Looks a tag name up. `None` for a name that no effect has.
    pub fn from_name(name: &[u8]) -> (effect: Option<StyleEffect>)
        ensures
            effect == Self::from_name_spec(name@),
    {
        if bytes_eq(name, "reset".as_bytes()) {
            Some(Self::Reset)
        } else if bytes_eq(name, "bold".as_bytes()) {
            Some(Self::Bold)
        } else if bytes_eq(name, "italic".as_bytes()) {
            Some(Self::Italic)
        } else if bytes_eq(name, "underline".as_bytes()) {
            Some(Self::Underline)
        } else if bytes_eq(name, "blink".as_bytes()) {
            Some(Self::Blink)
        } else if bytes_eq(name, "inverse".as_bytes()) {
            Some(Self::Inverse)
        } else if bytes_eq(name, "hidden".as_bytes()) {
            Some(Self::Hidden)
        } else if bytes_eq(name, "strikethrough".as_bytes()) {
            Some(Self::Strikethrough)
        } else if bytes_eq(name, "black".as_bytes()) {
            Some(Self::Black)
        } else if bytes_eq(name, "red".as_bytes()) {
            Some(Self::Red)
        } else if bytes_eq(name, "green".as_bytes()) {
            Some(Self::Green)
        } else if bytes_eq(name, "yellow".as_bytes()) {
            Some(Self::Yellow)
        } else if bytes_eq(name, "blue".as_bytes()) {
            Some(Self::Blue)
        } else if bytes_eq(name, "magenta".as_bytes()) {
            Some(Self::Magenta)
        } else if bytes_eq(name, "cyan".as_bytes()) {
            Some(Self::Cyan)
        } else if bytes_eq(name, "white".as_bytes()) {
            Some(Self::White)
        } else if bytes_eq(name, "brightblack".as_bytes()) {
            Some(Self::BrightBlack)
        } else if bytes_eq(name, "brightred".as_bytes()) {
            Some(Self::BrightRed)
        } else if bytes_eq(name, "brightgreen".as_bytes()) {
            Some(Self::BrightGreen)
        } else if bytes_eq(name, "brightyellow".as_bytes()) {
            Some(Self::BrightYellow)
        } else if bytes_eq(name, "brightblue".as_bytes()) {
            Some(Self::BrightBlue)
        } else if bytes_eq(name, "brightmagenta".as_bytes()) {
            Some(Self::BrightMagenta)
        } else if bytes_eq(name, "brightcyan".as_bytes()) {
            Some(Self::BrightCyan)
        } else if bytes_eq(name, "brightwhite".as_bytes()) {
            Some(Self::BrightWhite)
        } else if bytes_eq(name, "blackbackground".as_bytes()) {
            Some(Self::BlackBackground)
        } else if bytes_eq(name, "redbackground".as_bytes()) {
            Some(Self::RedBackground)
        } else if bytes_eq(name, "greenbackground".as_bytes()) {
            Some(Self::GreenBackground)
        } else if bytes_eq(name, "yellowbackground".as_bytes()) {
            Some(Self::YellowBackground)
        } else if bytes_eq(name, "bluebackground".as_bytes()) {
            Some(Self::BlueBackground)
        } else if bytes_eq(name, "magentabackground".as_bytes()) {
            Some(Self::MagentaBackground)
        } else if bytes_eq(name, "cyanbackground".as_bytes()) {
            Some(Self::CyanBackground)
        } else if bytes_eq(name, "whitebackground".as_bytes()) {
            Some(Self::WhiteBackground)
        } else if bytes_eq(name, "brightblackbackground".as_bytes()) {
            Some(Self::BrightBlackBackground)
        } else if bytes_eq(name, "brightredbackground".as_bytes()) {
            Some(Self::BrightRedBackground)
        } else if bytes_eq(name, "brightgreenbackground".as_bytes()) {
            Some(Self::BrightGreenBackground)
        } else if bytes_eq(name, "brightyellowbackground".as_bytes()) {
            Some(Self::BrightYellowBackground)
        } else if bytes_eq(name, "brightbluebackground".as_bytes()) {
            Some(Self::BrightBlueBackground)
        } else if bytes_eq(name, "brightmagentabackground".as_bytes()) {
            Some(Self::BrightMagentaBackground)
        } else if bytes_eq(name, "brightcyanbackground".as_bytes()) {
            Some(Self::BrightCyanBackground)
        } else if bytes_eq(name, "brightwhitebackground".as_bytes()) {
            Some(Self::BrightWhiteBackground)
        } else {
            None
        }
    }
}

/// Appends the decimal digits of `n` to `out`.
pub fn push_decimal(out: &mut Vec<u8>, n: u64)
    ensures
        final(out)@ == old(out)@ + decimal(n as nat),
    decreases n,
{
    if n >= 10 {
        push_decimal(out, n / 10);
    }
    out.push(DIGIT_ZERO + (n % 10) as u8);
    assert(out@ =~= old(out)@ + decimal(n as nat));
}

/// Appends `ESC [ <code> m` to `out`.
pub fn push_escape(out: &mut Vec<u8>, code: u8)
    ensures
        final(out)@ == old(out)@ + escape_bytes(code),
{
    out.push(ESC);
    out.push(LEFT_SQUARE);
    if code >= 100 {
        out.push(DIGIT_ZERO + code / 100);
    }
    if code >= 10 {
        out.push(DIGIT_ZERO + (code / 10) % 10);
    }
    out.push(DIGIT_ZERO + code % 10);
    out.push(LOWER_M);
    proof {
        let n = code as nat;
        if n >= 100 {
            assert(decimal(n / 100) =~= seq![(48 + n / 100) as u8]);
            assert(decimal(n / 10) =~= decimal(n / 100).push((48 + (n / 10) % 10) as u8));
        } else if n >= 10 {
            assert(decimal(n / 10) =~= seq![(48 + n / 10) as u8]);
        }
        assert(final(out)@ =~= old(out)@ + escape_bytes(code));
    }
}

} // verus!
