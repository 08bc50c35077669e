//! The fixed vocabulary of inline tokens that stand for a banner.
use vstd::prelude::*;
use vstd::string::StringSliceAdditionalSpecFns;
use crate::bytes::bytes_eq;

verus! {

/// A named token, written `:name:` or, as a word of its own, `$name`. Each
/// one stands for a banner that is itself markup.
#[derive(Clone, Copy, Debug, PartialEq, Eq, PartialOrd, Ord, Hash, Structural)]
pub enum LexiconToken {
    /// Marks a message that is printed where the program would otherwise
    /// have aborted.
    PreventsPanic,
}

impl LexiconToken {
    /// The name by which the token is addressed.
    pub open spec fn name_spec(self) -> Seq<u8> {
        match self {
            Self::PreventsPanic => "preventspanic".spec_bytes(),
        }
    }

    /// The token that a name stands for. Names are case-sensitive.
    pub open spec fn from_name_spec(name: Seq<u8>) -> Option<LexiconToken> {
        if name == "preventspanic".spec_bytes() {
            Some(Self::PreventsPanic)
        } else {
            None
        }
    }

    /// The markup of the token's banner.
    pub open spec fn markup_spec(self) -> Seq<u8> {
        match self {
            Self::PreventsPanic =>
                "<redbackground><red>[</red><bold>THIS MESSAGE PREVENTS A PANIC!</bold><red>]</red></redbackground>".spec_bytes(),
        }
    }

    /// The name by which the token is addressed.
    pub fn name(&self) -> (name: &'static str)
        ensures
            name.spec_bytes() == self.name_spec(),
    {
        match self {
            Self::PreventsPanic => "preventspanic",
        }
    }

    /// Looks a token up by its name.
    pub fn from_name(name: &[u8]) -> (token: Option<LexiconToken>)
        ensures
            token == Self::from_name_spec(name@),
    {
        if bytes_eq(name, "preventspanic".as_bytes()) {
            Some(Self::PreventsPanic)
        } else {
            None
        }
    }

    /// The markup of the token's banner.
    pub fn markup(&self) -> (markup: &'static str)
        ensures
            markup.spec_bytes() == self.markup_spec(),
    {
        match self {
            Self::PreventsPanic =>
                "<redbackground><red>[</red><bold>THIS MESSAGE PREVENTS A PANIC!</bold><red>]</red></redbackground>",
        }
    }
}

} // verus!
