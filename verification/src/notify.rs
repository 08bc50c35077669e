//! What a desktop notification is made of.
use vstd::prelude::*;
use vstd::string::StringExecFns;
use crate::ops::{str_trim, trim_white_space};

verus! {

/// How urgent a notification is.
#[derive(Clone, Copy, Debug, PartialEq, Eq, Structural)]
pub enum Urgency {
    Low,
    Normal,
    Critical,
}

/// What is wrong with the arguments of a notification.
#[derive(Clone, Copy, Debug, PartialEq, Eq, Structural)]
pub enum NotifyComplaint {
    /// There is no message.
    NoMessage,
    /// The level is none of 0, 1 and 2.
    InvalidLevel,
}

/// The urgency that a level stands for: 0 is low, 2 is critical, and any
/// other level is normal.
pub open spec fn urgency_spec(level: u8) -> Urgency {
    if level == 0 {
        Urgency::Low
    } else if level == 2 {
        Urgency::Critical
    } else {
        Urgency::Normal
    }
}

/// The urgency that a level stands for.
pub fn urgency_of(level: u8) -> (urgency: Urgency)
    ensures
        urgency == urgency_spec(level),
{
    match level {
        0 => Urgency::Low,
        2 => Urgency::Critical,
        _ => Urgency::Normal,
    }
}

/// The title of a notification: the one that is given, unless none is given
/// or it is blank; then it is the name of the program.
pub open spec fn title_spec(title: Option<Seq<char>>) -> Seq<char> {
    match title {
        Some(given) => if trim_white_space(given).len() == 0 {
            "ctr"@
        } else {
            given
        },
        None => "ctr"@,
    }
}

/// The title of a notification.
pub fn notification_title(title: Option<&str>) -> (shown: String)
    ensures
        shown@ == title_spec(
            match title {
                Some(given) => Some(given@),
                None => None,
            },
        ),
{
    match title {
        Some(given) => if str_trim(given).is_empty() {
            String::from_str("ctr")
        } else {
            String::from_str(given)
        },
        None => String::from_str("ctr"),
    }
}

/// What is wrong with the arguments of a notification, the first fault
/// first. Nothing is wrong where only the help page is asked for.
pub open spec fn complaint_spec(help: bool, words: nat, level: Option<u8>) -> Option<
    NotifyComplaint,
> {
    if help {
        None
    } else if words == 0 {
        Some(NotifyComplaint::NoMessage)
    } else if level.is_some() && level.unwrap() > 2 {
        Some(NotifyComplaint::InvalidLevel)
    } else {
        None
    }
}

/// What is wrong with the arguments of a notification: `words` is the
/// number of words of the message.
pub fn validate(help: bool, words: usize, level: Option<u8>) -> (complaint: Option<NotifyComplaint>)
    ensures
        complaint == complaint_spec(help, words as nat, level),
{
    if help {
        return None;
    }
    if words == 0 {
        return Some(NotifyComplaint::NoMessage);
    }
    match level {
        Some(level) => if level > 2 {
            Some(NotifyComplaint::InvalidLevel)
        } else {
            None
        },
        None => None,
    }
}

impl NotifyComplaint {
    /// The complaint in words.
    pub fn message(&self) -> (message: &'static str)
        ensures
            message@ == (match self {
                NotifyComplaint::NoMessage => "No message provided"@,
                NotifyComplaint::InvalidLevel => "Invalid urgency level"@,
            }),
    {
        match self {
            NotifyComplaint::NoMessage => "No message provided",
            NotifyComplaint::InvalidLevel => "Invalid urgency level",
        }
    }
}

} // verus!
