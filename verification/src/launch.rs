//! How a command is launched: the settings that a configuration makes, and
//! the command line that they come to.
use vstd::prelude::*;
use vstd::slice::slice_subrange;
use vstd::string::{StringExecFns, StringSliceAdditionalSpecFns};
use crate::bytes::{bytes_eq, last_index_of_byte, lemma_last_index_of_byte, rfind_byte, SLASH};
use crate::distance::words_of;

verus! {

/// As whom a command is run, as far as a configuration says.
#[derive(Clone, Debug)]
pub struct LaunchConfigRunAs {
    /// Whether the command is run through `sudo`.
    pub sudo: Option<bool>,
    /// The user to run it as.
    pub user: Option<String>,
    /// The group to run it as.
    pub group: Option<String>,
}

/// The general settings of a configuration.
#[derive(Clone, Debug)]
pub struct LaunchConfigGeneral {
    /// Whether the command inherits the environment.
    pub preserve_env: Option<bool>,
    /// Whether the command runs in the background.
    pub deamonize: Option<bool>,
    /// The directory that the command runs in.
    pub working_dir: Option<String>,
    /// The command.
    pub command: Option<String>,
    /// The shell that runs the command.
    pub shell: Option<String>,
}

/// `other` where it makes a setting, else `own`.
pub open spec fn overridden<T>(own: Option<T>, other: Option<T>) -> Option<T> {
    if other.is_some() {
        other
    } else {
        own
    }
}

/// The view of an optional string.
pub open spec fn text_of(setting: Option<String>) -> Option<Seq<char>> {
    match setting {
        Some(text) => Some(text@),
        None => None,
    }
}

/// `other` where it makes a setting, else `own`.
pub fn override_flag(own: Option<bool>, other: Option<bool>) -> (merged: Option<bool>)
    ensures
        merged == overridden(own, other),
{
    if other.is_some() {
        other
    } else {
        own
    }
}

/// `other` where it makes a setting, else `own`.
pub fn override_text(own: Option<String>, other: &Option<String>) -> (merged: Option<String>)
    ensures
        text_of(merged) == overridden(text_of(own), text_of(*other)),
{
    match other {
        Some(text) => Some(text.clone()),
        None => own,
    }
}

impl LaunchConfigGeneral {
    /// Takes over every setting that `other` makes.
    pub fn merge(self, other: &LaunchConfigGeneral) -> (merged: Self)
        ensures
            merged.preserve_env == overridden(self.preserve_env, other.preserve_env),
            merged.deamonize == overridden(self.deamonize, other.deamonize),
            text_of(merged.working_dir) == overridden(
                text_of(self.working_dir),
                text_of(other.working_dir),
            ),
            text_of(merged.command) == overridden(text_of(self.command), text_of(other.command)),
            text_of(merged.shell) == overridden(text_of(self.shell), text_of(other.shell)),
    {
        LaunchConfigGeneral {
            preserve_env: override_flag(self.preserve_env, other.preserve_env),
            deamonize: override_flag(self.deamonize, other.deamonize),
            working_dir: override_text(self.working_dir, &other.working_dir),
            command: override_text(self.command, &other.command),
            shell: override_text(self.shell, &other.shell),
        }
    }
}

impl LaunchConfigRunAs {
    /// Whether the command is run through `sudo`; it is not unless the
    /// configuration says so.
    pub open spec fn spec_uses_sudo(&self) -> bool {
        self.sudo == Some(true)
    }

    /// Whether the command is run through `sudo`; it is not unless the
    /// configuration says so.
    #[verifier::when_used_as_spec(spec_uses_sudo)]
    pub fn uses_sudo(&self) -> (sudo: bool)
        ensures
            sudo == self.spec_uses_sudo(),
    {
        match self.sudo {
            Some(sudo) => sudo,
            None => false,
        }
    }

    /// Takes over every setting that `other` makes.
    pub fn merge(self, other: &LaunchConfigRunAs) -> (merged: Self)
        ensures
            merged.sudo == overridden(self.sudo, other.sudo),
            text_of(merged.user) == overridden(text_of(self.user), text_of(other.user)),
            text_of(merged.group) == overridden(text_of(self.group), text_of(other.group)),
    {
        LaunchConfigRunAs {
            sudo: override_flag(self.sudo, other.sudo),
            user: override_text(self.user, &other.user),
            group: override_text(self.group, &other.group),
        }
    }
}

/// What two configurations say of whom to run as, taken together: where only
/// one says anything, that; where both do, the first with every setting that
/// the second makes.
pub fn merge_run_as(own: Option<LaunchConfigRunAs>, other: &Option<LaunchConfigRunAs>) -> (merged:
    Option<LaunchConfigRunAs>)
    ensures
        match (own, *other) {
            (Some(mine), Some(theirs)) => merged matches Some(both) && both.sudo == overridden(
                mine.sudo,
                theirs.sudo,
            ) && text_of(both.user) == overridden(text_of(mine.user), text_of(theirs.user))
                && text_of(both.group) == overridden(text_of(mine.group), text_of(theirs.group)),
            (Some(mine), None) => merged == Some(mine),
            (None, Some(theirs)) => merged matches Some(taken) && taken.sudo == theirs.sudo
                && text_of(taken.user) == text_of(theirs.user) && text_of(taken.group) == text_of(
                theirs.group,
            ),
            (None, None) => merged.is_none(),
        },
{
    match own {
        Some(mine) => match other {
            Some(theirs) => Some(mine.merge(theirs)),
            None => Some(mine),
        },
        None => match other {
            Some(theirs) => Some(
                LaunchConfigRunAs {
                    sudo: theirs.sudo,
                    user: override_text(None, &theirs.user),
                    group: override_text(None, &theirs.group),
                },
            ),
            None => None,
        },
    }
}

/// The words that put a command under `sudo`: the user after `-u` and the
/// group after `-g`, where they are given, and `--` at the end.
pub open spec fn sudo_words(run_as: LaunchConfigRunAs) -> Seq<Seq<char>> {
    seq!["sudo"@] + (match run_as.user {
        Some(user) => seq!["-u"@, user@],
        None => Seq::empty(),
    }) + (match run_as.group {
        Some(group) => seq!["-g"@, group@],
        None => Seq::empty(),
    }) + seq!["--"@]
}

/// The words of the command line that launches `command` in `shell`: the
/// words of `sudo` where it is asked for, the shell with `-c`, and the
/// command, after `setsid` where it is to run in the background.
pub open spec fn launch_spec(
    shell: Seq<char>,
    command: Seq<char>,
    daemonize: bool,
    run_as: Option<LaunchConfigRunAs>,
) -> Seq<Seq<char>> {
    (match run_as {
        Some(run_as) => if run_as.spec_uses_sudo() {
            sudo_words(run_as)
        } else {
            Seq::empty()
        },
        None => Seq::empty(),
    }) + seq![shell, "-c"@] + seq![
        if daemonize {
            "setsid "@ + command
        } else {
            command
        },
    ]
}

/// The words of the command line that launches `command` in `shell`.
pub fn launch_arguments(
    shell: &str,
    command: &str,
    daemonize: bool,
    run_as: Option<&LaunchConfigRunAs>,
) -> (words: Vec<String>)
    ensures
        words_of(words@) == launch_spec(
            shell@,
            command@,
            daemonize,
            match run_as {
                Some(who) => Some(*who),
                None => None,
            },
        ),
{
    let mut words: Vec<String> = Vec::new();
    match run_as {
        Some(who) => {
            if who.uses_sudo() {
                words.push(String::from_str("sudo"));
                match &who.user {
                    Some(user) => {
                        words.push(String::from_str("-u"));
                        words.push(user.clone());
                    },
                    None => {},
                }
                match &who.group {
                    Some(group) => {
                        words.push(String::from_str("-g"));
                        words.push(group.clone());
                    },
                    None => {},
                }
                words.push(String::from_str("--"));
            }
        },
        None => {},
    }
    words.push(String::from_str(shell));
    words.push(String::from_str("-c"));
    if daemonize {
        words.push(String::from_str("setsid ").concat(command));
    } else {
        words.push(String::from_str(command));
    }
    assert(words_of(words@) =~= launch_spec(
        shell@,
        command@,
        daemonize,
        match run_as {
            Some(who) => Some(*who),
            None => None,
        },
    ));
    words
}

/// The last component of a path: what follows its last `/`.
pub open spec fn last_component(path: Seq<u8>) -> Seq<u8> {
    match last_index_of_byte(path, SLASH, path.len() as int) {
        Some(slash) => path.subrange(slash + 1, path.len() as int),
        None => path,
    }
}

/// A shell that completions can be generated for.
#[derive(Clone, Copy, Debug, PartialEq, Eq, Structural)]
pub enum ShellKind {
    Bash,
    Zsh,
    Fish,
    Nu,
    PowerShell,
    Elvish,
}

/// The shell that a name stands for.
pub open spec fn shell_named(name: Seq<u8>) -> Option<ShellKind> {
    if name == "bash".spec_bytes() {
        Some(ShellKind::Bash)
    } else if name == "zsh".spec_bytes() {
        Some(ShellKind::Zsh)
    } else if name == "fish".spec_bytes() {
        Some(ShellKind::Fish)
    } else if name == "nushell".spec_bytes() {
        Some(ShellKind::Nu)
    } else if name == "powershell".spec_bytes() {
        Some(ShellKind::PowerShell)
    } else if name == "elvish".spec_bytes() {
        Some(ShellKind::Elvish)
    } else {
        None
    }
}

/// What is amiss with the shell that the environment names.
#[derive(Clone, Copy, Debug, PartialEq, Eq, Structural)]
pub enum ShellWarning {
    /// The environment names a shell that the program does not know.
    Unknown,
    /// The environment names no shell.
    Unset,
}

/// The shell to generate completions for, and what is amiss with the one
/// that the environment names. `shell` is the path of the user's shell, if
/// the environment gives one: its last component decides, and for a shell
/// that the program does not know it is `Bash`. Without a path it is
/// `PowerShell` for the family `Windows` and `Bash` for any other.
pub open spec fn detect_shell_spec(shell: Option<Seq<u8>>, family: Seq<u8>) -> (
    ShellKind,
    Option<ShellWarning>,
) {
    match shell {
        Some(path) => match shell_named(last_component(path)) {
            Some(kind) => (kind, None),
            None => (ShellKind::Bash, Some(ShellWarning::Unknown)),
        },
        None => (
            if family == "Windows".spec_bytes() {
                ShellKind::PowerShell
            } else {
                ShellKind::Bash
            },
            Some(ShellWarning::Unset),
        ),
    }
}

/// Looks a shell up by its name.
pub fn shell_by_name(name: &[u8]) -> (kind: Option<ShellKind>)
    ensures
        kind == shell_named(name@),
{
    if bytes_eq(name, "bash".as_bytes()) {
        Some(ShellKind::Bash)
    } else if bytes_eq(name, "zsh".as_bytes()) {
        Some(ShellKind::Zsh)
    } else if bytes_eq(name, "fish".as_bytes()) {
        Some(ShellKind::Fish)
    } else if bytes_eq(name, "nushell".as_bytes()) {
        Some(ShellKind::Nu)
    } else if bytes_eq(name, "powershell".as_bytes()) {
        Some(ShellKind::PowerShell)
    } else if bytes_eq(name, "elvish".as_bytes()) {
        Some(ShellKind::Elvish)
    } else {
        None
    }
}

/// The shell to generate completions for, and what is amiss with the one
/// that the environment names.
pub fn detect_shell(shell: Option<&str>, family: &str) -> (found: (ShellKind, Option<ShellWarning>))
    ensures
        found == detect_shell_spec(
            match shell {
                Some(path) => Some(path.spec_bytes()),
                None => None,
            },
            family.spec_bytes(),
        ),
{
    match shell {
        Some(path) => {
            let bytes = path.as_bytes();
            proof {
                lemma_last_index_of_byte(bytes@, SLASH, bytes@.len() as int);
            }
            let name = match rfind_byte(bytes, SLASH, bytes.len()) {
                Some(slash) => slice_subrange(bytes, slash + 1, bytes.len()),
                None => bytes,
            };
            match shell_by_name(name) {
                Some(kind) => (kind, None),
                None => (ShellKind::Bash, Some(ShellWarning::Unknown)),
            }
        },
        None => (
            if bytes_eq(family.as_bytes(), "Windows".as_bytes()) {
                ShellKind::PowerShell
            } else {
                ShellKind::Bash
            },
            Some(ShellWarning::Unset),
        ),
    }
}

} // verus!
