//! The texts that the command line prints about itself: the slogan, the
//! version, and the complaint about arguments that exclude each other.
use vstd::prelude::*;
use vstd::slice::slice_subrange;
use vstd::string::{StrSliceExecFns, StringExecFns, StringSliceAdditionalSpecFns};
use vstd::utf8::{decode_utf8, encode_utf8, valid_utf8};
use crate::bytes::{find_from, first_occurrence, lemma_first_occurrence};
use crate::distance::{nearest_spec, words_of};
use crate::effect::{decimal, push_decimal, StyleEffect};
use crate::help::{Command, CommandType};
use crate::ops::{drop_white_space, str_trim, str_trim_end, trim_white_space};
use crate::text::{str_from_utf8, StyledText};

verus! {

/// The name of the program.
pub const BINARY_NAME: &'static str = "ctr";

/// The channel that an upgrade is built from.
#[derive(Clone, Copy, Debug, PartialEq, Eq, Structural)]
pub enum UpdateChannel {
    /// Release builds.
    Stable,
    /// Development builds.
    Unstable,
}

impl UpdateChannel {
    /// The name of the channel as it is written on the command line.
    pub open spec fn name_spec(self) -> Seq<char> {
        match self {
            UpdateChannel::Stable => "stable"@,
            UpdateChannel::Unstable => "unstable"@,
        }
    }

    /// The directory below `target` that a build of the channel lands in.
    pub open spec fn target_spec(self) -> Seq<char> {
        match self {
            UpdateChannel::Stable => "release"@,
            UpdateChannel::Unstable => "debug"@,
        }
    }

    /// The name of the channel as it is written on the command line.
    pub fn to_str(&self) -> (name: &'static str)
        ensures
            name@ == self.name_spec(),
    {
        match self {
            UpdateChannel::Stable => "stable",
            UpdateChannel::Unstable => "unstable",
        }
    }

    /// The directory below `target` that a build of the channel lands in.
    pub fn target_dir(&self) -> (name: &'static str)
        ensures
            name@ == self.target_spec(),
    {
        match self {
            UpdateChannel::Stable => "release",
            UpdateChannel::Unstable => "debug",
        }
    }
}

/// `s` from index `at` on, with every occurrence of `from` replaced by `to`;
/// the occurrences are found left to right and do not overlap.
pub open spec fn replace_each_from(s: Seq<u8>, from: Seq<u8>, to: Seq<u8>, at: int) -> Seq<u8>
    decreases s.len() - at,
    when from.len() > 0 && 0 <= at
{
    match first_occurrence(s, from, at) {
        Some(i) => {
            proof {
                lemma_first_occurrence(s, from, at);
            }
            s.subrange(at, i) + to + replace_each_from(s, from, to, i + from.len())
        },
        None => s.subrange(at, s.len() as int),
    }
}

/// `s` with every occurrence of `from` replaced by `to`.
pub open spec fn replace_each(s: Seq<u8>, from: Seq<u8>, to: Seq<u8>) -> Seq<u8> {
    replace_each_from(s, from, to, 0)
}

/// The name of the program between `<magenta>` tags.
pub open spec fn colored_name() -> Seq<u8> {
    "<magenta>".spec_bytes() + BINARY_NAME.spec_bytes() + "</magenta>".spec_bytes()
}

/// The slogan: the description with the program's name in magenta, then the
/// version in brackets, then a line feed.
pub open spec fn slogan_spec(description: Seq<u8>, version: Seq<u8>) -> Seq<u8> {
    replace_each(description, BINARY_NAME.spec_bytes(), colored_name()) + " <brightblack>(v".spec_bytes()
        + version + ")</brightblack>\n".spec_bytes()
}

/// The names of the arguments that are set, in their order.
pub open spec fn chosen(args: Seq<(&str, bool)>) -> Seq<Seq<u8>>
    decreases args.len(),
{
    if args.len() == 0 {
        Seq::empty()
    } else if args.last().1 {
        chosen(args.drop_last()).push(args.last().0.spec_bytes())
    } else {
        chosen(args.drop_last())
    }
}

/// What stands between the entry at `index` of a list of `count` and the
/// next: ` & ` before the last entry, `, ` before any other, nothing after
/// the last.
pub open spec fn separator_after(index: int, count: int) -> Seq<u8> {
    if index + 1 >= count {
        Seq::empty()
    } else if index + 2 == count {
        " & ".spec_bytes()
    } else {
        ", ".spec_bytes()
    }
}

/// The first `upto` of `names`, each as a colored flag followed by its
/// separator.
pub open spec fn conflict_list(names: Seq<Seq<u8>>, upto: int) -> Seq<u8>
    decreases upto,
{
    if upto <= 0 {
        Seq::empty()
    } else {
        conflict_list(names, upto - 1) + "<brightmagenta>--".spec_bytes() + names[upto - 1]
            + "</brightmagenta>".spec_bytes() + separator_after(upto - 1, names.len() as int)
    }
}

/// The complaint about the arguments `names`.
pub open spec fn conflict_message(names: Seq<Seq<u8>>) -> Seq<u8> {
    "Arguments ".spec_bytes() + conflict_list(names, names.len() as int)
        + " cannot be used together".spec_bytes()
}

/// Appends to `out` the bytes of `s` with every occurrence of `from`
/// replaced by `to`.
fn write_replaced(out: &mut Vec<u8>, s: &[u8], from: &[u8], to: &[u8])
    requires
        from@.len() > 0,
    ensures
        final(out)@ == old(out)@ + replace_each(s@, from@, to@),
{
    let mut at: usize = 0;
    loop
        invariant
            from@.len() > 0,
            at <= s.len(),
            out@ + replace_each_from(s@, from@, to@, at as int) == old(out)@ + replace_each(
                s@,
                from@,
                to@,
            ),
        decreases s.len() - at,
    {
        proof {
            lemma_first_occurrence(s@, from@, at as int);
        }
        let ghost before = out@;
        match find_from(s, from, at) {
            Some(i) => {
                let resume = i + from.len();
                out.extend_from_slice(slice_subrange(s, at, i));
                out.extend_from_slice(to);
                assert(out@ + replace_each_from(s@, from@, to@, resume as int) =~= before
                    + replace_each_from(s@, from@, to@, at as int));
                at = resume;
            },
            None => {
                out.extend_from_slice(slice_subrange(s, at, s.len()));
                assert(out@ =~= before + replace_each_from(s@, from@, to@, at as int));
                return ;
            },
        }
    }
}

/// The slogan that is printed where the program is given no operation: the
/// description with the program's name in magenta, the version in brackets,
/// and a line feed.
pub fn print_slogan(description: &str, version: &str) -> (slogan: StyledText)
    ensures
        slogan@ == slogan_spec(description.spec_bytes(), version.spec_bytes()),
        slogan.spec_baseline() == Seq::<StyleEffect>::empty(),
{
    proof {
        reveal_strlit("ctr");
        vstd::utf8::encode_utf8_first_scalar("ctr"@);
    }
    let mut name: Vec<u8> = Vec::new();
    name.extend_from_slice("<magenta>".as_bytes());
    name.extend_from_slice(BINARY_NAME.as_bytes());
    name.extend_from_slice("</magenta>".as_bytes());
    assert(name@ =~= colored_name());
    let mut bytes: Vec<u8> = Vec::new();
    write_replaced(&mut bytes, description.as_bytes(), BINARY_NAME.as_bytes(), name.as_slice());
    bytes.extend_from_slice(" <brightblack>(v".as_bytes());
    bytes.extend_from_slice(version.as_bytes());
    bytes.extend_from_slice(")</brightblack>\n".as_bytes());
    assert(bytes@ =~= slogan_spec(description.spec_bytes(), version.spec_bytes()));
    StyledText::from(bytes)
}

/// The complaint about arguments that exclude each other: `None` where at
/// most one of `args` is set, else the message that names those that are
/// set, in their order.
pub fn check_conflicts(args: Vec<(&str, bool)>) -> (complaint: Option<StyledText>)
    ensures
        match complaint {
            Some(message) => {
                &&& chosen(args@).len() > 1
                &&& message@ == conflict_message(chosen(args@))
                &&& message.spec_baseline() == Seq::<StyleEffect>::empty()
            },
            None => chosen(args@).len() <= 1,
        },
{
    let mut set: Vec<&str> = Vec::new();
    let mut i: usize = 0;
    assert(args@.take(0) =~= Seq::<(&str, bool)>::empty());
    while i < args.len()
        invariant
            i <= args.len(),
            set@.len() == chosen(args@.take(i as int)).len(),
            forall|k: int|
                0 <= k < set@.len() ==> (#[trigger] set@[k]).spec_bytes() == chosen(
                    args@.take(i as int),
                )[k],
        decreases args.len() - i,
    {
        assert(args@.take(i + 1).drop_last() =~= args@.take(i as int));
        if args[i].1 {
            set.push(args[i].0);
        }
        i += 1;
    }
    assert(args@.take(i as int) =~= args@);
    if set.len() <= 1 {
        return None;
    }
    let ghost names = chosen(args@);
    let mut bytes: Vec<u8> = Vec::new();
    bytes.extend_from_slice("Arguments ".as_bytes());
    let mut index: usize = 0;
    while index < set.len()
        invariant
            index <= set.len(),
            set@.len() == names.len(),
            forall|k: int| 0 <= k < set@.len() ==> (#[trigger] set@[k]).spec_bytes() == names[k],
            bytes@ == "Arguments ".spec_bytes() + conflict_list(names, index as int),
        decreases set.len() - index,
    {
        let ghost before = bytes@;
        bytes.extend_from_slice("<brightmagenta>--".as_bytes());
        bytes.extend_from_slice(set[index].as_bytes());
        bytes.extend_from_slice("</brightmagenta>".as_bytes());
        if index + 1 < set.len() {
            if index + 2 == set.len() {
                bytes.extend_from_slice(" & ".as_bytes());
            } else {
                bytes.extend_from_slice(", ".as_bytes());
            }
        }
        index += 1;
        assert(bytes@ =~= "Arguments ".spec_bytes() + conflict_list(names, index as int));
    }
    bytes.extend_from_slice(" cannot be used together".as_bytes());
    assert(bytes@ =~= conflict_message(names));
    Some(StyledText::from(bytes))
}

/// The version as it is shown: `version` itself, followed by `-dev` for a
/// debug build. For a release build `head` is what `git rev-parse --short
/// HEAD` printed, if it ran: the version is followed by `+` and the trimmed
/// commit hash, or by `+release` where the output is not valid UTF-8.
pub open spec fn version_spec(version: Seq<u8>, debug: bool, head: Option<Seq<u8>>) -> Seq<u8> {
    if debug {
        version + "-dev".spec_bytes()
    } else {
        match head {
            Some(output) => if valid_utf8(output) {
                version + "+".spec_bytes() + encode_utf8(trim_white_space(decode_utf8(output)))
            } else {
                version + "+release".spec_bytes()
            },
            None => version,
        }
    }
}

/// The version as it is shown. `head` is what `git rev-parse --short HEAD`
/// printed, or `None` where it did not run or failed.
pub fn get_version(version: &str, debug: bool, head: Option<&[u8]>) -> (shown: StyledText)
    ensures
        shown@ == version_spec(
            version.spec_bytes(),
            debug,
            match head {
                Some(output) => Some(output@),
                None => None,
            },
        ),
        shown.spec_baseline() == Seq::<StyleEffect>::empty(),
{
    let mut bytes: Vec<u8> = Vec::new();
    bytes.extend_from_slice(version.as_bytes());
    assert(bytes@ =~= version.spec_bytes());
    if debug {
        bytes.extend_from_slice("-dev".as_bytes());
    } else {
        match head {
            Some(output) => match str_from_utf8(output) {
                Ok(hash) => {
                    proof {
                        vstd::utf8::encode_utf8_decode_utf8(hash@);
                    }
                    bytes.extend_from_slice("+".as_bytes());
                    bytes.extend_from_slice(str_trim(hash).as_bytes());
                },
                Err(_) => {
                    bytes.extend_from_slice("+release".as_bytes());
                },
            },
            None => {},
        }
    }
    StyledText::from(bytes)
}

/// What is said of an operation that the program does not know: the nearest
/// known operation as a suggestion, or that the operation is unknown.
pub open spec fn unknown_operation_spec(name: Seq<char>, known: Seq<Seq<char>>) -> Seq<u8> {
    match nearest_spec(name, known) {
        Some(k) => "Did you mean <magenta>".spec_bytes() + encode_utf8(known[k])
            + "</magenta>?".spec_bytes(),
        None => "Unknown operation: ".spec_bytes() + encode_utf8(name),
    }
}

/// What is said of the operation `name`, which is none of `known`.
pub fn unknown_operation(name: &str, known: Vec<String>) -> (message: StyledText)
    ensures
        message@ == unknown_operation_spec(name@, words_of(known@)),
        message.spec_baseline() == Seq::<StyleEffect>::empty(),
{
    proof {
        vstd::utf8::encode_utf8_valid_utf8(name@);
        vstd::utf8::encode_utf8_decode_utf8(name@);
    }
    let mut bytes: Vec<u8> = Vec::new();
    match StyledText::from(name).nearest(known) {
        Some(suggestion) => {
            bytes.extend_from_slice("Did you mean <magenta>".as_bytes());
            bytes.extend_from_slice(suggestion.as_str().as_bytes());
            bytes.extend_from_slice("</magenta>?".as_bytes());
        },
        None => {
            bytes.extend_from_slice("Unknown operation: ".as_bytes());
            bytes.extend_from_slice(name.as_bytes());
        },
    }
    assert(bytes@ =~= unknown_operation_spec(name@, words_of(known@)));
    StyledText::from(bytes)
}

/// The spans of time that an uptime of `seconds` is counted in, the longest
/// first, each with its unit.
pub open spec fn uptime_units(seconds: nat) -> Seq<(nat, Seq<u8>)> {
    seq![
        (seconds / 31536000000, "k".spec_bytes()),
        ((seconds / 3153600000) % 10, "c".spec_bytes()),
        ((seconds / 315360000) % 10, "d".spec_bytes()),
        (seconds / 29030400, "y".spec_bytes()),
        ((seconds / 2419200) % 12, "M".spec_bytes()),
        ((seconds / 604800) % 4, "w".spec_bytes()),
        ((seconds / 86400) % 7, "d".spec_bytes()),
        ((seconds / 3600) % 24, "h".spec_bytes()),
        ((seconds / 60) % 60, "m".spec_bytes()),
        (seconds % 60, "s".spec_bytes()),
    ]
}

/// The first `upto` of `units` that count more than nothing, each written as
/// its number followed by its unit.
pub open spec fn counted(units: Seq<(nat, Seq<u8>)>, upto: int) -> Seq<Seq<u8>>
    decreases upto,
{
    if upto <= 0 {
        Seq::empty()
    } else if units[upto - 1].0 > 0 {
        counted(units, upto - 1).push(decimal(units[upto - 1].0) + units[upto - 1].1)
    } else {
        counted(units, upto - 1)
    }
}

/// The first `upto` of `parts` with a space between each two.
pub open spec fn spaced(parts: Seq<Seq<u8>>, upto: int) -> Seq<u8>
    decreases upto,
{
    if upto <= 0 {
        Seq::empty()
    } else if upto == 1 {
        parts[0]
    } else {
        spaced(parts, upto - 1) + " ".spec_bytes() + parts[upto - 1]
    }
}

/// An uptime as it is shown: the spans that count more than nothing, with
/// spaces between them. Past the first minute the last of them is left
/// away, so that seconds do not clutter the line.
pub open spec fn uptime_spec(seconds: nat) -> Seq<u8> {
    let parts = counted(uptime_units(seconds), 10);
    if (seconds / 60) % 60 > 1 {
        spaced(parts, parts.len() - 1)
    } else {
        spaced(parts, parts.len() as int)
    }
}

/// An uptime of `seconds` as it is shown.
pub fn uptime(seconds: u64) -> (shown: StyledText)
    ensures
        shown@ == uptime_spec(seconds as nat),
        shown.spec_baseline() == Seq::<StyleEffect>::empty(),
{
    let minutes = (seconds / 60) % 60;
    let units: [(u64, &str); 10] = [
        (seconds / 31536000000, "k"),
        ((seconds / 3153600000) % 10, "c"),
        ((seconds / 315360000) % 10, "d"),
        (seconds / 29030400, "y"),
        ((seconds / 2419200) % 12, "M"),
        ((seconds / 604800) % 4, "w"),
        ((seconds / 86400) % 7, "d"),
        ((seconds / 3600) % 24, "h"),
        (minutes, "m"),
        (seconds % 60, "s"),
    ];
    let ghost spans = uptime_units(seconds as nat);
    let mut parts: Vec<Vec<u8>> = Vec::new();
    let mut i: usize = 0;
    while i < 10
        invariant
            i <= 10,
            spans == uptime_units(seconds as nat),
            forall|k: int|
                0 <= k < 10 ==> (#[trigger] units@[k]).0 == spans[k].0 && units@[k].1.spec_bytes()
                    == spans[k].1,
            parts@.len() == counted(spans, i as int).len(),
            forall|k: int| 0 <= k < parts@.len() ==> (#[trigger] parts@[k])@ == counted(
                spans,
                i as int,
            )[k],
        decreases 10 - i,
    {
        let (value, unit) = units[i];
        if value > 0 {
            let mut part: Vec<u8> = Vec::new();
            push_decimal(&mut part, value);
            part.extend_from_slice(unit.as_bytes());
            assert(part@ =~= decimal(spans[i as int].0) + spans[i as int].1);
            parts.push(part);
        }
        i += 1;
    }
    let ghost shown = counted(spans, 10);
    let count = if minutes > 1 && parts.len() > 0 {
        parts.len() - 1
    } else {
        parts.len()
    };
    let mut bytes: Vec<u8> = Vec::new();
    let mut k: usize = 0;
    while k < count
        invariant
            k <= count <= parts@.len(),
            parts@.len() == shown.len(),
            forall|j: int| 0 <= j < parts@.len() ==> (#[trigger] parts@[j])@ == shown[j],
            bytes@ == spaced(shown, k as int),
        decreases count - k,
    {
        if k > 0 {
            bytes.extend_from_slice(" ".as_bytes());
        }
        bytes.extend_from_slice(parts[k].as_slice());
        k += 1;
        assert(bytes@ =~= spaced(shown, k as int));
    }
    StyledText::from(bytes)
}

/// What a commit says of itself.
#[derive(Clone, Debug)]
pub struct CommitInfo {
    /// The commit message.
    pub message: String,
}

/// One entry of the list of commits that the repository's host returns.
#[derive(Clone, Debug)]
pub struct CommitResponse {
    /// The commit.
    pub commit: CommitInfo,
}

/// The message that announces an update: the message of the first commit, or
/// a note that there is none, without the white space at its end.
pub open spec fn update_message_spec(commits: Seq<CommitResponse>) -> Seq<char> {
    let message = if commits.len() > 0 {
        commits[0].commit.message@
    } else {
        "No commit message available"@
    };
    message.subrange(0, drop_white_space(message, message.len() as int))
}

/// The message that announces an update, taken from the latest commits, the
/// newest first.
pub fn update_message(commits: &Vec<CommitResponse>) -> (message: String)
    ensures
        message@ == update_message_spec(commits@),
{
    if commits.len() > 0 {
        String::from_str(str_trim_end(commits[0].commit.message.as_str()))
    } else {
        String::from_str(str_trim_end("No commit message available"))
    }
}

/// The operations of the program.
#[derive(Clone, Debug)]
pub enum Commands {
    Help,
    Version,
    Upgrade,
    Run,
    Info,
    Completions,
    Env,
    Notify,
    /// Anything else that stands where an operation is expected, with the
    /// words that follow it.
    External(Vec<String>),
}

impl Commands {
    /// The name of the operation on the command line; an operation that the
    /// program does not know has none.
    pub open spec fn name_spec(&self) -> Seq<char> {
        match self {
            Commands::Help => "help"@,
            Commands::Version => "version"@,
            Commands::Upgrade => "upgrade"@,
            Commands::Run => "run"@,
            Commands::Info => "info"@,
            Commands::Completions => "completions"@,
            Commands::Env => "env"@,
            Commands::Notify => "notify"@,
            Commands::External(_) => ""@,
        }
    }

    /// What the help page says of the operation.
    pub open spec fn about_spec(&self) -> Seq<char> {
        match self {
            Commands::Help => "Show this message"@,
            Commands::Version => "Show the current version"@,
            Commands::Upgrade => "Upgrade to the latest version"@,
            Commands::Run => "Run a command"@,
            Commands::Info => "Show information about the system"@,
            Commands::Completions => "Generate shell completions"@,
            Commands::Env => "Show or modify environment variables"@,
            Commands::Notify => "Send a desktop notification"@,
            Commands::External(_) => ""@,
        }
    }

    /// The operations that the program knows, in the order of the help page.
    pub open spec fn known() -> Seq<Commands> {
        seq![
            Commands::Help,
            Commands::Version,
            Commands::Upgrade,
            Commands::Run,
            Commands::Info,
            Commands::Completions,
            Commands::Env,
            Commands::Notify,
        ]
    }

    /// The name of the operation on the command line.
    pub fn name(&self) -> (name: &'static str)
        ensures
            name@ == self.name_spec(),
    {
        match self {
            Commands::Help => "help",
            Commands::Version => "version",
            Commands::Upgrade => "upgrade",
            Commands::Run => "run",
            Commands::Info => "info",
            Commands::Completions => "completions",
            Commands::Env => "env",
            Commands::Notify => "notify",
            Commands::External(_) => "",
        }
    }

    /// What the help page says of the operation.
    pub fn about(&self) -> (about: &'static str)
        ensures
            about@ == self.about_spec(),
    {
        match self {
            Commands::Help => "Show this message",
            Commands::Version => "Show the current version",
            Commands::Upgrade => "Upgrade to the latest version",
            Commands::Run => "Run a command",
            Commands::Info => "Show information about the system",
            Commands::Completions => "Generate shell completions",
            Commands::Env => "Show or modify environment variables",
            Commands::Notify => "Send a desktop notification",
            Commands::External(_) => "",
        }
    }

    /// The entries of the help page: one list, which holds an entry for each
    /// operation that the program knows, with its name and what the page
    /// says of it.
    pub fn operations() -> (pages: Vec<Vec<Command>>)
        ensures
            pages@.len() == 1,
            pages@[0]@.len() == Commands::known().len(),
            forall|i: int|
                0 <= i < Commands::known().len() ==> {
                    let entry = #[trigger] pages@[0]@[i];
                    &&& entry.spec_example().is_none()
                    &&& entry.spec_about() == Commands::known()[i].about_spec()
                    &&& entry.spec_command_type() matches CommandType::Operation { name } && name@
                        == Commands::known()[i].name_spec()
                },
    {
        let mut page: Vec<Command> = Vec::new();
        page.push(Command::named(Commands::Help.name(), Commands::Help.about()));
        page.push(Command::named(Commands::Version.name(), Commands::Version.about()));
        page.push(Command::named(Commands::Upgrade.name(), Commands::Upgrade.about()));
        page.push(Command::named(Commands::Run.name(), Commands::Run.about()));
        page.push(Command::named(Commands::Info.name(), Commands::Info.about()));
        page.push(Command::named(Commands::Completions.name(), Commands::Completions.about()));
        page.push(Command::named(Commands::Env.name(), Commands::Env.about()));
        page.push(Command::named(Commands::Notify.name(), Commands::Notify.about()));
        let mut pages: Vec<Vec<Command>> = Vec::new();
        pages.push(page);
        pages
    }
}

/// What an upgrade does once the versions are known.
#[derive(Clone, Copy, Debug, PartialEq, Eq, Structural)]
pub enum UpgradePlan {
    /// Build and install without a word about the new version.
    Install,
    /// Announce the new version, then build and install.
    AnnounceAndInstall,
    /// Announce the new version and leave it at that.
    Announce,
    /// Say that the program is up to date, and leave with `status`.
    UpToDate { status: u8 },
}

/// What an upgrade does: with `force` it installs whatever the versions are;
/// a newer version is announced and, unless only a check was asked for,
/// installed; else the program is up to date, which a check reports with
/// status 1.
pub open spec fn upgrade_plan_spec(newer: bool, force: bool, check: bool) -> UpgradePlan {
    if force {
        UpgradePlan::Install
    } else if newer {
        if check {
            UpgradePlan::Announce
        } else {
            UpgradePlan::AnnounceAndInstall
        }
    } else {
        UpgradePlan::UpToDate {
            status: if check {
                1
            } else {
                0
            },
        }
    }
}

/// What an upgrade does; `newer` says whether the latest version is newer
/// than the installed one.
pub fn upgrade_plan(newer: bool, force: bool, check: bool) -> (plan: UpgradePlan)
    ensures
        plan == upgrade_plan_spec(newer, force, check),
{
    if newer || force {
        if force {
            UpgradePlan::Install
        } else if check {
            UpgradePlan::Announce
        } else {
            UpgradePlan::AnnounceAndInstall
        }
    } else if check {
        UpgradePlan::UpToDate { status: 1 }
    } else {
        UpgradePlan::UpToDate { status: 0 }
    }
}

/// Whether a variable of the environment is listed: one whose name begins
/// with an underscore only where all are asked for.
pub fn lists_variable(name: &str, all: bool) -> (listed: bool)
    ensures
        listed == (all || !(name@.len() > 0 && name@[0] == '_')),
{
    all || !(name.unicode_len() > 0 && name.get_char(0) == '_')
}

} // verus!
