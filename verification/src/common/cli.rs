//! The command line and the single-instance daemon: what an invocation of
//! the tool does, given the command it was started with and the daemon that
//! may already run.
//!
//! The daemon records its process id in a pidfile. Every later invocation
//! reads the pidfile, probes whether that process lives, and then either
//! signals the daemon or takes its place. Reading, probing, signalling and
//! spawning are the caller's work; the decisions are made here.

use crate::text::{
    all_digits, append_chars, decimal, decimal_digits, decimal_i32, digits_of, from_chars,
    is_text, is_whitespace, lemma_digits_round_trip, parse_i32, to_chars, trim, trim_end,
    trim_start, trimmed,
};
use vstd::prelude::*;

verus! {

/// How many times the liveness of a terminating daemon is probed at most.
pub const MAX_PROBES: u32 = 20;

/// The pause after a probe that found the daemon alive, in milliseconds.
pub const PROBE_PAUSE_MS: u64 = 50;

/// The pause after a daemon was told to terminate for a theme preview, in
/// milliseconds.
pub const PREVIEW_PAUSE_MS: u64 = 100;

/// A signal between an invocation and the daemon.
#[derive(Clone, Copy, Debug, PartialEq, Eq, Structural)]
pub enum Signal {
    /// Show the window if it is hidden, hide it if it is shown.
    Toggle,
    /// Load the configuration and the stylesheet anew.
    ReloadStyle,
    /// Exit.
    Terminate,
}

/// What the command line asks for.
#[derive(Clone, Copy, Debug, PartialEq, Eq, Structural)]
pub enum Command {
    /// No argument: become the daemon, or toggle the one that runs.
    Start,
    Help,
    ShowConfig,
    GenerateConfig,
    Reload,
    Toggle,
    Open,
    Close,
    ShowThemes,
    /// `--theme <name>`: the name is the third argument.
    Theme,
    /// `--theme` without a name.
    ThemeUsage,
    /// Anything else: the second argument is the unknown option.
    Unknown,
}

/// What is reported to the user.
#[derive(Clone, Copy, Debug, PartialEq, Eq, Structural)]
pub enum Message {
    NotRunning,
    ThemeUsage,
    UnknownTheme,
    UnknownOption,
    Reloaded,
    Started,
}

/// One thing for an invocation to do.
#[derive(Clone, Copy, Debug, PartialEq, Eq, Structural)]
pub enum Step {
    PrintUsage,
    ShowConfig,
    GenerateConfig,
    ListThemes,
    /// Send `signal` to the process `pid`.
    Send { pid: i32, signal: Signal },
    /// Wait until the process `pid` is gone, probing as `after_probe` says.
    AwaitExit { pid: i32 },
    /// Sleep.
    Pause { millis: u64 },
    /// Write the own process id to the pidfile.
    WritePidfile,
    /// Remove the pidfile.
    RemovePidfile,
    /// Run the daemon until it exits.
    RunDaemon,
    /// Start a new daemon process; `themed` says whether it carries the
    /// theme of the command line as an override.
    Spawn { themed: bool },
    Report { message: Message },
    /// Exit with a failure status.
    Fail,
}

/// The command that the arguments give. The first argument is the
/// program's own name.
pub open spec fn command_of(args: Seq<Seq<char>>) -> Command {
    if args.len() <= 1 {
        Command::Start
    } else {
        let a = args[1];
        if a == "--help"@ || a == "-h"@ {
            Command::Help
        } else if a == "--config"@ {
            Command::ShowConfig
        } else if a == "--generate-config"@ {
            Command::GenerateConfig
        } else if a == "--reload"@ {
            Command::Reload
        } else if a == "toggle"@ {
            Command::Toggle
        } else if a == "open"@ {
            Command::Open
        } else if a == "close"@ {
            Command::Close
        } else if a == "show-themes"@ || a == "--themes"@ {
            Command::ShowThemes
        } else if a == "-T"@ || a == "--theme"@ {
            if args.len() < 3 {
                Command::ThemeUsage
            } else {
                Command::Theme
            }
        } else {
            Command::Unknown
        }
    }
}

/// The views of the arguments.
pub open spec fn arg_views(args: Seq<String>) -> Seq<Seq<char>> {
    args.map_values(|a: String| a@)
}

/// Reads the command line.
pub fn parse_command(args: &Vec<String>) -> (r: Command)
    ensures
        r == command_of(arg_views(args@)),
{
    if args.len() <= 1 {
        return Command::Start;
    }
    let a = to_chars(args[1].as_str());
    assert(arg_views(args@)[1] == a@);
    if is_text(&a, "--help") || is_text(&a, "-h") {
        Command::Help
    } else if is_text(&a, "--config") {
        Command::ShowConfig
    } else if is_text(&a, "--generate-config") {
        Command::GenerateConfig
    } else if is_text(&a, "--reload") {
        Command::Reload
    } else if is_text(&a, "toggle") {
        Command::Toggle
    } else if is_text(&a, "open") {
        Command::Open
    } else if is_text(&a, "close") {
        Command::Close
    } else if is_text(&a, "show-themes") || is_text(&a, "--themes") {
        Command::ShowThemes
    } else if is_text(&a, "-T") || is_text(&a, "--theme") {
        if args.len() < 3 {
            Command::ThemeUsage
        } else {
            Command::Theme
        }
    } else {
        Command::Unknown
    }
}

/// The process id that the content of a pidfile names: a positive decimal
/// number that fits `i32`, with white space allowed around it.
pub open spec fn pid_of(content: Seq<char>) -> Option<int> {
    match decimal_i32(trim(content)) {
        Some(v) => if v > 0 {
            Some(v)
        } else {
            None
        },
        None => None,
    }
}

/// Reads the content of a pidfile. `None` where it names no process.
pub fn parse_pid(content: &str) -> (r: Option<i32>)
    ensures
        match r {
            Some(pid) => pid_of(content@) == Some(pid as int),
            None => pid_of(content@) is None,
        },
{
    match parse_i32(&trimmed(&to_chars(content))) {
        Some(v) => {
            if v > 0 {
                Some(v)
            } else {
                None
            }
        },
        None => None,
    }
}

/// The content of the pidfile of the process `pid`: its decimal digits
/// and nothing else.
pub fn pid_text(pid: u32) -> (r: String)
    ensures
        r@ == digits_of(pid as nat),
{
    from_chars(&decimal_digits(pid as u64))
}

/// The path of the pidfile of the tool `app_name` for the user `uid`.
pub open spec fn pidfile_name(app_name: Seq<char>, uid: nat) -> Seq<char> {
    "/tmp/"@ + app_name + seq!['-'] + digits_of(uid) + ".pid"@
}

/// The path of the pidfile: `/tmp/<app_name>-<uid>.pid`.
pub fn pidfile_path(app_name: &str, uid: u32) -> (r: String)
    ensures
        r@ == pidfile_name(app_name@, uid as nat),
{
    let mut out = to_chars("/tmp/");
    append_chars(&mut out, &to_chars(app_name));
    out.push('-');
    append_chars(&mut out, &decimal_digits(uid as u64));
    append_chars(&mut out, &to_chars(".pid"));
    from_chars(&out)
}

/// Digits are not white space, so trimming leaves a digit string as it is.
proof fn lemma_trim_digits(s: Seq<char>)
    requires
        s.len() > 0,
        all_digits(s),
    ensures
        trim(s) == s,
{
    assert(!is_whitespace(s[0]));
    assert(trim_start(s) == s);
    assert(!is_whitespace(s.last()));
    assert(trim_end(s) == s);
}

/// What a daemon writes to its pidfile is read back as its process id.
pub proof fn lemma_pid_round_trip(pid: u32)
    requires
        0 < pid <= i32::MAX,
    ensures
        pid_of(digits_of(pid as nat)) == Some(pid as int),
{
    let s = digits_of(pid as nat);
    lemma_digits_round_trip(pid as nat);
    lemma_trim_digits(s);
    assert(s[0] != '+' && s[0] != '-');
    assert(decimal(s, true) == Some(pid as int));
}

/// What an invocation without a command does about the daemon.
#[derive(Clone, Copy, Debug, PartialEq, Eq, Structural)]
pub enum Acquire {
    /// A daemon lives: toggle it and exit. This process never becomes the
    /// daemon.
    Signal { pid: i32 },
    /// No daemon lives: write the own process id to the pidfile, over
    /// whatever a dead daemon has left there, and become the daemon.
    BecomeDaemon,
}

/// Decides between toggling the daemon and becoming it. `live` is the
/// process id from the pidfile, if the pidfile names a process and that
/// process lives.
pub fn acquire_or_signal(live: Option<i32>) -> (r: Acquire)
    ensures
        r == match live {
            Some(pid) => Acquire::Signal { pid },
            None => Acquire::BecomeDaemon,
        },
{
    match live {
        Some(pid) => Acquire::Signal { pid },
        None => Acquire::BecomeDaemon,
    }
}

/// How to go on after a probe of a daemon that was told to terminate.
#[derive(Clone, Copy, Debug, PartialEq, Eq, Structural)]
pub enum Wait {
    /// The daemon is gone: go on at once.
    Done,
    /// The daemon still lives: sleep, then probe again.
    PauseThenProbe { millis: u64 },
    /// The daemon still lives, but it was probed often enough: sleep once
    /// more, then go on without another probe.
    PauseThenDone { millis: u64 },
}

/// How to go on after the probe with the number `probes_made` (counted
/// from 1), which found the daemon alive or not.
pub open spec fn wait_after(probes_made: u32, alive: bool) -> Wait {
    if !alive {
        Wait::Done
    } else if probes_made < MAX_PROBES {
        Wait::PauseThenProbe { millis: PROBE_PAUSE_MS }
    } else {
        Wait::PauseThenDone { millis: PROBE_PAUSE_MS }
    }
}

/// Decides how to go on after the probe with the number `probes_made`
/// (counted from 1), which found the daemon alive or not. The wait ends
/// with the first probe that finds the daemon gone, and at the latest with
/// probe number `MAX_PROBES`.
pub fn after_probe(probes_made: u32, alive: bool) -> (r: Wait)
    ensures
        r == wait_after(probes_made, alive),
{
    if !alive {
        Wait::Done
    } else if probes_made < MAX_PROBES {
        Wait::PauseThenProbe { millis: PROBE_PAUSE_MS }
    } else {
        Wait::PauseThenDone { millis: PROBE_PAUSE_MS }
    }
}

/// The steps that replace the daemon by a fresh one: a living daemon is
/// told to terminate and given time to go, and its pidfile is removed; then
/// the new daemon is spawned. With `themed` the new daemon carries a theme
/// override, and the old one gets one fixed pause; without, the old one is
/// awaited with bounded probes.
pub open spec fn relaunch_steps(live: Option<i32>, themed: bool) -> Seq<Step> {
    let stop = match live {
        Some(pid) => seq![
            Step::Send { pid, signal: Signal::Terminate },
            if themed {
                Step::Pause { millis: PREVIEW_PAUSE_MS }
            } else {
                Step::AwaitExit { pid }
            },
            Step::RemovePidfile,
        ],
        None => Seq::empty(),
    };
    stop + seq![
        Step::Spawn { themed },
        Step::Report {
            message: if themed {
                Message::Started
            } else {
                Message::Reloaded
            },
        },
    ]
}

/// The steps of an invocation.
///
/// `live` is the process id of the daemon, if one lives; `theme_known`
/// says whether the theme named on the command line is a built-in theme
/// (it matters for `Command::Theme` only).
pub open spec fn plan_of(command: Command, live: Option<i32>, theme_known: bool) -> Seq<Step> {
    match command {
        Command::Start => match live {
            Some(pid) => seq![Step::Send { pid, signal: Signal::Toggle }],
            None => seq![Step::WritePidfile, Step::RunDaemon, Step::RemovePidfile],
        },
        Command::Help => seq![Step::PrintUsage],
        Command::ShowConfig => seq![Step::ShowConfig],
        Command::GenerateConfig => seq![Step::GenerateConfig],
        Command::Reload => relaunch_steps(live, false),
        Command::Toggle | Command::Open => match live {
            Some(pid) => seq![Step::Send { pid, signal: Signal::Toggle }],
            None => seq![Step::Report { message: Message::NotRunning }],
        },
        Command::Close => match live {
            Some(pid) => seq![Step::Send { pid, signal: Signal::Terminate }],
            None => Seq::empty(),
        },
        Command::ShowThemes => seq![Step::ListThemes],
        Command::ThemeUsage => seq![Step::Report { message: Message::ThemeUsage }],
        Command::Theme => if theme_known {
            relaunch_steps(live, true)
        } else {
            seq![Step::Report { message: Message::UnknownTheme }]
        },
        Command::Unknown => seq![
            Step::Report { message: Message::UnknownOption },
            Step::PrintUsage,
            Step::Fail,
        ],
    }
}

/// The steps that replace the daemon by a fresh one, which carries a theme
/// override where `themed` holds.
pub fn relaunch_with_override(live: Option<i32>, themed: bool) -> (r: Vec<Step>)
    ensures
        r@ == relaunch_steps(live, themed),
{
    let mut steps: Vec<Step> = Vec::new();
    match live {
        Some(pid) => {
            steps.push(Step::Send { pid, signal: Signal::Terminate });
            if themed {
                steps.push(Step::Pause { millis: PREVIEW_PAUSE_MS });
            } else {
                steps.push(Step::AwaitExit { pid });
            }
            steps.push(Step::RemovePidfile);
        },
        None => {},
    }
    steps.push(Step::Spawn { themed });
    steps.push(
        Step::Report {
            message: if themed {
                Message::Started
            } else {
                Message::Reloaded
            },
        },
    );
    assert(steps@ == relaunch_steps(live, themed));
    steps
}

fn one(step: Step) -> (r: Vec<Step>)
    ensures
        r@ == seq![step],
{
    let mut steps: Vec<Step> = Vec::new();
    steps.push(step);
    steps
}

/// Plans an invocation: the steps to take, in order.
pub fn plan(command: Command, live: Option<i32>, theme_known: bool) -> (r: Vec<Step>)
    ensures
        r@ == plan_of(command, live, theme_known),
{
    match command {
        Command::Start => match acquire_or_signal(live) {
            Acquire::Signal { pid } => one(Step::Send { pid, signal: Signal::Toggle }),
            Acquire::BecomeDaemon => {
                let mut steps = one(Step::WritePidfile);
                steps.push(Step::RunDaemon);
                steps.push(Step::RemovePidfile);
                steps
            },
        },
        Command::Help => one(Step::PrintUsage),
        Command::ShowConfig => one(Step::ShowConfig),
        Command::GenerateConfig => one(Step::GenerateConfig),
        Command::Reload => relaunch_with_override(live, false),
        Command::Toggle | Command::Open => match live {
            Some(pid) => one(Step::Send { pid, signal: Signal::Toggle }),
            None => one(Step::Report { message: Message::NotRunning }),
        },
        Command::Close => match live {
            Some(pid) => one(Step::Send { pid, signal: Signal::Terminate }),
            None => Vec::new(),
        },
        Command::ShowThemes => one(Step::ListThemes),
        Command::ThemeUsage => one(Step::Report { message: Message::ThemeUsage }),
        Command::Theme => {
            if theme_known {
                relaunch_with_override(live, true)
            } else {
                one(Step::Report { message: Message::UnknownTheme })
            }
        },
        Command::Unknown => {
            let mut steps = one(Step::Report { message: Message::UnknownOption });
            steps.push(Step::PrintUsage);
            steps.push(Step::Fail);
            steps
        },
    }
}

/// There is one daemon at most. An invocation runs the daemon itself only
/// where it was started without a command and no daemon lives, and then it
/// writes the pidfile first and removes it last. It spawns a daemon only
/// for a reload or a theme preview, and where a daemon lives only after it
/// has told that daemon to terminate. While a daemon lives, an invocation
/// without a command sends it the toggle signal and does nothing else.
pub proof fn lemma_single_instance(command: Command, live: Option<i32>, theme_known: bool)
    ensures
        ({
            let steps = plan_of(command, live, theme_known);
            &&& steps.contains(Step::RunDaemon) <==> command == Command::Start && live is None
            &&& steps.contains(Step::RunDaemon) ==> steps == seq![
                Step::WritePidfile,
                Step::RunDaemon,
                Step::RemovePidfile,
            ]
            &&& (command == Command::Start && live is Some) ==> steps == seq![
                Step::Send { pid: live.unwrap(), signal: Signal::Toggle },
            ]
            &&& forall|i: int, themed: bool|
                0 <= i < steps.len() && steps[i] == (Step::Spawn { themed }) ==> {
                    &&& command == Command::Reload || command == Command::Theme
                    &&& live matches Some(pid) ==> steps[0] == (Step::Send {
                        pid,
                        signal: Signal::Terminate,
                    }) && i == 3
                }
        }),
{
    let steps = plan_of(command, live, theme_known);
    if command == Command::Start && live is None {
        assert(steps[1] == Step::RunDaemon);
    }
}

/// The wait for a terminating daemon is bounded: from probe number
/// `MAX_PROBES` on, no further probe is asked for, whatever the probes
/// find.
pub proof fn lemma_wait_is_bounded(probes_made: u32, alive: bool)
    requires
        probes_made >= MAX_PROBES,
    ensures
        !(wait_after(probes_made, alive) is PauseThenProbe),
        !alive ==> wait_after(probes_made, alive) == Wait::Done,
{
}

} // verus!
