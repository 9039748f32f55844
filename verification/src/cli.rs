//! The command line: options, subcommands, and their values.
use vstd::prelude::*;

use crate::error::{message, Error, Result};
use crate::text::{chars_eq_str, chars_of, parse_unsigned, parse_unsigned_chars, slice_chars, starts_with};

verus! {

/// The refresh interval when none is given, in milliseconds.
pub const DEFAULT_INTERVAL_MS: u64 = 1_000;

/// The shortest refresh interval accepted, in milliseconds.
pub const MIN_INTERVAL_MS: u64 = 250;

/// The longest refresh interval accepted, in milliseconds.
pub const MAX_INTERVAL_MS: u64 = 10_000;

/// The row count `inspect` shows when none is given.
pub const DEFAULT_INSPECT_LIMIT: usize = 20;

/// Options of a one-shot process snapshot.
#[derive(Debug, Clone, Copy, PartialEq, Eq, Structural)]
pub struct SnapshotMode {
    pub json: bool,
    pub limit: Option<usize>,
}

/// Options of the `ports` subcommand.
#[derive(Debug, Clone, Copy, PartialEq, Eq, Structural)]
pub struct PortsMode {
    pub port: Option<u16>,
    pub json: bool,
    pub all: bool,
}

/// Options of the `inspect` subcommand.
#[derive(Debug, Clone, Copy, PartialEq, Eq, Structural)]
pub struct InspectMode {
    pub pid: u32,
    pub json: bool,
    pub limit: usize,
}

/// What the program runs.
#[derive(Debug, Clone, Copy, PartialEq, Eq, Structural)]
pub enum Mode {
    Tui,
    Snapshot(SnapshotMode),
    Ports(PortsMode),
    Inspect(InspectMode),
}

/// The parsed command line of a run.
#[derive(Debug, PartialEq, Eq)]
pub struct Args {
    pub interval: u64,
    pub filter: Option<String>,
    pub mode: Mode,
}

/// A text the program prints instead of running.
#[derive(Debug, Clone, Copy, PartialEq, Eq, Structural)]
pub enum Printout {
    Help,
    Version,
    SnapshotHelp,
    PortsHelp,
    InspectHelp,
}

/// What a command line asks for: a run, or a text to print.
#[derive(Debug, PartialEq, Eq)]
pub enum Invocation {
    Run(Args),
    Print(Printout),
}

/// The parsed command line of a run, as plain values.
pub struct ArgsView {
    pub interval: u64,
    pub filter: Option<Seq<char>>,
    pub mode: Mode,
}

/// What a command line asks for, as plain values.
pub enum InvocationView {
    Run(ArgsView),
    Print(Printout),
}

/// The text of an optional string.
pub open spec fn opt_text(o: Option<String>) -> Option<Seq<char>> {
    match o {
        Some(s) => Some(s@),
        None => None,
    }
}

impl Args {
    pub open spec fn view(&self) -> ArgsView {
        ArgsView { interval: self.interval, filter: opt_text(self.filter), mode: self.mode }
    }
}

impl Invocation {
    pub open spec fn view(&self) -> InvocationView {
        match self {
            Invocation::Run(a) => InvocationView::Run(a.view()),
            Invocation::Print(p) => InvocationView::Print(*p),
        }
    }
}

/// The result of parsing, as plain values: what is asked for, or the message.
pub open spec fn result_view(r: Result<Invocation>) -> core::result::Result<InvocationView, Seq<char>> {
    match r {
        Ok(inv) => Ok(inv.view()),
        Err(e) => Err(e@),
    }
}

// ---------------------------------------------------------------------------
// Values
// ---------------------------------------------------------------------------

/// What `--interval` makes of its value: milliseconds from 250 to 10000.
pub open spec fn interval_value(value: Seq<char>) -> core::result::Result<u64, Seq<char>> {
    match parse_unsigned(value, u64::MAX as nat) {
        None => Err("invalid interval `"@ + value + "`; expected milliseconds"@),
        Some(v) => if MIN_INTERVAL_MS <= v <= MAX_INTERVAL_MS {
            Ok(v as u64)
        } else {
            Err("invalid interval `"@ + value + "`; expected 250-10000 milliseconds"@)
        },
    }
}

/// What `--limit` makes of its value: a row count above 0.
pub open spec fn limit_value(value: Seq<char>) -> core::result::Result<usize, Seq<char>> {
    match parse_unsigned(value, usize::MAX as nat) {
        None => Err("invalid limit `"@ + value + "`; expected row count"@),
        Some(v) => if v == 0 {
            Err("invalid limit `0`; expected row count above 0"@)
        } else {
            Ok(v as usize)
        },
    }
}

/// What `ports` makes of a port: 1 to 65535.
pub open spec fn port_value(value: Seq<char>) -> core::result::Result<u16, Seq<char>> {
    match parse_unsigned(value, u16::MAX as nat) {
        None => Err("invalid port `"@ + value + "`; expected 1-65535"@),
        Some(v) => if v == 0 {
            Err("invalid port `0`; expected 1-65535"@)
        } else {
            Ok(v as u16)
        },
    }
}

/// What `inspect` makes of a PID: a process id above 0.
pub open spec fn pid_value(value: Seq<char>) -> core::result::Result<u32, Seq<char>> {
    match parse_unsigned(value, u32::MAX as nat) {
        None => Err("invalid pid `"@ + value + "`; expected process id"@),
        Some(v) => if v == 0 {
            Err("invalid pid `0`; expected process id above 0"@)
        } else {
            Ok(v as u32)
        },
    }
}

/// `pre + middle + post` as an error.
fn error_around(pre: &str, middle: &[char], post: &str) -> (e: Error)
    ensures
        e@ == pre@ + middle@ + post@,
{
    let mut s = String::from_str(pre);
    crate::text::push_range(&mut s, middle, 0, middle.len());
    s.append(post);
    assert(middle@.subrange(0, middle@.len() as int) =~= middle@);
    message(s)
}

/// A literal as an error.
fn error_text(text: &str) -> (e: Error)
    ensures
        e@ == text@,
{
    message(String::from_str(text))
}

fn interval_of(value: &[char]) -> (r: Result<u64>)
    ensures
        match r {
            Ok(v) => interval_value(value@) == Ok::<u64, Seq<char>>(v),
            Err(e) => interval_value(value@) == Err::<u64, Seq<char>>(e@),
        },
{
    match parse_unsigned_chars(value, u64::MAX) {
        None => Err(error_around("invalid interval `", value, "`; expected milliseconds")),
        Some(v) => if MIN_INTERVAL_MS <= v && v <= MAX_INTERVAL_MS {
            Ok(v)
        } else {
            Err(error_around("invalid interval `", value, "`; expected 250-10000 milliseconds"))
        },
    }
}

fn limit_of(value: &[char]) -> (r: Result<usize>)
    ensures
        match r {
            Ok(v) => limit_value(value@) == Ok::<usize, Seq<char>>(v),
            Err(e) => limit_value(value@) == Err::<usize, Seq<char>>(e@),
        },
{
    match parse_unsigned_chars(value, usize::MAX as u64) {
        None => Err(error_around("invalid limit `", value, "`; expected row count")),
        Some(v) => if v == 0 {
            Err(error_text("invalid limit `0`; expected row count above 0"))
        } else {
            Ok(v as usize)
        },
    }
}

fn port_of(value: &[char]) -> (r: Result<u16>)
    ensures
        match r {
            Ok(v) => port_value(value@) == Ok::<u16, Seq<char>>(v),
            Err(e) => port_value(value@) == Err::<u16, Seq<char>>(e@),
        },
{
    match parse_unsigned_chars(value, u16::MAX as u64) {
        None => Err(error_around("invalid port `", value, "`; expected 1-65535")),
        Some(v) => if v == 0 {
            Err(error_text("invalid port `0`; expected 1-65535"))
        } else {
            Ok(v as u16)
        },
    }
}

fn pid_of(value: &[char]) -> (r: Result<u32>)
    ensures
        match r {
            Ok(v) => pid_value(value@) == Ok::<u32, Seq<char>>(v),
            Err(e) => pid_value(value@) == Err::<u32, Seq<char>>(e@),
        },
{
    match parse_unsigned_chars(value, u32::MAX as u64) {
        None => Err(error_around("invalid pid `", value, "`; expected process id")),
        Some(v) => if v == 0 {
            Err(error_text("invalid pid `0`; expected process id above 0"))
        } else {
            Ok(v as u32)
        },
    }
}

/// Parses a refresh interval, as [`interval_value`] describes.
pub fn parse_interval(value: &str) -> (r: Result<u64>)
    ensures
        match r {
            Ok(v) => interval_value(value@) == Ok::<u64, Seq<char>>(v),
            Err(e) => interval_value(value@) == Err::<u64, Seq<char>>(e@),
        },
{
    let v = chars_of(value);
    interval_of(v.as_slice())
}

/// Parses a row count, as [`limit_value`] describes.
pub fn parse_limit(value: &str) -> (r: Result<usize>)
    ensures
        match r {
            Ok(v) => limit_value(value@) == Ok::<usize, Seq<char>>(v),
            Err(e) => limit_value(value@) == Err::<usize, Seq<char>>(e@),
        },
{
    let v = chars_of(value);
    limit_of(v.as_slice())
}

/// Parses a port, as [`port_value`] describes.
pub fn parse_port(value: &str) -> (r: Result<u16>)
    ensures
        match r {
            Ok(v) => port_value(value@) == Ok::<u16, Seq<char>>(v),
            Err(e) => port_value(value@) == Err::<u16, Seq<char>>(e@),
        },
{
    let v = chars_of(value);
    port_of(v.as_slice())
}

/// Parses a PID, as [`pid_value`] describes.
pub fn parse_pid(value: &str) -> (r: Result<u32>)
    ensures
        match r {
            Ok(v) => pid_value(value@) == Ok::<u32, Seq<char>>(v),
            Err(e) => pid_value(value@) == Err::<u32, Seq<char>>(e@),
        },
{
    let v = chars_of(value);
    pid_of(v.as_slice())
}

// ---------------------------------------------------------------------------
// The command-line grammar
// ---------------------------------------------------------------------------

/// `arg` is one of two spellings.
pub open spec fn is_either(arg: Seq<char>, a: Seq<char>, b: Seq<char>) -> bool {
    arg == a || arg == b
}

/// The text after a prefix.
pub open spec fn after(arg: Seq<char>, prefix: Seq<char>) -> Seq<char> {
    arg.subrange(prefix.len() as int, arg.len() as int)
}

/// A snapshot mode with `--json` set.
pub open spec fn with_json(m: Option<SnapshotMode>) -> SnapshotMode {
    match m {
        Some(m) => SnapshotMode { json: true, ..m },
        None => SnapshotMode { json: true, limit: None },
    }
}

/// A snapshot mode with a row limit set.
pub open spec fn with_limit(m: Option<SnapshotMode>, limit: usize) -> SnapshotMode {
    match m {
        Some(m) => SnapshotMode { limit: Some(limit), ..m },
        None => SnapshotMode { json: false, limit: Some(limit) },
    }
}

/// The run that top-level options ending at the last argument ask for.
pub open spec fn root_run(interval: u64, filter: Option<Seq<char>>, snapshot: Option<SnapshotMode>) -> InvocationView {
    InvocationView::Run(
        ArgsView {
            interval,
            filter,
            mode: match snapshot {
                Some(m) => Mode::Snapshot(m),
                None => Mode::Tui,
            },
        },
    )
}

/// The top-level options from argument `i` on, with the settings read so far.
pub open spec fn parse_root(
    args: Seq<Seq<char>>,
    i: int,
    interval: u64,
    filter: Option<Seq<char>>,
    snapshot: Option<SnapshotMode>,
) -> core::result::Result<InvocationView, Seq<char>>
    decreases args.len() - i,
{
    if i < 0 || i >= args.len() {
        Ok(root_run(interval, filter, snapshot))
    } else {
        let arg = args[i];
        if is_either(arg, "-h"@, "--help"@) {
            Ok(InvocationView::Print(Printout::Help))
        } else if is_either(arg, "-V"@, "--version"@) {
            Ok(InvocationView::Print(Printout::Version))
        } else if is_either(arg, "-i"@, "--interval"@) {
            if i + 1 >= args.len() {
                Err(arg + " requires a millisecond value"@)
            } else {
                match interval_value(args[i + 1]) {
                    Err(e) => Err(e),
                    Ok(v) => parse_root(args, i + 2, v, filter, snapshot),
                }
            }
        } else if is_either(arg, "-f"@, "--filter"@) {
            if i + 1 >= args.len() {
                Err(arg + " requires a filter value"@)
            } else {
                parse_root(args, i + 2, interval, Some(args[i + 1]), snapshot)
            }
        } else if crate::text::has_prefix(arg, "--interval="@) {
            match interval_value(after(arg, "--interval="@)) {
                Err(e) => Err(e),
                Ok(v) => parse_root(args, i + 1, v, filter, snapshot),
            }
        } else if crate::text::has_prefix(arg, "--filter="@) {
            parse_root(args, i + 1, interval, Some(after(arg, "--filter="@)), snapshot)
        } else if arg == "--json"@ {
            parse_root(args, i + 1, interval, filter, Some(with_json(snapshot)))
        } else if is_either(arg, "-l"@, "--limit"@) {
            if i + 1 >= args.len() {
                Err(arg + " requires a row count"@)
            } else {
                match limit_value(args[i + 1]) {
                    Err(e) => Err(e),
                    Ok(v) => parse_root(args, i + 2, interval, filter, Some(with_limit(snapshot, v))),
                }
            }
        } else if crate::text::has_prefix(arg, "--limit="@) {
            match limit_value(after(arg, "--limit="@)) {
                Err(e) => Err(e),
                Ok(v) => parse_root(args, i + 1, interval, filter, Some(with_limit(snapshot, v))),
            }
        } else if arg == "snapshot"@ {
            parse_snapshot(args, i + 1, interval, filter, SnapshotMode { json: false, limit: None })
        } else if arg == "ports"@ {
            parse_ports(args, i + 1, interval, filter, PortsMode { port: None, json: false, all: false })
        } else if arg == "inspect"@ {
            parse_inspect(args, i + 1, interval, filter, None, false, DEFAULT_INSPECT_LIMIT)
        } else {
            Err("unknown option: "@ + arg + ". Run monitr --help for usage."@)
        }
    }
}

/// The options of `snapshot` from argument `i` on.
pub open spec fn parse_snapshot(
    args: Seq<Seq<char>>,
    i: int,
    interval: u64,
    filter: Option<Seq<char>>,
    mode: SnapshotMode,
) -> core::result::Result<InvocationView, Seq<char>>
    decreases args.len() - i,
{
    if i < 0 || i >= args.len() {
        Ok(InvocationView::Run(ArgsView { interval, filter, mode: Mode::Snapshot(mode) }))
    } else {
        let arg = args[i];
        if is_either(arg, "-h"@, "--help"@) {
            Ok(InvocationView::Print(Printout::SnapshotHelp))
        } else if is_either(arg, "-i"@, "--interval"@) {
            if i + 1 >= args.len() {
                Err(arg + " requires a millisecond value"@)
            } else {
                match interval_value(args[i + 1]) {
                    Err(e) => Err(e),
                    Ok(v) => parse_snapshot(args, i + 2, v, filter, mode),
                }
            }
        } else if is_either(arg, "-f"@, "--filter"@) {
            if i + 1 >= args.len() {
                Err(arg + " requires a filter value"@)
            } else {
                parse_snapshot(args, i + 2, interval, Some(args[i + 1]), mode)
            }
        } else if crate::text::has_prefix(arg, "--interval="@) {
            match interval_value(after(arg, "--interval="@)) {
                Err(e) => Err(e),
                Ok(v) => parse_snapshot(args, i + 1, v, filter, mode),
            }
        } else if crate::text::has_prefix(arg, "--filter="@) {
            parse_snapshot(args, i + 1, interval, Some(after(arg, "--filter="@)), mode)
        } else if arg == "--json"@ {
            parse_snapshot(args, i + 1, interval, filter, SnapshotMode { json: true, ..mode })
        } else if is_either(arg, "-l"@, "--limit"@) {
            if i + 1 >= args.len() {
                Err(arg + " requires a row count"@)
            } else {
                match limit_value(args[i + 1]) {
                    Err(e) => Err(e),
                    Ok(v) => parse_snapshot(args, i + 2, interval, filter, SnapshotMode { limit: Some(v), ..mode }),
                }
            }
        } else if crate::text::has_prefix(arg, "--limit="@) {
            match limit_value(after(arg, "--limit="@)) {
                Err(e) => Err(e),
                Ok(v) => parse_snapshot(args, i + 1, interval, filter, SnapshotMode { limit: Some(v), ..mode }),
            }
        } else {
            Err("unknown snapshot option: "@ + arg + ". Run monitr snapshot --help for usage."@)
        }
    }
}

/// The options of `ports` from argument `i` on.
pub open spec fn parse_ports(
    args: Seq<Seq<char>>,
    i: int,
    interval: u64,
    filter: Option<Seq<char>>,
    mode: PortsMode,
) -> core::result::Result<InvocationView, Seq<char>>
    decreases args.len() - i,
{
    if i < 0 || i >= args.len() {
        Ok(InvocationView::Run(ArgsView { interval, filter, mode: Mode::Ports(mode) }))
    } else {
        let arg = args[i];
        if is_either(arg, "-h"@, "--help"@) {
            Ok(InvocationView::Print(Printout::PortsHelp))
        } else if arg == "--json"@ {
            parse_ports(args, i + 1, interval, filter, PortsMode { json: true, ..mode })
        } else if is_either(arg, "-a"@, "--all"@) {
            parse_ports(args, i + 1, interval, filter, PortsMode { all: true, ..mode })
        } else if mode.port is None {
            match port_value(arg) {
                Err(e) => Err(e),
                Ok(p) => parse_ports(args, i + 1, interval, filter, PortsMode { port: Some(p), ..mode }),
            }
        } else {
            Err("unknown ports option: "@ + arg + ". Run monitr ports --help for usage."@)
        }
    }
}

/// The options of `inspect` from argument `i` on.
pub open spec fn parse_inspect(
    args: Seq<Seq<char>>,
    i: int,
    interval: u64,
    filter: Option<Seq<char>>,
    pid: Option<u32>,
    json: bool,
    limit: usize,
) -> core::result::Result<InvocationView, Seq<char>>
    decreases args.len() - i,
{
    if i < 0 || i >= args.len() {
        match pid {
            None => Err("inspect requires a PID. Run monitr inspect --help for usage."@),
            Some(pid) => Ok(
                InvocationView::Run(
                    ArgsView { interval, filter, mode: Mode::Inspect(InspectMode { pid, json, limit }) },
                ),
            ),
        }
    } else {
        let arg = args[i];
        if is_either(arg, "-h"@, "--help"@) {
            Ok(InvocationView::Print(Printout::InspectHelp))
        } else if arg == "--json"@ {
            parse_inspect(args, i + 1, interval, filter, pid, true, limit)
        } else if is_either(arg, "-l"@, "--limit"@) {
            if i + 1 >= args.len() {
                Err(arg + " requires a row count"@)
            } else {
                match limit_value(args[i + 1]) {
                    Err(e) => Err(e),
                    Ok(v) => parse_inspect(args, i + 2, interval, filter, pid, json, v),
                }
            }
        } else if crate::text::has_prefix(arg, "--limit="@) {
            match limit_value(after(arg, "--limit="@)) {
                Err(e) => Err(e),
                Ok(v) => parse_inspect(args, i + 1, interval, filter, pid, json, v),
            }
        } else if pid is None {
            match pid_value(arg) {
                Err(e) => Err(e),
                Ok(p) => parse_inspect(args, i + 1, interval, filter, Some(p), json, limit),
            }
        } else {
            Err("unknown inspect option: "@ + arg + ". Run monitr inspect --help for usage."@)
        }
    }
}

/// What a whole command line (without the program name) asks for.
pub open spec fn invocation_of(args: Seq<Seq<char>>) -> core::result::Result<InvocationView, Seq<char>> {
    parse_root(args, 0, DEFAULT_INTERVAL_MS, None, None)
}

/// A run that a valid command line asks for, in the monitor or as a
/// snapshot, takes the filter of a `-f X` or `--filter X` put at its end:
/// the last filter option wins, at the top level as well as after
/// `snapshot`, and nothing else changes.
pub proof fn lemma_trailing_filter_option(
    args: Seq<Seq<char>>,
    a: ArgsView,
    flag: Seq<char>,
    value: Seq<char>,
)
    requires
        is_either(flag, "-f"@, "--filter"@),
        invocation_of(args) == Ok::<InvocationView, Seq<char>>(InvocationView::Run(a)),
        a.mode is Tui || a.mode is Snapshot,
    ensures
        invocation_of(args + seq![flag, value]) == Ok::<InvocationView, Seq<char>>(
            InvocationView::Run(ArgsView { filter: Some(value), ..a }),
        ),
{
    lemma_root_filter_appended(args, 0, DEFAULT_INTERVAL_MS, None, None, flag, value, a);
}

proof fn lemma_filter_flag_is_no_other(flag: Seq<char>)
    requires
        is_either(flag, "-f"@, "--filter"@),
    ensures
        !is_either(flag, "-h"@, "--help"@),
        !is_either(flag, "-V"@, "--version"@),
        !is_either(flag, "-i"@, "--interval"@),
{
    reveal_strlit("-f");
    reveal_strlit("--filter");
    reveal_strlit("-h");
    reveal_strlit("--help");
    reveal_strlit("-V");
    reveal_strlit("--version");
    reveal_strlit("-i");
    reveal_strlit("--interval");
    if flag == "-f"@ {
        assert(flag[1] != "-h"@[1]);
        assert(flag.len() != "--help"@.len());
        assert(flag[1] != "-V"@[1]);
        assert(flag.len() != "--version"@.len());
        assert(flag[1] != "-i"@[1]);
        assert(flag.len() != "--interval"@.len());
    } else {
        assert(flag.len() != "-h"@.len());
        assert(flag[2] != "--help"@[2]);
        assert(flag.len() != "-V"@.len());
        assert(flag[2] != "--version"@[2]);
        assert(flag.len() != "-i"@.len());
        assert(flag[2] != "--interval"@[2]);
    }
}

proof fn lemma_root_filter_appended(
    args: Seq<Seq<char>>,
    i: int,
    interval: u64,
    filter: Option<Seq<char>>,
    snapshot: Option<SnapshotMode>,
    flag: Seq<char>,
    value: Seq<char>,
    a: ArgsView,
)
    requires
        0 <= i <= args.len(),
        is_either(flag, "-f"@, "--filter"@),
    ensures
            parse_root(args, i, interval, filter, snapshot) == Ok::<InvocationView, Seq<char>>(
                InvocationView::Run(a),
            ) && (a.mode is Tui || a.mode is Snapshot) ==> parse_root(
                args + seq![flag, value],
                i,
                interval,
                filter,
                snapshot,
            ) == Ok::<InvocationView, Seq<char>>(
                InvocationView::Run(ArgsView { filter: Some(value), ..a }),
            ),
    decreases args.len() - i,
{
    let ext = args + seq![flag, value];
    lemma_filter_flag_is_no_other(flag);
    if i == args.len() {
        assert(ext[i] == flag && ext[i + 1] == value);
        assert(parse_root(ext, i + 2, interval, Some(value), snapshot) == Ok::<InvocationView, Seq<char>>(
            root_run(interval, Some(value), snapshot),
        ));
    } else {
        let arg = args[i];
        assert(ext[i] == arg);
        if i + 1 < args.len() {
            assert(ext[i + 1] == args[i + 1]);
            if let Ok(v) = interval_value(args[i + 1]) {
                lemma_root_filter_appended(args, i + 2, v, filter, snapshot, flag, value, a);
            }
            lemma_root_filter_appended(args, i + 2, interval, Some(args[i + 1]), snapshot, flag, value, a);
            if let Ok(v) = limit_value(args[i + 1]) {
                lemma_root_filter_appended(args, i + 2, interval, filter, Some(with_limit(snapshot, v)), flag, value, a);
            }
        }
        if let Ok(v) = interval_value(after(arg, "--interval="@)) {
            lemma_root_filter_appended(args, i + 1, v, filter, snapshot, flag, value, a);
        }
        lemma_root_filter_appended(args, i + 1, interval, Some(after(arg, "--filter="@)), snapshot, flag, value, a);
        lemma_root_filter_appended(args, i + 1, interval, filter, Some(with_json(snapshot)), flag, value, a);
        if let Ok(v) = limit_value(after(arg, "--limit="@)) {
            lemma_root_filter_appended(args, i + 1, interval, filter, Some(with_limit(snapshot, v)), flag, value, a);
        }
        lemma_snapshot_filter_appended(args, i + 1, interval, filter, SnapshotMode { json: false, limit: None }, flag, value, a);
        lemma_ports_run_mode(args, i + 1, interval, filter, PortsMode { port: None, json: false, all: false });
        lemma_inspect_run_mode(args, i + 1, interval, filter, None, false, DEFAULT_INSPECT_LIMIT);
    }
}

proof fn lemma_snapshot_filter_appended(
    args: Seq<Seq<char>>,
    i: int,
    interval: u64,
    filter: Option<Seq<char>>,
    mode: SnapshotMode,
    flag: Seq<char>,
    value: Seq<char>,
    a: ArgsView,
)
    requires
        0 <= i <= args.len(),
        is_either(flag, "-f"@, "--filter"@),
    ensures
            parse_snapshot(args, i, interval, filter, mode) == Ok::<InvocationView, Seq<char>>(
                InvocationView::Run(a),
            ) ==> parse_snapshot(args + seq![flag, value], i, interval, filter, mode)
                == Ok::<InvocationView, Seq<char>>(
                InvocationView::Run(ArgsView { filter: Some(value), ..a }),
            ),
    decreases args.len() - i,
{
    let ext = args + seq![flag, value];
    lemma_filter_flag_is_no_other(flag);
    if i == args.len() {
        assert(ext[i] == flag && ext[i + 1] == value);
        assert(parse_snapshot(ext, i + 2, interval, Some(value), mode) == Ok::<InvocationView, Seq<char>>(
            InvocationView::Run(ArgsView { interval, filter: Some(value), mode: Mode::Snapshot(mode) }),
        ));
    } else {
        let arg = args[i];
        assert(ext[i] == arg);
        if i + 1 < args.len() {
            assert(ext[i + 1] == args[i + 1]);
            if let Ok(v) = interval_value(args[i + 1]) {
                lemma_snapshot_filter_appended(args, i + 2, v, filter, mode, flag, value, a);
            }
            lemma_snapshot_filter_appended(args, i + 2, interval, Some(args[i + 1]), mode, flag, value, a);
            if let Ok(v) = limit_value(args[i + 1]) {
                lemma_snapshot_filter_appended(args, i + 2, interval, filter, SnapshotMode { limit: Some(v), ..mode }, flag, value, a);
            }
        }
        if let Ok(v) = interval_value(after(arg, "--interval="@)) {
            lemma_snapshot_filter_appended(args, i + 1, v, filter, mode, flag, value, a);
        }
        lemma_snapshot_filter_appended(args, i + 1, interval, Some(after(arg, "--filter="@)), mode, flag, value, a);
        lemma_snapshot_filter_appended(args, i + 1, interval, filter, SnapshotMode { json: true, ..mode }, flag, value, a);
        if let Ok(v) = limit_value(after(arg, "--limit="@)) {
            lemma_snapshot_filter_appended(args, i + 1, interval, filter, SnapshotMode { limit: Some(v), ..mode }, flag, value, a);
        }
    }
}

proof fn lemma_ports_run_mode(
    args: Seq<Seq<char>>,
    i: int,
    interval: u64,
    filter: Option<Seq<char>>,
    mode: PortsMode,
)
    ensures
        parse_ports(args, i, interval, filter, mode) matches Ok(InvocationView::Run(a)) ==> a.mode is Ports,
    decreases args.len() - i,
{
    if 0 <= i < args.len() {
        let arg = args[i];
        lemma_ports_run_mode(args, i + 1, interval, filter, PortsMode { json: true, ..mode });
        lemma_ports_run_mode(args, i + 1, interval, filter, PortsMode { all: true, ..mode });
        if let Ok(p) = port_value(arg) {
            lemma_ports_run_mode(args, i + 1, interval, filter, PortsMode { port: Some(p), ..mode });
        }
    }
}

proof fn lemma_inspect_run_mode(
    args: Seq<Seq<char>>,
    i: int,
    interval: u64,
    filter: Option<Seq<char>>,
    pid: Option<u32>,
    json: bool,
    limit: usize,
)
    ensures
        parse_inspect(args, i, interval, filter, pid, json, limit) matches Ok(InvocationView::Run(a))
            ==> a.mode is Inspect,
    decreases args.len() - i,
{
    if 0 <= i < args.len() {
        let arg = args[i];
        lemma_inspect_run_mode(args, i + 1, interval, filter, pid, true, limit);
        if i + 1 < args.len() {
            if let Ok(v) = limit_value(args[i + 1]) {
                lemma_inspect_run_mode(args, i + 2, interval, filter, pid, json, v);
            }
        }
        if let Ok(v) = limit_value(after(arg, "--limit="@)) {
            lemma_inspect_run_mode(args, i + 1, interval, filter, pid, json, v);
        }
        if let Ok(p) = pid_value(arg) {
            lemma_inspect_run_mode(args, i + 1, interval, filter, Some(p), json, limit);
        }
    }
}

/// Every run a command line asks for refreshes every 250 to 10000
/// milliseconds.
pub proof fn lemma_parsed_interval_in_range(args: Seq<Seq<char>>)
    ensures
        invocation_of(args) matches Ok(InvocationView::Run(a)) ==> MIN_INTERVAL_MS <= a.interval
            <= MAX_INTERVAL_MS,
{
    lemma_root_interval(args, 0, DEFAULT_INTERVAL_MS, None, None);
}

proof fn lemma_root_interval(
    args: Seq<Seq<char>>,
    i: int,
    interval: u64,
    filter: Option<Seq<char>>,
    snapshot: Option<SnapshotMode>,
)
    requires
        MIN_INTERVAL_MS <= interval <= MAX_INTERVAL_MS,
    ensures
        parse_root(args, i, interval, filter, snapshot) matches Ok(InvocationView::Run(a))
            ==> MIN_INTERVAL_MS <= a.interval <= MAX_INTERVAL_MS,
    decreases args.len() - i,
{
    if 0 <= i < args.len() {
        let arg = args[i];
        if i + 1 < args.len() {
            if let Ok(v) = interval_value(args[i + 1]) {
                lemma_root_interval(args, i + 2, v, filter, snapshot);
            }
            lemma_root_interval(args, i + 2, interval, Some(args[i + 1]), snapshot);
            if let Ok(v) = limit_value(args[i + 1]) {
                lemma_root_interval(args, i + 2, interval, filter, Some(with_limit(snapshot, v)));
            }
        }
        if let Ok(v) = interval_value(after(arg, "--interval="@)) {
            lemma_root_interval(args, i + 1, v, filter, snapshot);
        }
        lemma_root_interval(args, i + 1, interval, Some(after(arg, "--filter="@)), snapshot);
        lemma_root_interval(args, i + 1, interval, filter, Some(with_json(snapshot)));
        if let Ok(v) = limit_value(after(arg, "--limit="@)) {
            lemma_root_interval(args, i + 1, interval, filter, Some(with_limit(snapshot, v)));
        }
        lemma_snapshot_interval(
            args,
            i + 1,
            interval,
            filter,
            SnapshotMode { json: false, limit: None },
        );
        lemma_ports_interval(
            args,
            i + 1,
            interval,
            filter,
            PortsMode { port: None, json: false, all: false },
        );
        lemma_inspect_interval(args, i + 1, interval, filter, None, false, DEFAULT_INSPECT_LIMIT);
    }
}

proof fn lemma_snapshot_interval(
    args: Seq<Seq<char>>,
    i: int,
    interval: u64,
    filter: Option<Seq<char>>,
    mode: SnapshotMode,
)
    requires
        MIN_INTERVAL_MS <= interval <= MAX_INTERVAL_MS,
    ensures
        parse_snapshot(args, i, interval, filter, mode) matches Ok(InvocationView::Run(a))
            ==> MIN_INTERVAL_MS <= a.interval <= MAX_INTERVAL_MS,
    decreases args.len() - i,
{
    if 0 <= i < args.len() {
        let arg = args[i];
        if i + 1 < args.len() {
            if let Ok(v) = interval_value(args[i + 1]) {
                lemma_snapshot_interval(args, i + 2, v, filter, mode);
            }
            lemma_snapshot_interval(args, i + 2, interval, Some(args[i + 1]), mode);
            if let Ok(v) = limit_value(args[i + 1]) {
                lemma_snapshot_interval(
                    args,
                    i + 2,
                    interval,
                    filter,
                    SnapshotMode { limit: Some(v), ..mode },
                );
            }
        }
        if let Ok(v) = interval_value(after(arg, "--interval="@)) {
            lemma_snapshot_interval(args, i + 1, v, filter, mode);
        }
        lemma_snapshot_interval(args, i + 1, interval, Some(after(arg, "--filter="@)), mode);
        lemma_snapshot_interval(args, i + 1, interval, filter, SnapshotMode { json: true, ..mode });
        if let Ok(v) = limit_value(after(arg, "--limit="@)) {
            lemma_snapshot_interval(
                args,
                i + 1,
                interval,
                filter,
                SnapshotMode { limit: Some(v), ..mode },
            );
        }
    }
}

proof fn lemma_ports_interval(
    args: Seq<Seq<char>>,
    i: int,
    interval: u64,
    filter: Option<Seq<char>>,
    mode: PortsMode,
)
    requires
        MIN_INTERVAL_MS <= interval <= MAX_INTERVAL_MS,
    ensures
        parse_ports(args, i, interval, filter, mode) matches Ok(InvocationView::Run(a))
            ==> MIN_INTERVAL_MS <= a.interval <= MAX_INTERVAL_MS,
    decreases args.len() - i,
{
    if 0 <= i < args.len() {
        let arg = args[i];
        lemma_ports_interval(args, i + 1, interval, filter, PortsMode { json: true, ..mode });
        lemma_ports_interval(args, i + 1, interval, filter, PortsMode { all: true, ..mode });
        if let Ok(p) = port_value(arg) {
            lemma_ports_interval(args, i + 1, interval, filter, PortsMode { port: Some(p), ..mode });
        }
    }
}

proof fn lemma_inspect_interval(
    args: Seq<Seq<char>>,
    i: int,
    interval: u64,
    filter: Option<Seq<char>>,
    pid: Option<u32>,
    json: bool,
    limit: usize,
)
    requires
        MIN_INTERVAL_MS <= interval <= MAX_INTERVAL_MS,
    ensures
        parse_inspect(args, i, interval, filter, pid, json, limit) matches Ok(
            InvocationView::Run(a),
        ) ==> MIN_INTERVAL_MS <= a.interval <= MAX_INTERVAL_MS,
    decreases args.len() - i,
{
    if 0 <= i < args.len() {
        let arg = args[i];
        lemma_inspect_interval(args, i + 1, interval, filter, pid, true, limit);
        if i + 1 < args.len() {
            if let Ok(v) = limit_value(args[i + 1]) {
                lemma_inspect_interval(args, i + 2, interval, filter, pid, json, v);
            }
        }
        if let Ok(v) = limit_value(after(arg, "--limit="@)) {
            lemma_inspect_interval(args, i + 1, interval, filter, pid, json, v);
        }
        if let Ok(p) = pid_value(arg) {
            lemma_inspect_interval(args, i + 1, interval, filter, Some(p), json, limit);
        }
    }
}

/// The texts of the arguments.
pub open spec fn arg_texts(args: Seq<String>) -> Seq<Seq<char>> {
    args.map_values(|a: String| a@)
}

/// `a` spells the literal `lit`.
fn arg_is(a: &[char], lit: &str) -> (r: bool)
    ensures
        r == (a@ == lit@),
{
    chars_eq_str(a, lit)
}

/// The rest of `a` after the literal prefix `lit`, when `a` starts with it.
fn strip_prefix_lit(a: &[char], lit: &str) -> (r: Option<Vec<char>>)
    ensures
        r matches Some(rest) ==> crate::text::has_prefix(a@, lit@) && rest@ == after(a@, lit@),
        r is None ==> !crate::text::has_prefix(a@, lit@),
{
    let p = chars_of(lit);
    if starts_with(a, p.as_slice()) {
        Some(slice_chars(a, p.len(), a.len()))
    } else {
        None
    }
}

/// `arg` followed by a literal, as an error.
fn error_after(arg: &[char], post: &str) -> (e: Error)
    ensures
        e@ == arg@ + post@,
{
    let mut s = crate::text::string_of(arg);
    s.append(post);
    message(s)
}

/// The argument texts from `args`.
fn arg_chars(args: &Vec<String>, i: usize) -> (r: Vec<char>)
    requires
        i < args@.len(),
    ensures
        r@ == arg_texts(args@)[i as int],
{
    chars_of(args[i].as_str())
}

/// Parses the options of `snapshot`, from argument `start` on.
#[verifier::loop_isolation(false)]
fn parse_snapshot_args(args: &Vec<String>, start: usize, interval: u64, filter: Option<String>) -> (r: Result<Invocation>)
    requires
        start <= args@.len(),
    ensures
        result_view(r) == parse_snapshot(
            arg_texts(args@),
            start as int,
            interval,
            opt_text(filter),
            SnapshotMode { json: false, limit: None },
        ),
{
    let ghost texts = arg_texts(args@);
    let ghost goal = parse_snapshot(
        texts,
        start as int,
        interval,
        opt_text(filter),
        SnapshotMode { json: false, limit: None },
    );
    let mut interval = interval;
    let mut filter = filter;
    let mut mode = SnapshotMode { json: false, limit: None };
    let mut i = start;
    while i < args.len()
        invariant
            i <= args@.len(),
            texts == arg_texts(args@),
            goal == parse_snapshot(texts, i as int, interval, opt_text(filter), mode),
        decreases args@.len() - i,
    {
        let a = arg_chars(args, i);
        let a = a.as_slice();
        assert(texts[i as int] == a@);
        if arg_is(a, "-h") || arg_is(a, "--help") {
            return Ok(Invocation::Print(Printout::SnapshotHelp));
        } else if arg_is(a, "-i") || arg_is(a, "--interval") {
            if i + 1 >= args.len() {
                return Err(error_after(a, " requires a millisecond value"));
            }
            let v = arg_chars(args, i + 1);
            match interval_of(v.as_slice()) {
                Err(e) => {
                    return Err(e);
                },
                Ok(x) => {
                    interval = x;
                    i = i + 2;
                },
            }
        } else if arg_is(a, "-f") || arg_is(a, "--filter") {
            if i + 1 >= args.len() {
                return Err(error_after(a, " requires a filter value"));
            }
            filter = Some(args[i + 1].clone());
            i = i + 2;
        } else if let Some(rest) = strip_prefix_lit(a, "--interval=") {
            match interval_of(rest.as_slice()) {
                Err(e) => {
                    return Err(e);
                },
                Ok(x) => {
                    interval = x;
                    i = i + 1;
                },
            }
        } else if let Some(rest) = strip_prefix_lit(a, "--filter=") {
            filter = Some(crate::text::string_of(rest.as_slice()));
            i = i + 1;
        } else if arg_is(a, "--json") {
            mode = SnapshotMode { json: true, ..mode };
            i = i + 1;
        } else if arg_is(a, "-l") || arg_is(a, "--limit") {
            if i + 1 >= args.len() {
                return Err(error_after(a, " requires a row count"));
            }
            let v = arg_chars(args, i + 1);
            match limit_of(v.as_slice()) {
                Err(e) => {
                    return Err(e);
                },
                Ok(x) => {
                    mode = SnapshotMode { limit: Some(x), ..mode };
                    i = i + 2;
                },
            }
        } else if let Some(rest) = strip_prefix_lit(a, "--limit=") {
            match limit_of(rest.as_slice()) {
                Err(e) => {
                    return Err(e);
                },
                Ok(x) => {
                    mode = SnapshotMode { limit: Some(x), ..mode };
                    i = i + 1;
                },
            }
        } else {
            let mut s = String::from_str("unknown snapshot option: ");
            crate::text::push_range(&mut s, a, 0, a.len());
            s.append(". Run monitr snapshot --help for usage.");
            proof {
                assert(a@.subrange(0, a@.len() as int) =~= a@);
            }
            return Err(message(s));
        }
    }
    Ok(Invocation::Run(Args { interval, filter, mode: Mode::Snapshot(mode) }))
}

/// Parses the options of `ports`, from argument `start` on.
#[verifier::loop_isolation(false)]
fn parse_ports_args(args: &Vec<String>, start: usize, interval: u64, filter: Option<String>) -> (r: Result<Invocation>)
    requires
        start <= args@.len(),
    ensures
        result_view(r) == parse_ports(
            arg_texts(args@),
            start as int,
            interval,
            opt_text(filter),
            PortsMode { port: None, json: false, all: false },
        ),
{
    let ghost texts = arg_texts(args@);
    let ghost goal = parse_ports(
        texts,
        start as int,
        interval,
        opt_text(filter),
        PortsMode { port: None, json: false, all: false },
    );
    let mut mode = PortsMode { port: None, json: false, all: false };
    let mut i = start;
    while i < args.len()
        invariant
            i <= args@.len(),
            texts == arg_texts(args@),
            goal == parse_ports(texts, i as int, interval, opt_text(filter), mode),
        decreases args@.len() - i,
    {
        let a = arg_chars(args, i);
        let a = a.as_slice();
        assert(texts[i as int] == a@);
        if arg_is(a, "-h") || arg_is(a, "--help") {
            return Ok(Invocation::Print(Printout::PortsHelp));
        } else if arg_is(a, "--json") {
            mode = PortsMode { json: true, ..mode };
        } else if arg_is(a, "-a") || arg_is(a, "--all") {
            mode = PortsMode { all: true, ..mode };
        } else if mode.port.is_none() {
            match port_of(a) {
                Err(e) => {
                    return Err(e);
                },
                Ok(p) => {
                    mode = PortsMode { port: Some(p), ..mode };
                },
            }
        } else {
            let mut s = String::from_str("unknown ports option: ");
            crate::text::push_range(&mut s, a, 0, a.len());
            s.append(". Run monitr ports --help for usage.");
            proof {
                assert(a@.subrange(0, a@.len() as int) =~= a@);
            }
            return Err(message(s));
        }
        i = i + 1;
    }
    Ok(Invocation::Run(Args { interval, filter, mode: Mode::Ports(mode) }))
}

/// Parses the options of `inspect`, from argument `start` on.
#[verifier::loop_isolation(false)]
fn parse_inspect_args(args: &Vec<String>, start: usize, interval: u64, filter: Option<String>) -> (r: Result<Invocation>)
    requires
        start <= args@.len(),
    ensures
        result_view(r) == parse_inspect(
            arg_texts(args@),
            start as int,
            interval,
            opt_text(filter),
            None,
            false,
            DEFAULT_INSPECT_LIMIT,
        ),
{
    let ghost texts = arg_texts(args@);
    let ghost goal = parse_inspect(
        texts,
        start as int,
        interval,
        opt_text(filter),
        None,
        false,
        DEFAULT_INSPECT_LIMIT,
    );
    let mut pid: Option<u32> = None;
    let mut json = false;
    let mut limit = DEFAULT_INSPECT_LIMIT;
    let mut i = start;
    while i < args.len()
        invariant
            i <= args@.len(),
            texts == arg_texts(args@),
            goal == parse_inspect(texts, i as int, interval, opt_text(filter), pid, json, limit),
        decreases args@.len() - i,
    {
        let a = arg_chars(args, i);
        let a = a.as_slice();
        assert(texts[i as int] == a@);
        if arg_is(a, "-h") || arg_is(a, "--help") {
            return Ok(Invocation::Print(Printout::InspectHelp));
        } else if arg_is(a, "--json") {
            json = true;
            i = i + 1;
        } else if arg_is(a, "-l") || arg_is(a, "--limit") {
            if i + 1 >= args.len() {
                return Err(error_after(a, " requires a row count"));
            }
            let v = arg_chars(args, i + 1);
            match limit_of(v.as_slice()) {
                Err(e) => {
                    return Err(e);
                },
                Ok(x) => {
                    limit = x;
                    i = i + 2;
                },
            }
        } else if let Some(rest) = strip_prefix_lit(a, "--limit=") {
            match limit_of(rest.as_slice()) {
                Err(e) => {
                    return Err(e);
                },
                Ok(x) => {
                    limit = x;
                    i = i + 1;
                },
            }
        } else if pid.is_none() {
            match pid_of(a) {
                Err(e) => {
                    return Err(e);
                },
                Ok(p) => {
                    pid = Some(p);
                    i = i + 1;
                },
            }
        } else {
            let mut s = String::from_str("unknown inspect option: ");
            crate::text::push_range(&mut s, a, 0, a.len());
            s.append(". Run monitr inspect --help for usage.");
            proof {
                assert(a@.subrange(0, a@.len() as int) =~= a@);
            }
            return Err(message(s));
        }
    }
    match pid {
        None => Err(error_text("inspect requires a PID. Run monitr inspect --help for usage.")),
        Some(pid) => Ok(Invocation::Run(Args { interval, filter, mode: Mode::Inspect(InspectMode { pid, json, limit }) })),
    }
}

/// What a command line (without the program name) asks for, as
/// [`invocation_of`] describes.
#[verifier::loop_isolation(false)]
pub fn parse_invocation(args: &Vec<String>) -> (r: Result<Invocation>)
    ensures
        result_view(r) == invocation_of(arg_texts(args@)),
{
    let ghost texts = arg_texts(args@);
    let ghost goal = invocation_of(texts);
    let mut interval = DEFAULT_INTERVAL_MS;
    let mut filter: Option<String> = None;
    let mut snapshot: Option<SnapshotMode> = None;
    let mut i: usize = 0;
    while i < args.len()
        invariant
            i <= args@.len(),
            texts == arg_texts(args@),
            goal == parse_root(texts, i as int, interval, opt_text(filter), snapshot),
        decreases args@.len() - i,
    {
        let a = arg_chars(args, i);
        let a = a.as_slice();
        assert(texts[i as int] == a@);
        if arg_is(a, "-h") || arg_is(a, "--help") {
            return Ok(Invocation::Print(Printout::Help));
        } else if arg_is(a, "-V") || arg_is(a, "--version") {
            return Ok(Invocation::Print(Printout::Version));
        } else if arg_is(a, "-i") || arg_is(a, "--interval") {
            if i + 1 >= args.len() {
                return Err(error_after(a, " requires a millisecond value"));
            }
            let v = arg_chars(args, i + 1);
            match interval_of(v.as_slice()) {
                Err(e) => {
                    return Err(e);
                },
                Ok(x) => {
                    interval = x;
                    i = i + 2;
                },
            }
        } else if arg_is(a, "-f") || arg_is(a, "--filter") {
            if i + 1 >= args.len() {
                return Err(error_after(a, " requires a filter value"));
            }
            filter = Some(args[i + 1].clone());
            i = i + 2;
        } else if let Some(rest) = strip_prefix_lit(a, "--interval=") {
            match interval_of(rest.as_slice()) {
                Err(e) => {
                    return Err(e);
                },
                Ok(x) => {
                    interval = x;
                    i = i + 1;
                },
            }
        } else if let Some(rest) = strip_prefix_lit(a, "--filter=") {
            filter = Some(crate::text::string_of(rest.as_slice()));
            i = i + 1;
        } else if arg_is(a, "--json") {
            let m = match snapshot {
                Some(m) => SnapshotMode { json: true, ..m },
                None => SnapshotMode { json: true, limit: None },
            };
            snapshot = Some(m);
            i = i + 1;
        } else if arg_is(a, "-l") || arg_is(a, "--limit") {
            if i + 1 >= args.len() {
                return Err(error_after(a, " requires a row count"));
            }
            let v = arg_chars(args, i + 1);
            match limit_of(v.as_slice()) {
                Err(e) => {
                    return Err(e);
                },
                Ok(x) => {
                    let m = match snapshot {
                        Some(m) => SnapshotMode { limit: Some(x), ..m },
                        None => SnapshotMode { json: false, limit: Some(x) },
                    };
                    snapshot = Some(m);
                    i = i + 2;
                },
            }
        } else if let Some(rest) = strip_prefix_lit(a, "--limit=") {
            match limit_of(rest.as_slice()) {
                Err(e) => {
                    return Err(e);
                },
                Ok(x) => {
                    let m = match snapshot {
                        Some(m) => SnapshotMode { limit: Some(x), ..m },
                        None => SnapshotMode { json: false, limit: Some(x) },
                    };
                    snapshot = Some(m);
                    i = i + 1;
                },
            }
        } else if arg_is(a, "snapshot") {
            return parse_snapshot_args(args, i + 1, interval, filter);
        } else if arg_is(a, "ports") {
            return parse_ports_args(args, i + 1, interval, filter);
        } else if arg_is(a, "inspect") {
            return parse_inspect_args(args, i + 1, interval, filter);
        } else {
            let mut s = String::from_str("unknown option: ");
            crate::text::push_range(&mut s, a, 0, a.len());
            s.append(". Run monitr --help for usage.");
            proof {
                assert(a@.subrange(0, a@.len() as int) =~= a@);
            }
            return Err(message(s));
        }
    }
    let mode = match snapshot {
        Some(m) => Mode::Snapshot(m),
        None => Mode::Tui,
    };
    Ok(Invocation::Run(Args { interval, filter, mode }))
}

/// The run a command line asks for, or nothing when it asks for a help or
/// version text instead.
pub open spec fn args_of(args: Seq<Seq<char>>) -> core::result::Result<Option<ArgsView>, Seq<char>> {
    match invocation_of(args) {
        Ok(InvocationView::Run(a)) => Ok(Some(a)),
        Ok(InvocationView::Print(_)) => Ok(None),
        Err(e) => Err(e),
    }
}

/// Parses a command line (without the program name), as [`args_of`]
/// describes.
pub fn parse_args_from(args: &Vec<String>) -> (r: Result<Option<Args>>)
    ensures
        match r {
            Ok(Some(a)) => args_of(arg_texts(args@)) == Ok::<Option<ArgsView>, Seq<char>>(Some(a.view())),
            Ok(None) => args_of(arg_texts(args@)) == Ok::<Option<ArgsView>, Seq<char>>(None),
            Err(e) => args_of(arg_texts(args@)) == Err::<Option<ArgsView>, Seq<char>>(e@),
        },
{
    match parse_invocation(args) {
        Ok(Invocation::Run(a)) => Ok(Some(a)),
        Ok(Invocation::Print(_)) => Ok(None),
        Err(e) => Err(e),
    }
}

} // verus!
