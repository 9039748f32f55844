//! Per-process texts, platform fallbacks, and `nettop` output parsing.
use std::collections::HashMap;

use vstd::prelude::*;

use crate::error::{message, Result};
use crate::text::{
    chars_of, decimal, has_prefix, lines, lossy_text, lowercase, parse_unsigned,
    parse_unsigned_chars, push_decimal, push_signed_decimal, signed_decimal, slice_chars,
    split_char, split_lines, split_on, starts_with, string_of, to_lowercase, trim, trim_chars,
    utf8_lossy, views, CommandOutput,
};

verus! {

broadcast use vstd::std_specs::hash::group_hash_axioms;

/// The run state of a process.
#[derive(Debug, Clone, Copy, PartialEq, Eq, Structural)]
pub enum ProcStatus {
    Idle,
    Run,
    Sleep,
    Stop,
    Zombie,
    Tracing,
    Dead,
    Wakekill,
    Waking,
    Parked,
    LockBlocked,
    UninterruptibleDiskSleep,
    Suspended,
    Unknown,
}

/// The label of a run state.
pub open spec fn status_text(status: ProcStatus) -> Seq<char> {
    match status {
        ProcStatus::Idle => "idle"@,
        ProcStatus::Run => "running"@,
        ProcStatus::Sleep => "sleeping"@,
        ProcStatus::Stop => "stopped"@,
        ProcStatus::Zombie => "zombie"@,
        ProcStatus::Tracing => "tracing"@,
        ProcStatus::Dead => "dead"@,
        ProcStatus::Wakekill => "wakekill"@,
        ProcStatus::Waking => "waking"@,
        ProcStatus::Parked => "parked"@,
        ProcStatus::LockBlocked => "blocked"@,
        ProcStatus::UninterruptibleDiskSleep => "disk sleep"@,
        ProcStatus::Suspended => "suspended"@,
        ProcStatus::Unknown => "unknown"@,
    }
}

/// The label of a run state, as [`status_text`] gives it.
pub fn status_label(status: ProcStatus) -> (r: &'static str)
    ensures
        r@ == status_text(status),
{
    match status {
        ProcStatus::Idle => "idle",
        ProcStatus::Run => "running",
        ProcStatus::Sleep => "sleeping",
        ProcStatus::Stop => "stopped",
        ProcStatus::Zombie => "zombie",
        ProcStatus::Tracing => "tracing",
        ProcStatus::Dead => "dead",
        ProcStatus::Wakekill => "wakekill",
        ProcStatus::Waking => "waking",
        ProcStatus::Parked => "parked",
        ProcStatus::LockBlocked => "blocked",
        ProcStatus::UninterruptibleDiskSleep => "disk sleep",
        ProcStatus::Suspended => "suspended",
        ProcStatus::Unknown => "unknown",
    }
}

// ---------------------------------------------------------------------------
// Texts of a process row
// ---------------------------------------------------------------------------

/// A name, or `-` when it is empty.
pub open spec fn name_or_dash(s: Seq<char>) -> Seq<char> {
    if s.len() == 0 {
        seq!['-']
    } else {
        s
    }
}

/// `parts` joined with single spaces.
pub open spec fn joined(parts: Seq<Seq<char>>) -> Seq<char>
    decreases parts.len(),
{
    if parts.len() == 0 {
        Seq::empty()
    } else if parts.len() == 1 {
        parts[0]
    } else {
        joined(parts.drop_last()) + seq![' '] + parts.last()
    }
}

/// The command line of a process: its arguments joined with spaces, or its
/// name (`-` when empty) when it has none.
pub open spec fn command_text(parts: Seq<Seq<char>>, name: Seq<char>) -> Seq<char> {
    if parts.len() == 0 {
        name_or_dash(name)
    } else {
        joined(parts)
    }
}

/// The texts of a sequence of strings.
pub open spec fn texts(v: Seq<String>) -> Seq<Seq<char>> {
    v.map_values(|s: String| s@)
}

/// The command line of a process, as [`command_text`] describes.
pub fn command_line(parts: &Vec<String>, name: &str) -> (r: String)
    ensures
        r@ == command_text(texts(parts@), name@),
{
    if parts.len() == 0 {
        let n = chars_of(name);
        return crate::inspect::value_or_dash(n.as_slice());
    }
    let mut out = String::new();
    out.append(parts[0].as_str());
    let mut i: usize = 1;
    proof {
        assert(texts(parts@).subrange(0, 1) =~= seq![parts@[0]@]);
        assert(joined(texts(parts@).subrange(0, 1)) == parts@[0]@);
    }
    while i < parts.len()
        invariant
            1 <= i <= parts@.len(),
            out@ == joined(texts(parts@).subrange(0, i as int)),
        decreases parts.len() - i,
    {
        out.push(' ');
        out.append(parts[i].as_str());
        proof {
            let t = texts(parts@);
            assert(t.subrange(0, i + 1).drop_last() =~= t.subrange(0, i as int));
        }
        i = i + 1;
    }
    proof {
        assert(texts(parts@).subrange(0, parts@.len() as int) =~= texts(parts@));
    }
    out
}

/// The lower-cased line a plain filter term is looked for in:
/// `pid name user command status`.
pub open spec fn search_line(
    pid: u32,
    sort_name: Seq<char>,
    user: Seq<char>,
    command: Seq<char>,
    status: Seq<char>,
) -> Seq<char> {
    decimal(pid as nat) + seq![' '] + sort_name + seq![' '] + lowercase(user) + seq![' '] + lowercase(
        command,
    ) + seq![' '] + lowercase(status)
}

/// The search line of a process, as [`search_line`] describes; `sort_name`
/// is its name already lower-cased.
pub fn search_text(pid: u32, sort_name: &str, user: &str, command: &str, status: &str) -> (r: String)
    ensures
        r@ == search_line(pid, sort_name@, user@, command@, status@),
{
    let mut out = String::new();
    push_decimal(&mut out, pid as u64);
    out.push(' ');
    out.append(sort_name);
    out.push(' ');
    out.append(string_of(to_lowercase(chars_of(user).as_slice()).as_slice()).as_str());
    out.push(' ');
    out.append(string_of(to_lowercase(chars_of(command).as_slice()).as_slice()).as_str());
    out.push(' ');
    out.append(string_of(to_lowercase(chars_of(status).as_slice()).as_slice()).as_str());
    assert(out@ =~= search_line(pid, sort_name@, user@, command@, status@));
    out
}

// ---------------------------------------------------------------------------
// Platform fallbacks
// ---------------------------------------------------------------------------

/// The thread count of a process where no platform interface reports it:
/// unknown.
pub fn thread_count(_pid: u32) -> (r: Option<usize>)
    ensures
        r is None,
{
    None
}

/// The scheduling priority of a process where no platform interface reports
/// it: unknown.
pub fn priority(_pid: u32) -> (r: Option<i32>)
    ensures
        r is None,
{
    None
}

/// Setting a priority where the platform offers no interface for it fails.
pub fn set_priority(_pid: u32, _priority: i32) -> (r: Result<()>)
    ensures
        r matches Err(e) && e@ == "priority control is not supported on this platform"@,
{
    Err(message(String::from_str("priority control is not supported on this platform")))
}

/// Per-process network totals where no platform interface reports them:
/// an explanation.
pub fn process_network_totals() -> (r: core::result::Result<HashMap<u32, ProcessNetworkTotals>, String>)
    ensures
        r matches Err(e) && e@ == "process-level network attribution is not supported on this platform"@,
{
    Err(String::from_str("process-level network attribution is not supported on this platform"))
}

// ---------------------------------------------------------------------------
// nettop
// ---------------------------------------------------------------------------

/// Bytes a process has received and sent in total.
#[derive(Debug, Clone, Copy, PartialEq, Eq, Structural)]
pub struct ProcessNetworkTotals {
    pub total_in: u64,
    pub total_out: u64,
}

/// `s` without its commas.
pub open spec fn without_commas(s: Seq<char>) -> Seq<char> {
    s.filter(|c: char| c != ',')
}

/// A byte count as `nettop` prints it, commas allowed.
pub open spec fn count_value(raw: Seq<char>) -> Option<u64> {
    match parse_unsigned(without_commas(trim(raw)), u64::MAX as nat) {
        Some(v) => Some(v as u64),
        None => None,
    }
}

/// Reads a byte count as [`count_value`] describes.
pub fn parse_u64(raw: &[char]) -> (r: Option<u64>)
    ensures
        r == count_value(raw@),
{
    let t = trim_chars(raw);
    let mut v: Vec<char> = Vec::new();
    let mut i: usize = 0;
    while i < t.len()
        invariant
            i <= t@.len(),
            v@ == without_commas(t@.subrange(0, i as int)),
        decreases t.len() - i,
    {
        let c = t[i];
        proof {
            assert(t@.subrange(0, i + 1) =~= t@.subrange(0, i as int).push(c));
            reveal(Seq::filter);
            assert(t@.subrange(0, i + 1).drop_last() =~= t@.subrange(0, i as int));
        }
        if c != ',' {
            v.push(c);
        }
        i = i + 1;
    }
    proof {
        assert(t@.subrange(0, t@.len() as int) =~= t@);
    }
    match parse_unsigned_chars(v.as_slice(), u64::MAX) {
        Some(x) => Some(x),
        None => None,
    }
}

/// The position of the last occurrence of `c` in `s`.
pub open spec fn last_index_of(s: Seq<char>, c: char) -> Option<int>
    decreases s.len(),
{
    if s.len() == 0 {
        None
    } else if s.last() == c {
        Some(s.len() - 1)
    } else {
        last_index_of(s.drop_last(), c)
    }
}

proof fn lemma_last_index_of(s: Seq<char>, c: char)
    ensures
        last_index_of(s, c) matches Some(i) ==> 0 <= i < s.len() && s[i] == c,
    decreases s.len(),
{
    if s.len() > 0 && s.last() != c {
        lemma_last_index_of(s.drop_last(), c);
    }
}

/// The PID of a `nettop` process column `name.PID`: the text after the last
/// `.`, when it reads as a `u32`.
pub open spec fn nettop_pid(process: Seq<char>) -> Option<u32> {
    match last_index_of(process, '.') {
        None => None,
        Some(i) => match parse_unsigned(process.subrange(i + 1, process.len() as int), u32::MAX as nat) {
            Some(v) => Some(v as u32),
            None => None,
        },
    }
}

/// Reads the PID of a process column, as [`nettop_pid`] describes.
pub fn parse_pid(process: &[char]) -> (r: Option<u32>)
    ensures
        r == nettop_pid(process@),
{
    let mut i = process.len();
    assert(process@.subrange(0, i as int) =~= process@);
    while i > 0 && process[i - 1] != '.'
        invariant
            i <= process@.len(),
            last_index_of(process@, '.') == last_index_of(process@.subrange(0, i as int), '.'),
        decreases i,
    {
        assert(process@.subrange(0, i as int).drop_last() =~= process@.subrange(0, i - 1));
        i = i - 1;
    }
    if i == 0 {
        assert(process@.subrange(0, 0) =~= Seq::<char>::empty());
        return None;
    }
    proof {
        assert(process@.subrange(0, i as int).last() == process@[i - 1]);
    }
    let rest = slice_chars(process, i, process.len());
    match parse_unsigned_chars(rest.as_slice(), u32::MAX as u64) {
        Some(v) => Some(v as u32),
        None => None,
    }
}

/// What one `nettop -L1 -P -n -x` line says: the PID of its process column
/// (the second), and the bytes in and out of its fifth and sixth columns (0
/// when missing or unreadable). Blank lines, the header and lines without a
/// readable PID say nothing.
pub open spec fn nettop_line(line: Seq<char>) -> Option<(u32, ProcessNetworkTotals)> {
    if trim(line).len() == 0 || has_prefix(line, "time,"@) {
        None
    } else {
        let fields = split_on(line, ',');
        if fields.len() < 2 {
            None
        } else {
            match nettop_pid(fields[1]) {
                None => None,
                Some(pid) => {
                    let bytes_in = if fields.len() > 4 {
                        match count_value(fields[4]) {
                            Some(v) => v,
                            None => 0,
                        }
                    } else {
                        0
                    };
                    let bytes_out = if fields.len() > 5 {
                        match count_value(fields[5]) {
                            Some(v) => v,
                            None => 0,
                        }
                    } else {
                        0
                    };
                    Some((pid, ProcessNetworkTotals { total_in: bytes_in, total_out: bytes_out }))
                },
            }
        }
    }
}

/// The totals the given lines report; a later line for the same PID wins.
pub open spec fn nettop_lines(ls: Seq<Seq<char>>) -> Map<u32, ProcessNetworkTotals>
    decreases ls.len(),
{
    if ls.len() == 0 {
        Map::empty()
    } else {
        let m = nettop_lines(ls.drop_last());
        match nettop_line(ls.last()) {
            None => m,
            Some((pid, t)) => m.insert(pid, t),
        }
    }
}

/// The per-process totals in `nettop` output.
pub open spec fn nettop_totals(output: Seq<u8>) -> Map<u32, ProcessNetworkTotals> {
    nettop_lines(lines(utf8_lossy(output)))
}

fn parse_nettop_line(line: &[char]) -> (r: Option<(u32, ProcessNetworkTotals)>)
    ensures
        r == nettop_line(line@),
{
    let t = trim_chars(line);
    if t.len() == 0 {
        return None;
    }
    let header = chars_of("time,");
    if starts_with(line, header.as_slice()) {
        return None;
    }
    let fields = split_char(line, ',');
    if fields.len() < 2 {
        return None;
    }
    proof {
        assert(fields@[1]@ == split_on(line@, ',')[1]);
    }
    match parse_pid(fields[1].as_slice()) {
        None => None,
        Some(pid) => {
            let bytes_in = if fields.len() > 4 {
                proof {
                    assert(fields@[4]@ == split_on(line@, ',')[4]);
                }
                match parse_u64(fields[4].as_slice()) {
                    Some(v) => v,
                    None => 0,
                }
            } else {
                0
            };
            let bytes_out = if fields.len() > 5 {
                proof {
                    assert(fields@[5]@ == split_on(line@, ',')[5]);
                }
                match parse_u64(fields[5].as_slice()) {
                    Some(v) => v,
                    None => 0,
                }
            } else {
                0
            };
            Some((pid, ProcessNetworkTotals { total_in: bytes_in, total_out: bytes_out }))
        },
    }
}

/// The per-process totals in `nettop` output, as [`nettop_totals`]
/// describes.
pub fn parse_process_network_totals(output: &[u8]) -> (r: HashMap<u32, ProcessNetworkTotals>)
    ensures
        r@ == nettop_totals(output@),
{
    let text = lossy_text(output);
    let v = chars_of(text.as_str());
    let ls = split_lines(v.as_slice());
    let mut totals: HashMap<u32, ProcessNetworkTotals> = HashMap::new();
    let mut i: usize = 0;
    while i < ls.len()
        invariant
            i <= ls@.len(),
            views(ls@) == lines(utf8_lossy(output@)),
            totals@ == nettop_lines(lines(utf8_lossy(output@)).subrange(0, i as int)),
        decreases ls.len() - i,
    {
        let ghost all = lines(utf8_lossy(output@));
        proof {
            assert(ls@[i as int]@ == all[i as int]);
            assert(all.subrange(0, i + 1).drop_last() =~= all.subrange(0, i as int));
        }
        match parse_nettop_line(ls[i].as_slice()) {
            None => {},
            Some((pid, t)) => {
                totals.insert(pid, t);
            },
        }
        i = i + 1;
    }
    proof {
        assert(lines(utf8_lossy(output@)).subrange(0, ls@.len() as int) =~= lines(
            utf8_lossy(output@),
        ));
    }
    totals
}

/// The message for a failed `nettop` run: its trimmed error output, or its
/// exit status when that is empty.
pub open spec fn nettop_failure_text(code: Option<i32>, stderr: Seq<u8>) -> Seq<char> {
    let err = trim(utf8_lossy(stderr));
    if err.len() == 0 {
        "nettop exited with status "@ + match code {
            Some(c) => signed_decimal(c as int),
            None => "signal"@,
        }
    } else {
        "nettop failed: "@ + err
    }
}

/// The per-process totals from a run of `nettop -L1 -P -n -x`: its output
/// read as [`nettop_totals`] describes when it succeeded, else the failure.
pub fn nettop_totals_from(output: &CommandOutput) -> (r: core::result::Result<HashMap<u32, ProcessNetworkTotals>, String>)
    ensures
        output.success ==> (r matches Ok(m) && m@ == nettop_totals(output.stdout@)),
        !output.success ==> (r matches Err(e) && e@ == nettop_failure_text(output.code, output.stderr@)),
{
    if output.success {
        return Ok(parse_process_network_totals(output.stdout.as_slice()));
    }
    let err = lossy_text(output.stderr.as_slice());
    let err = trim_chars(chars_of(err.as_str()).as_slice());
    if err.len() == 0 {
        let mut msg = String::from_str("nettop exited with status ");
        match output.code {
            Some(c) => push_signed_decimal(&mut msg, c as i64),
            None => msg.append("signal"),
        }
        Err(msg)
    } else {
        let mut msg = String::from_str("nettop failed: ");
        msg.append(string_of(err.as_slice()).as_str());
        Err(msg)
    }
}

} // verus!

verus! {

/// Details read for the selected process only; each is missing where the
/// system does not expose it.
#[derive(Debug, Clone, Copy, PartialEq, Eq, Structural)]
pub struct SelectedProcessDetails {
    pub thread_count: Option<usize>,
    pub open_files: Option<usize>,
    pub open_files_limit: Option<usize>,
    pub session_id: Option<u32>,
    pub priority: Option<i32>,
}

} // verus!
