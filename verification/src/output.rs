//! The one-shot process snapshot printed by `monitr snapshot`: its options
//! and the parts of its text that do not depend on measurements.
use vstd::prelude::*;

use crate::format::{bytes, bytes_text, truncate_middle, truncated_middle};
use crate::text::{decimal, decimal_string, pad_end, pad_start, push_pad_end, push_pad_start, trim};

verus! {

/// How a snapshot is printed: which processes (a filter and a count), as
/// JSON or text, and with the longer text columns or not.
#[derive(Debug, Clone, Copy, PartialEq, Eq)]
pub struct SnapshotOptions<'a> {
    pub filter: Option<&'a str>,
    pub limit: Option<usize>,
    pub json: bool,
    pub full: bool,
}

/// What the summary line says of the filter: ` | filter ` and the filter,
/// when one with more than blanks was given.
pub open spec fn filter_suffix_text(filter: Option<Seq<char>>) -> Seq<char> {
    match filter {
        Some(f) => if trim(f).len() == 0 {
            Seq::empty()
        } else {
            " | filter "@ + f
        },
        None => Seq::empty(),
    }
}

/// What the summary line says of the filter; see [`filter_suffix_text`].
pub fn filter_suffix(filter: Option<&str>) -> (r: String)
    ensures
        r@ == filter_suffix_text(
            match filter {
                Some(f) => Some(f@),
                None => None,
            },
        ),
{
    match filter {
        Some(f) => {
            let chars = crate::text::chars_of(f);
            let trimmed = crate::text::trim_chars(chars.as_slice());
            if trimmed.len() == 0 {
                String::new()
            } else {
                let mut out = String::from_str(" | filter ");
                out.append(f);
                out
            }
        },
        None => String::new(),
    }
}

/// The column headers of the process list: PID, CPU, memory and disk rate,
/// with parent PID and threads in the full listing, then user and name.
pub open spec fn snapshot_header_text(full: bool) -> Seq<char> {
    let start = pad_start("PID"@, 7) + " "@ + pad_start("%CPU"@, 7) + " "@ + pad_start(
        "MEMORY"@,
        10,
    ) + " "@ + pad_start("DISK/S"@, 12) + " "@;
    if full {
        start + pad_start("PPID"@, 7) + " "@ + pad_start("THREADS"@, 8) + " "@ + pad_end(
            "USER"@,
            13,
        ) + " NAME"@
    } else {
        start + pad_end("USER"@, 13) + " NAME"@
    }
}

/// The column headers of the process list; see [`snapshot_header_text`].
pub fn snapshot_header(full: bool) -> (r: String)
    ensures
        r@ == snapshot_header_text(full),
{
    let mut out = String::new();
    push_pad_start(&mut out, "PID", 7);
    out.append(" ");
    push_pad_start(&mut out, "%CPU", 7);
    out.append(" ");
    push_pad_start(&mut out, "MEMORY", 10);
    out.append(" ");
    push_pad_start(&mut out, "DISK/S", 12);
    out.append(" ");
    if full {
        push_pad_start(&mut out, "PPID", 7);
        out.append(" ");
        push_pad_start(&mut out, "THREADS", 8);
        out.append(" ");
    }
    push_pad_end(&mut out, "USER", 13);
    out.append(" NAME");
    assert(out@ =~= snapshot_header_text(full));
    out
}

/// One process of the listing. The CPU share and the disk rate come already
/// written, since they are measured as fractions.
pub struct SnapshotLine<'a> {
    pub pid: u32,
    pub cpu: &'a str,
    pub memory: u64,
    pub disk_rate: &'a str,
    pub parent_pid: Option<u32>,
    pub threads: Option<usize>,
    pub user: &'a str,
    pub name: &'a str,
}

/// A number that may be unknown: the number, or `-`.
pub open spec fn number_or_dash(n: Option<nat>) -> Seq<char> {
    match n {
        Some(n) => decimal(n),
        None => "-"@,
    }
}

/// One line of the process listing, under the columns of
/// [`snapshot_header_text`]: the user cut to 13 characters in the middle,
/// the name in full.
pub open spec fn snapshot_line_text(row: SnapshotLine<'_>, full: bool) -> Seq<char> {
    let start = pad_start(decimal(row.pid as nat), 7) + " "@ + pad_start(row.cpu@, 7) + " "@
        + pad_start(bytes_text(row.memory as nat), 10) + " "@ + pad_start(row.disk_rate@, 12)
        + " "@;
    let middle = if full {
        pad_start(
            number_or_dash(
                match row.parent_pid {
                    Some(p) => Some(p as nat),
                    None => None,
                },
            ),
            7,
        ) + " "@ + pad_start(
            number_or_dash(
                match row.threads {
                    Some(t) => Some(t as nat),
                    None => None,
                },
            ),
            8,
        ) + " "@
    } else {
        Seq::empty()
    };
    start + middle + pad_end(truncated_middle(row.user@, 13), 13) + " "@ + row.name@
}

/// The text of a number that may be unknown; see [`number_or_dash`].
fn number_or_dash_string(n: Option<u64>) -> (r: String)
    ensures
        r@ == number_or_dash(
            match n {
                Some(n) => Some(n as nat),
                None => None,
            },
        ),
{
    match n {
        Some(n) => decimal_string(n),
        None => String::from_str("-"),
    }
}

/// One line of the process listing; see [`snapshot_line_text`].
pub fn snapshot_line(row: &SnapshotLine<'_>, full: bool) -> (r: String)
    ensures
        r@ == snapshot_line_text(*row, full),
{
    let mut out = String::new();
    let pid = decimal_string(row.pid as u64);
    push_pad_start(&mut out, pid.as_str(), 7);
    out.append(" ");
    push_pad_start(&mut out, row.cpu, 7);
    out.append(" ");
    let memory = bytes(row.memory);
    push_pad_start(&mut out, memory.as_str(), 10);
    out.append(" ");
    push_pad_start(&mut out, row.disk_rate, 12);
    out.append(" ");
    if full {
        let parent = number_or_dash_string(
            match row.parent_pid {
                Some(p) => Some(p as u64),
                None => None,
            },
        );
        push_pad_start(&mut out, parent.as_str(), 7);
        out.append(" ");
        let threads = number_or_dash_string(
            match row.threads {
                Some(t) => Some(t as u64),
                None => None,
            },
        );
        push_pad_start(&mut out, threads.as_str(), 8);
        out.append(" ");
    }
    let user = truncate_middle(row.user, 13);
    push_pad_end(&mut out, user.as_str(), 13);
    out.append(" ");
    out.append(row.name);
    assert(out@ =~= snapshot_line_text(*row, full));
    out
}

/// The measurements the summary line reports, those measured as fractions
/// already written.
pub struct SnapshotSummary<'a> {
    pub cpu: &'a str,
    pub used_memory: u64,
    pub total_memory: u64,
    pub disk_read_rate: &'a str,
    pub disk_write_rate: &'a str,
    pub network_in_rate: &'a str,
    pub network_out_rate: &'a str,
    pub sample_seconds: &'a str,
    pub filter: Option<&'a str>,
}

/// The summary line above the listing: CPU, memory used of the total, disk
/// and network rates, the length of the sample in seconds, and the filter.
pub open spec fn snapshot_summary_text(s: SnapshotSummary<'_>) -> Seq<char> {
    "CPU "@ + s.cpu@ + " | Memory "@ + bytes_text(s.used_memory as nat) + " / "@ + bytes_text(
        s.total_memory as nat,
    ) + " | Disk R "@ + s.disk_read_rate@ + " W "@ + s.disk_write_rate@ + " | Network In "@
        + s.network_in_rate@ + " Out "@ + s.network_out_rate@ + " | sample "@ + s.sample_seconds@
        + "s"@ + filter_suffix_text(
        match s.filter {
            Some(f) => Some(f@),
            None => None,
        },
    )
}

/// The summary line above the listing; see [`snapshot_summary_text`].
pub fn snapshot_summary(s: &SnapshotSummary<'_>) -> (r: String)
    ensures
        r@ == snapshot_summary_text(*s),
{
    let mut out = String::from_str("CPU ");
    out.append(s.cpu);
    out.append(" | Memory ");
    let used = bytes(s.used_memory);
    out.append(used.as_str());
    out.append(" / ");
    let total = bytes(s.total_memory);
    out.append(total.as_str());
    out.append(" | Disk R ");
    out.append(s.disk_read_rate);
    out.append(" W ");
    out.append(s.disk_write_rate);
    out.append(" | Network In ");
    out.append(s.network_in_rate);
    out.append(" Out ");
    out.append(s.network_out_rate);
    out.append(" | sample ");
    out.append(s.sample_seconds);
    out.append("s");
    let suffix = filter_suffix(s.filter);
    out.append(suffix.as_str());
    assert(out@ =~= snapshot_summary_text(*s));
    out
}

} // verus!
