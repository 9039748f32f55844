//! Which processes own which sockets, read from `lsof -F` field output.
use vstd::prelude::*;

use crate::error::{message, Result};
use crate::inspect::{
    dash_if_empty, no_socket_fields, opt_view, tagged_lines, value_or_dash, with_name,
    with_tcp_info, SocketFields, SocketFieldsView,
};
use crate::text::{
    chars_of, lines, lossy_text, parse_unsigned, parse_unsigned_chars, push_decimal, slice_chars,
    split_lines, string_of, trim, trim_chars, utf8_lossy, views, CommandOutput, decimal,
};

verus! {

/// Options of a port lookup.
#[derive(Debug, Clone, Copy, PartialEq, Eq, Structural)]
pub struct PortOptions {
    pub port: Option<u16>,
    pub json: bool,
    pub all: bool,
}

/// A socket and the process that owns it.
#[derive(Debug, PartialEq, Eq)]
pub struct PortEntry {
    pub pid: u32,
    pub command: String,
    pub user: String,
    pub fd: String,
    pub protocol: String,
    pub local: String,
    pub remote: Option<String>,
    pub state: Option<String>,
}

/// A socket and its owner, as plain values.
pub struct PortView {
    pub pid: u32,
    pub command: Seq<char>,
    pub user: Seq<char>,
    pub fd: Seq<char>,
    pub protocol: Seq<char>,
    pub local: Seq<char>,
    pub remote: Option<Seq<char>>,
    pub state: Option<Seq<char>>,
}

impl PortEntry {
    pub open spec fn view(&self) -> PortView {
        PortView {
            pid: self.pid,
            command: self.command@,
            user: self.user@,
            fd: self.fd@,
            protocol: self.protocol@,
            local: self.local@,
            remote: opt_view(self.remote),
            state: opt_view(self.state),
        }
    }
}

pub open spec fn port_views(v: Seq<PortEntry>) -> Seq<PortView> {
    v.map_values(|e: PortEntry| e.view())
}

/// The `lsof` arguments of a lookup: listening TCP sockets, or all TCP and
/// UDP sockets, on one port or on all.
pub open spec fn lsof_port_args(options: PortOptions) -> Seq<Seq<char>> {
    let base = seq!["-nP"@, "-F"@, "pPcLfnT"@];
    match options.port {
        Some(p) => if options.all {
            base + seq!["-iTCP:"@ + decimal(p as nat), "-iUDP:"@ + decimal(p as nat)]
        } else {
            base + seq!["-iTCP:"@ + decimal(p as nat), "-sTCP:LISTEN"@]
        },
        None => if options.all {
            base + seq!["-iTCP"@, "-iUDP"@]
        } else {
            base + seq!["-iTCP"@, "-sTCP:LISTEN"@]
        },
    }
}

/// `prefix` followed by a port number.
fn with_port(prefix: &str, port: u16) -> (r: String)
    ensures
        r@ == prefix@ + decimal(port as nat),
{
    let mut s = String::from_str(prefix);
    push_decimal(&mut s, port as u64);
    s
}

/// The `lsof` arguments of a lookup, as [`lsof_port_args`] describes.
pub fn lsof_args(options: PortOptions) -> (r: Vec<String>)
    ensures
        views_of_strings(r@) == lsof_port_args(options),
{
    let mut args: Vec<String> = Vec::new();
    args.push(String::from_str("-nP"));
    args.push(String::from_str("-F"));
    args.push(String::from_str("pPcLfnT"));
    match options.port {
        Some(p) => {
            args.push(with_port("-iTCP:", p));
            if options.all {
                args.push(with_port("-iUDP:", p));
            } else {
                args.push(String::from_str("-sTCP:LISTEN"));
            }
        },
        None => {
            args.push(String::from_str("-iTCP"));
            if options.all {
                args.push(String::from_str("-iUDP"));
            } else {
                args.push(String::from_str("-sTCP:LISTEN"));
            }
        },
    }
    assert(views_of_strings(args@) =~= lsof_port_args(options));
    args
}

/// The texts of a sequence of strings.
pub open spec fn views_of_strings(v: Seq<String>) -> Seq<Seq<char>> {
    v.map_values(|s: String| s@)
}

// ---------------------------------------------------------------------------
// The field format
// ---------------------------------------------------------------------------

/// The fields of the process being read.
pub struct ProcessFieldsView {
    pub pid: Option<u32>,
    pub command: Seq<char>,
    pub user: Seq<char>,
}

/// `entries` with the socket being read, when its process has a PID and the
/// socket has a descriptor and a local address.
pub open spec fn flush_port_spec(
    process: ProcessFieldsView,
    socket: SocketFieldsView,
    entries: Seq<PortView>,
) -> Seq<PortView> {
    match process.pid {
        None => entries,
        Some(pid) => if socket.fd.len() == 0 || socket.local.len() == 0 {
            entries
        } else {
            entries.push(
                PortView {
                    pid,
                    command: dash_if_empty(process.command),
                    user: dash_if_empty(process.user),
                    fd: socket.fd,
                    protocol: dash_if_empty(socket.protocol),
                    local: socket.local,
                    remote: socket.remote,
                    state: socket.state,
                },
            )
        },
    }
}

/// The PID of a `p` line: its value when it reads as a `u32`.
pub open spec fn pid_field(value: Seq<char>) -> Option<u32> {
    match parse_unsigned(value, u32::MAX as nat) {
        Some(v) => Some(v as u32),
        None => None,
    }
}

/// One line of `lsof -F pPcLfnT` output read into the state: `p` starts a
/// new process, `c` and `L` set its command and user, `f` starts a new
/// socket, `P`, `n` and `T` set its protocol, addresses and state.
pub open spec fn port_line(
    state: (ProcessFieldsView, SocketFieldsView, Seq<PortView>),
    line: Seq<char>,
) -> (ProcessFieldsView, SocketFieldsView, Seq<PortView>) {
    if line.len() == 0 {
        state
    } else {
        let tag = line[0];
        let value = line.drop_first();
        let (process, socket, entries) = state;
        if tag == 'p' {
            (
                ProcessFieldsView { pid: pid_field(value), command: Seq::empty(), user: Seq::empty() },
                no_socket_fields(),
                flush_port_spec(process, socket, entries),
            )
        } else if tag == 'c' {
            (ProcessFieldsView { command: value, ..process }, socket, entries)
        } else if tag == 'L' {
            (ProcessFieldsView { user: value, ..process }, socket, entries)
        } else if tag == 'f' {
            (
                process,
                SocketFieldsView { fd: value, ..no_socket_fields() },
                flush_port_spec(process, socket, entries),
            )
        } else if tag == 'P' {
            (process, SocketFieldsView { protocol: value, ..socket }, entries)
        } else if tag == 'n' {
            (process, with_name(socket, value), entries)
        } else if tag == 'T' {
            (process, with_tcp_info(socket, value), entries)
        } else {
            state
        }
    }
}

pub open spec fn no_process_fields() -> ProcessFieldsView {
    ProcessFieldsView { pid: None, command: Seq::empty(), user: Seq::empty() }
}

pub open spec fn port_lines(ls: Seq<Seq<char>>) -> (ProcessFieldsView, SocketFieldsView, Seq<PortView>)
    decreases ls.len(),
{
    if ls.len() == 0 {
        (no_process_fields(), no_socket_fields(), Seq::empty())
    } else {
        port_line(port_lines(ls.drop_last()), ls.last())
    }
}

/// The sockets and owners listed in `lsof -F pPcLfnT` output.
pub open spec fn lsof_ports(output: Seq<char>) -> Seq<PortView> {
    let (process, socket, entries) = port_lines(lines(output));
    flush_port_spec(process, socket, entries)
}

struct ProcessFields {
    pid: Option<u32>,
    command: String,
    user: String,
}

impl ProcessFields {
    spec fn view(&self) -> ProcessFieldsView {
        ProcessFieldsView { pid: self.pid, command: self.command@, user: self.user@ }
    }
}

fn flush_socket(process: &ProcessFields, socket: &mut SocketFields, entries: &mut Vec<PortEntry>)
    ensures
        final(socket).view() == no_socket_fields(),
        port_views(final(entries)@) == flush_port_spec(
            process.view(),
            old(socket).view(),
            port_views(old(entries)@),
        ),
{
    match process.pid {
        None => {},
        Some(pid) => {
            if !socket.fd.as_str().is_empty() && !socket.local.as_str().is_empty() {
                let ghost before = entries@;
                let cmd = chars_of(process.command.as_str());
                let user = chars_of(process.user.as_str());
                let proto = chars_of(socket.protocol.as_str());
                entries.push(
                    PortEntry {
                        pid,
                        command: value_or_dash(cmd.as_slice()),
                        user: value_or_dash(user.as_slice()),
                        fd: socket.fd.clone(),
                        protocol: value_or_dash(proto.as_slice()),
                        local: socket.local.clone(),
                        remote: socket.remote.clone(),
                        state: socket.state.clone(),
                    },
                );
                proof {
                    assert(port_views(entries@) =~= flush_port_spec(
                        process.view(),
                        old(socket).view(),
                        port_views(before),
                    ));
                }
            }
        },
    }
    *socket = SocketFields::empty();
}

/// The sockets and owners listed in `lsof -F pPcLfnT` output, as
/// [`lsof_ports`] describes.
pub fn parse_lsof_fields(output: &str) -> (r: Vec<PortEntry>)
    requires
        tagged_lines(output@),
    ensures
        port_views(r@) == lsof_ports(output@),
{
    let v = chars_of(output);
    let ls = split_lines(v.as_slice());
    let mut entries: Vec<PortEntry> = Vec::new();
    let mut process = ProcessFields { pid: None, command: String::new(), user: String::new() };
    let mut socket = SocketFields::empty();
    let mut i: usize = 0;
    while i < ls.len()
        invariant
            i <= ls@.len(),
            views(ls@) == lines(output@),
            (process.view(), socket.view(), port_views(entries@)) == port_lines(
                lines(output@).subrange(0, i as int),
            ),
        decreases ls.len() - i,
    {
        let line = ls[i].as_slice();
        proof {
            assert(line@ == lines(output@)[i as int]);
            assert(lines(output@).subrange(0, i + 1).drop_last() =~= lines(output@).subrange(0, i as int));
        }
        if line.len() > 0 {
            let tag = line[0];
            let value = slice_chars(line, 1, line.len());
            proof {
                assert(value@ =~= line@.drop_first());
            }
            if tag == 'p' {
                flush_socket(&process, &mut socket, &mut entries);
                let pid = match parse_unsigned_chars(value.as_slice(), u32::MAX as u64) {
                    Some(p) => Some(p as u32),
                    None => None,
                };
                process = ProcessFields { pid, command: String::new(), user: String::new() };
            } else if tag == 'c' {
                process.command = string_of(value.as_slice());
            } else if tag == 'L' {
                process.user = string_of(value.as_slice());
            } else if tag == 'f' {
                flush_socket(&process, &mut socket, &mut entries);
                socket.fd = string_of(value.as_slice());
            } else if tag == 'P' {
                socket.protocol = string_of(value.as_slice());
            } else if tag == 'n' {
                socket.set_name(value.as_slice());
            } else if tag == 'T' {
                socket.set_tcp_info(value.as_slice());
            }
        }
        i = i + 1;
    }
    proof {
        assert(lines(output@).subrange(0, ls@.len() as int) =~= lines(output@));
    }
    flush_socket(&process, &mut socket, &mut entries);
    entries
}

/// The message for a failed lookup: `lsof failed: ` and its trimmed error
/// output.
pub open spec fn lookup_failure_text(stderr: Seq<u8>) -> Seq<char> {
    "lsof failed: "@ + trim(utf8_lossy(stderr))
}

/// What a run of `lsof` with [`lsof_args`] gives: no sockets when it found
/// nothing (status 1, no output), the failure when it printed nothing
/// otherwise, else the sockets its output lists.
pub open spec fn lookup_outcome(output: CommandOutput, r: Result<Vec<PortEntry>>) -> bool {
    if !output.success && output.stdout@.len() == 0 {
        if output.code == Some(1i32) {
            r matches Ok(v) && v@.len() == 0
        } else {
            r matches Err(e) && e@ == lookup_failure_text(output.stderr@)
        }
    } else {
        r matches Ok(v) && port_views(v@) == lsof_ports(utf8_lossy(output.stdout@))
    }
}

/// The sockets and owners from a run of `lsof` with [`lsof_args`]; see
/// [`lookup_outcome`].
pub fn lookup_from(output: &CommandOutput) -> (r: Result<Vec<PortEntry>>)
    requires
        tagged_lines(utf8_lossy(output.stdout@)),
    ensures
        lookup_outcome(*output, r),
{
    if !output.success && output.stdout.len() == 0 {
        if output.code == Some(1i32) {
            return Ok(Vec::new());
        }
        let err = lossy_text(output.stderr.as_slice());
        let err = trim_chars(chars_of(err.as_str()).as_slice());
        let mut msg = String::from_str("lsof failed: ");
        msg.append(string_of(err.as_slice()).as_str());
        return Err(message(msg));
    }
    let text = lossy_text(output.stdout.as_slice());
    Ok(parse_lsof_fields(text.as_str()))
}

/// [`lookup_from`] on output that can be read line by line; nothing for
/// output with a line that does not start with an ASCII tag.
pub fn lookup_tagged(output: &CommandOutput) -> (r: Option<Result<Vec<PortEntry>>>)
    ensures
        r is None <==> !tagged_lines(utf8_lossy(output.stdout@)),
        r matches Some(res) ==> lookup_outcome(*output, res),
{
    if crate::inspect::output_is_tagged(output) {
        Some(lookup_from(output))
    } else {
        None
    }
}

// ---------------------------------------------------------------------------
// The text listing
// ---------------------------------------------------------------------------

/// The first line of a listing: which sockets were looked for.
pub open spec fn scope_text(options: PortOptions) -> Seq<char> {
    match options.port {
        Some(port) => if options.all {
            "all sockets on port "@ + decimal(port as nat)
        } else {
            "listening TCP sockets on port "@ + decimal(port as nat)
        },
        None => if options.all {
            "all TCP/UDP sockets"@
        } else {
            "listening TCP sockets"@
        },
    }
}

/// The column headers of a listing.
pub open spec fn listing_header() -> Seq<char> {
    crate::text::pad_start("PID"@, 7) + " "@ + crate::text::pad_end("COMMAND"@, 20) + " "@
        + crate::text::pad_end("USER"@, 13) + " "@ + crate::text::pad_end("FD"@, 5) + " "@
        + crate::text::pad_end("PROTO"@, 5) + " "@ + crate::text::pad_end("LOCAL"@, 26)
        + " REMOTE/STATE"@
}

/// The remote end of a socket, else its state, else `-`.
pub open spec fn peer_text(e: PortView) -> Seq<char> {
    match e.remote {
        Some(r) => r,
        None => match e.state {
            Some(s) => s,
            None => "-"@,
        },
    }
}

/// The first columns of a line: PID, command and user.
pub open spec fn entry_head(e: PortView) -> Seq<char> {
    crate::text::pad_start(decimal(e.pid as nat), 7) + " "@ + crate::text::pad_end(
        crate::format::truncated_middle(e.command, 20),
        20,
    ) + " "@ + crate::text::pad_end(crate::format::truncated_middle(e.user, 13), 13)
}

/// The rest of a line: descriptor, protocol, local address, then the remote
/// end or state, and the newline.
pub open spec fn entry_tail(e: PortView) -> Seq<char> {
    " "@ + crate::text::pad_end(crate::format::truncated_middle(e.fd, 5), 5) + " "@
        + crate::text::pad_end(e.protocol, 5) + " "@ + crate::text::pad_end(
        crate::format::truncated_middle(e.local, 26),
        26,
    ) + " "@ + peer_text(e) + "\n"@
}

/// One line of a listing, newline included: PID, command, user, descriptor,
/// protocol and local address in columns (long texts cut in the middle),
/// then the remote end or state.
pub open spec fn entry_line(e: PortView) -> Seq<char> {
    entry_head(e) + entry_tail(e)
}

/// The lines of all entries, in order.
pub open spec fn entry_lines(v: Seq<PortView>) -> Seq<char>
    decreases v.len(),
{
    if v.len() == 0 {
        Seq::empty()
    } else {
        entry_lines(v.drop_last()) + entry_line(v.last())
    }
}

/// The text listing of a lookup: the scope, then either a line saying
/// nothing was found, or the column headers and one line per socket.
pub open spec fn listing_text(entries: Seq<PortView>, options: PortOptions) -> Seq<char> {
    scope_text(options) + "\n"@ + if entries.len() == 0 {
        "No matching sockets found.\n"@
    } else {
        listing_header() + "\n"@ + entry_lines(entries)
    }
}

/// Appends the first columns of an entry's line.
fn push_entry_head(out: &mut String, e: &PortEntry)
    ensures
        final(out)@ == old(out)@ + entry_head(e.view()),
{
    let pid = crate::text::decimal_string(e.pid as u64);
    crate::text::push_pad_start(out, pid.as_str(), 7);
    out.append(" ");
    let command = crate::format::truncate_middle(e.command.as_str(), 20);
    crate::text::push_pad_end(out, command.as_str(), 20);
    out.append(" ");
    let user = crate::format::truncate_middle(e.user.as_str(), 13);
    crate::text::push_pad_end(out, user.as_str(), 13);
    assert(out@ =~= old(out)@ + entry_head(e.view()));
}

/// Appends the rest of an entry's line.
fn push_entry_tail(out: &mut String, e: &PortEntry)
    ensures
        final(out)@ == old(out)@ + entry_tail(e.view()),
{
    out.append(" ");
    let fd = crate::format::truncate_middle(e.fd.as_str(), 5);
    crate::text::push_pad_end(out, fd.as_str(), 5);
    out.append(" ");
    crate::text::push_pad_end(out, e.protocol.as_str(), 5);
    out.append(" ");
    let local = crate::format::truncate_middle(e.local.as_str(), 26);
    crate::text::push_pad_end(out, local.as_str(), 26);
    out.append(" ");
    let ghost before_peer = out@;
    match &e.remote {
        Some(remote) => out.append(remote.as_str()),
        None => match &e.state {
            Some(state) => out.append(state.as_str()),
            None => out.append("-"),
        },
    }
    assert(out@ =~= before_peer + peer_text(e.view()));
    out.append("\n");
    assert(out@ =~= old(out)@ + entry_tail(e.view()));
}

/// Appends the line of one entry.
fn push_entry_line(out: &mut String, e: &PortEntry)
    ensures
        final(out)@ == old(out)@ + entry_line(e.view()),
{
    push_entry_head(out, e);
    push_entry_tail(out, e);
    assert(out@ =~= old(out)@ + entry_line(e.view()));
}

/// The text listing of a lookup; see [`listing_text`].
pub fn render_text(entries: &Vec<PortEntry>, options: PortOptions) -> (r: String)
    ensures
        r@ == listing_text(port_views(entries@), options),
{
    let mut out = String::new();
    match options.port {
        Some(port) => {
            if options.all {
                out.append("all sockets on port ");
            } else {
                out.append("listening TCP sockets on port ");
            }
            push_decimal(&mut out, port as u64);
        },
        None => {
            if options.all {
                out.append("all TCP/UDP sockets");
            } else {
                out.append("listening TCP sockets");
            }
        },
    }
    out.append("\n");
    assert(out@ =~= scope_text(options) + "\n"@);
    if entries.len() == 0 {
        out.append("No matching sockets found.\n");
        assert(port_views(entries@).len() == 0);
        assert(out@ =~= listing_text(port_views(entries@), options));
        return out;
    }
    crate::text::push_pad_start(&mut out, "PID", 7);
    out.append(" ");
    crate::text::push_pad_end(&mut out, "COMMAND", 20);
    out.append(" ");
    crate::text::push_pad_end(&mut out, "USER", 13);
    out.append(" ");
    crate::text::push_pad_end(&mut out, "FD", 5);
    out.append(" ");
    crate::text::push_pad_end(&mut out, "PROTO", 5);
    out.append(" ");
    crate::text::push_pad_end(&mut out, "LOCAL", 26);
    out.append(" REMOTE/STATE");
    out.append("\n");
    let ghost head = out@;
    assert(head =~= scope_text(options) + "\n"@ + listing_header() + "\n"@);
    let mut i: usize = 0;
    while i < entries.len()
        invariant
            i <= entries.len(),
            out@ == head + entry_lines(port_views(entries@.subrange(0, i as int))),
        decreases entries.len() - i,
    {
        push_entry_line(&mut out, &entries[i]);
        proof {
            let vs = port_views(entries@.subrange(0, i + 1));
            assert(vs.drop_last() =~= port_views(entries@.subrange(0, i as int)));
            assert(vs.last() == entries@[i as int].view());
        }
        i = i + 1;
    }
    assert(entries@.subrange(0, entries.len() as int) =~= entries@);
    assert(out@ =~= listing_text(port_views(entries@), options));
    out
}


/// A socket record read after the lines `before`: a `p` line with a PID,
/// a `c` line, an `L` line with the login, an `f` line and an `n` line with
/// a local address. The entry it gives is the last one of the output, and
/// names the owner by the PID, command and login of its own record, with
/// the descriptor and address of its own socket.
pub proof fn lemma_record_names_its_owner(
    output: Seq<char>,
    before: Seq<Seq<char>>,
    pid: Seq<char>,
    command: Seq<char>,
    login: Seq<char>,
    fd: Seq<char>,
    address: Seq<char>,
)
    requires
        lines(output) == before + seq![
            seq!['p'] + pid,
            seq!['c'] + command,
            seq!['L'] + login,
            seq!['f'] + fd,
            seq!['n'] + address,
        ],
        pid_field(pid) is Some,
        command.len() > 0,
        login.len() > 0,
        fd.len() > 0,
        address.len() > 0,
        crate::text::split_once(address, "->"@) is None,
    ensures
        lsof_ports(output).len() > 0,
        lsof_ports(output).last().pid == pid_field(pid).unwrap(),
        lsof_ports(output).last().command == command,
        lsof_ports(output).last().user == login,
        lsof_ports(output).last().fd == fd,
        lsof_ports(output).last().local == address,
        lsof_ports(output).last().remote is None,
{
    let l0 = seq!['p'] + pid;
    let l1 = seq!['c'] + command;
    let l2 = seq!['L'] + login;
    let l3 = seq!['f'] + fd;
    let l4 = seq!['n'] + address;
    let ls = lines(output);
    let s0 = before;
    let s1 = before + seq![l0];
    let s2 = before + seq![l0, l1];
    let s3 = before + seq![l0, l1, l2];
    let s4 = before + seq![l0, l1, l2, l3];
    assert(ls.drop_last() =~= s4 && ls.last() == l4);
    assert(s4.drop_last() =~= s3 && s4.last() == l3);
    assert(s3.drop_last() =~= s2 && s3.last() == l2);
    assert(s2.drop_last() =~= s1 && s2.last() == l1);
    assert(s1.drop_last() =~= s0 && s1.last() == l0);
    assert(l0[0] == 'p' && l0.drop_first() =~= pid);
    assert(l1[0] == 'c' && l1.drop_first() =~= command);
    assert(l2[0] == 'L' && l2.drop_first() =~= login);
    assert(l3[0] == 'f' && l3.drop_first() =~= fd);
    assert(l4[0] == 'n' && l4.drop_first() =~= address);
    let p1 = port_lines(s1);
    assert(p1.0 == ProcessFieldsView { pid: pid_field(pid), command: Seq::empty(), user: Seq::empty() });
    let p2 = port_lines(s2);
    assert(p2.0 == ProcessFieldsView { pid: pid_field(pid), command, user: Seq::empty() });
    let p3 = port_lines(s3);
    assert(p3.0 == ProcessFieldsView { pid: pid_field(pid), command, user: login });
    let p4 = port_lines(s4);
    assert(p4.0 == p3.0 && p4.1.fd == fd);
    let p5 = port_lines(ls);
    assert(p5.0 == p3.0 && p5.1.fd == fd && p5.1.local == address && p5.1.remote is None);
}

} // verus!
