//! Open files and sockets of one process, read from `lsof -F` field output.
use vstd::prelude::*;

use crate::error::{message, Error, Result};
use crate::text::{
    signed_decimal, push_signed_decimal, lossy_text, trim, trim_chars, utf8_lossy, CommandOutput,
    chars_of, has_prefix, lines, slice_chars, split_lines, split_once, split_once_chars,
    starts_with, string_of, views,
};

verus! {

/// Options of an inspection.
#[derive(Debug, Clone, Copy, PartialEq, Eq, Structural)]
pub struct InspectOptions {
    pub pid: u32,
    pub json: bool,
    pub limit: usize,
}

/// An open file of a process.
#[derive(Debug, PartialEq, Eq)]
pub struct FileEntry {
    pub fd: String,
    pub file_type: String,
    pub device: Option<String>,
    pub name: String,
}

/// A socket of a process.
#[derive(Debug, PartialEq, Eq)]
pub struct SocketEntry {
    pub fd: String,
    pub protocol: String,
    pub local: String,
    pub remote: Option<String>,
    pub state: Option<String>,
}

/// The open files and sockets held by a process.
#[derive(Debug)]
pub struct ProcessHandles {
    pub files: Vec<FileEntry>,
    pub sockets: Vec<SocketEntry>,
}

/// An open file, as plain values.
pub struct FileView {
    pub fd: Seq<char>,
    pub file_type: Seq<char>,
    pub device: Option<Seq<char>>,
    pub name: Seq<char>,
}

/// A socket, as plain values.
pub struct SocketView {
    pub fd: Seq<char>,
    pub protocol: Seq<char>,
    pub local: Seq<char>,
    pub remote: Option<Seq<char>>,
    pub state: Option<Seq<char>>,
}

/// The text of an optional string.
pub open spec fn opt_view(o: Option<String>) -> Option<Seq<char>> {
    match o {
        Some(s) => Some(s@),
        None => None,
    }
}

impl FileEntry {
    pub open spec fn view(&self) -> FileView {
        FileView {
            fd: self.fd@,
            file_type: self.file_type@,
            device: opt_view(self.device),
            name: self.name@,
        }
    }
}

impl SocketEntry {
    pub open spec fn view(&self) -> SocketView {
        SocketView {
            fd: self.fd@,
            protocol: self.protocol@,
            local: self.local@,
            remote: opt_view(self.remote),
            state: opt_view(self.state),
        }
    }
}

pub open spec fn file_views(v: Seq<FileEntry>) -> Seq<FileView> {
    v.map_values(|e: FileEntry| e.view())
}

pub open spec fn socket_views(v: Seq<SocketEntry>) -> Seq<SocketView> {
    v.map_values(|e: SocketEntry| e.view())
}

/// `-` for an empty text, else the text.
pub open spec fn dash_if_empty(s: Seq<char>) -> Seq<char> {
    if s.len() == 0 {
        seq!['-']
    } else {
        s
    }
}

/// A text, or `-` when it is empty.
pub fn value_or_dash(value: &[char]) -> (r: String)
    ensures
        r@ == dash_if_empty(value@),
{
    if value.len() == 0 {
        let mut s = String::new();
        s.push('-');
        s
    } else {
        string_of(value)
    }
}

// ---------------------------------------------------------------------------
// The field format
// ---------------------------------------------------------------------------

/// Every non-empty line starts with an ASCII field tag, so that it can be
/// split after its first byte.
pub open spec fn tagged_lines(text: Seq<char>) -> bool {
    forall|i: int|
        0 <= i < lines(text).len() && #[trigger] lines(text)[i].len() > 0 ==> (lines(text)[i][0] as u32)
            < 128
}

/// Whether every non-empty line of `text` starts with an ASCII tag.
pub fn lines_are_tagged(text: &str) -> (r: bool)
    ensures
        r == tagged_lines(text@),
{
    let v = chars_of(text);
    let ls = split_lines(v.as_slice());
    let mut i: usize = 0;
    while i < ls.len()
        invariant
            i <= ls@.len(),
            views(ls@) == lines(text@),
            forall|j: int|
                0 <= j < i && #[trigger] lines(text@)[j].len() > 0 ==> (lines(text@)[j][0] as u32)
                    < 128,
        decreases ls.len() - i,
    {
        assert(ls@[i as int]@ == lines(text@)[i as int]);
        if ls[i].len() > 0 && ls[i][0] as u32 >= 128 {
            return false;
        }
        i = i + 1;
    }
    true
}

/// The fields of the file being read.
pub struct FileFieldsView {
    pub fd: Seq<char>,
    pub file_type: Seq<char>,
    pub device: Option<Seq<char>>,
    pub name: Seq<char>,
}

pub open spec fn no_file_fields() -> FileFieldsView {
    FileFieldsView { fd: Seq::empty(), file_type: Seq::empty(), device: None, name: Seq::empty() }
}

/// `files` with the file being read, when it has a descriptor and a name.
pub open spec fn flush_file_spec(cur: FileFieldsView, files: Seq<FileView>) -> Seq<FileView> {
    if cur.fd.len() > 0 && cur.name.len() > 0 {
        files.push(
            FileView {
                fd: cur.fd,
                file_type: dash_if_empty(cur.file_type),
                device: cur.device,
                name: cur.name,
            },
        )
    } else {
        files
    }
}

/// One line of `lsof -F ftDn` output read into the state: `f` starts a new
/// file, `t`, `D` and `n` set its type, device and name; other lines are
/// skipped.
pub open spec fn file_line(
    state: (FileFieldsView, Seq<FileView>),
    line: Seq<char>,
) -> (FileFieldsView, Seq<FileView>) {
    if line.len() == 0 {
        state
    } else {
        let tag = line[0];
        let value = line.drop_first();
        let (cur, files) = state;
        if tag == 'f' {
            (FileFieldsView { fd: value, ..no_file_fields() }, flush_file_spec(cur, files))
        } else if tag == 't' {
            (FileFieldsView { file_type: value, ..cur }, files)
        } else if tag == 'D' {
            (FileFieldsView { device: Some(value), ..cur }, files)
        } else if tag == 'n' {
            (FileFieldsView { name: value, ..cur }, files)
        } else {
            state
        }
    }
}

/// The state after reading the given lines.
pub open spec fn file_lines(ls: Seq<Seq<char>>) -> (FileFieldsView, Seq<FileView>)
    decreases ls.len(),
{
    if ls.len() == 0 {
        (no_file_fields(), Seq::empty())
    } else {
        file_line(file_lines(ls.drop_last()), ls.last())
    }
}

/// The open files listed in `lsof -F ftDn` output: each `f` line with a
/// following `n` line gives one, with type `-` when none is listed.
pub open spec fn lsof_files(output: Seq<char>) -> Seq<FileView> {
    let (cur, files) = file_lines(lines(output));
    flush_file_spec(cur, files)
}

/// The fields of the socket being read.
pub struct SocketFieldsView {
    pub fd: Seq<char>,
    pub protocol: Seq<char>,
    pub local: Seq<char>,
    pub remote: Option<Seq<char>>,
    pub state: Option<Seq<char>>,
}

pub open spec fn no_socket_fields() -> SocketFieldsView {
    SocketFieldsView {
        fd: Seq::empty(),
        protocol: Seq::empty(),
        local: Seq::empty(),
        remote: None,
        state: None,
    }
}

/// `sockets` with the socket being read, when it has a descriptor and a local
/// address.
pub open spec fn flush_socket_spec(cur: SocketFieldsView, sockets: Seq<SocketView>) -> Seq<SocketView> {
    if cur.fd.len() > 0 && cur.local.len() > 0 {
        sockets.push(
            SocketView {
                fd: cur.fd,
                protocol: dash_if_empty(cur.protocol),
                local: cur.local,
                remote: cur.remote,
                state: cur.state,
            },
        )
    } else {
        sockets
    }
}

/// The socket fields after an `n` (name) line: `local->remote`, or a local
/// address alone.
pub open spec fn with_name(cur: SocketFieldsView, value: Seq<char>) -> SocketFieldsView {
    match split_once(value, "->"@) {
        Some((local, remote)) => SocketFieldsView { local, remote: Some(remote), ..cur },
        None => SocketFieldsView { local: value, remote: None, ..cur },
    }
}

/// The socket fields after a `T` line: `ST=state` sets the state; other
/// TCP details are skipped.
pub open spec fn with_tcp_info(cur: SocketFieldsView, value: Seq<char>) -> SocketFieldsView {
    if has_prefix(value, "ST="@) {
        SocketFieldsView { state: Some(value.subrange(3, value.len() as int)), ..cur }
    } else {
        cur
    }
}

/// One line of `lsof -F fPnT` output read into the state.
pub open spec fn socket_line(
    state: (SocketFieldsView, Seq<SocketView>),
    line: Seq<char>,
) -> (SocketFieldsView, Seq<SocketView>) {
    if line.len() == 0 {
        state
    } else {
        let tag = line[0];
        let value = line.drop_first();
        let (cur, sockets) = state;
        if tag == 'f' {
            (SocketFieldsView { fd: value, ..no_socket_fields() }, flush_socket_spec(cur, sockets))
        } else if tag == 'P' {
            (SocketFieldsView { protocol: value, ..cur }, sockets)
        } else if tag == 'n' {
            (with_name(cur, value), sockets)
        } else if tag == 'T' {
            (with_tcp_info(cur, value), sockets)
        } else {
            state
        }
    }
}

pub open spec fn socket_lines(ls: Seq<Seq<char>>) -> (SocketFieldsView, Seq<SocketView>)
    decreases ls.len(),
{
    if ls.len() == 0 {
        (no_socket_fields(), Seq::empty())
    } else {
        socket_line(socket_lines(ls.drop_last()), ls.last())
    }
}

/// The sockets listed in `lsof -F fPnT` output: each `f` line with a
/// following `n` line gives one.
pub open spec fn lsof_sockets(output: Seq<char>) -> Seq<SocketView> {
    let (cur, sockets) = socket_lines(lines(output));
    flush_socket_spec(cur, sockets)
}

// ---------------------------------------------------------------------------
// Parsing
// ---------------------------------------------------------------------------

struct FileFields {
    fd: String,
    file_type: String,
    device: Option<String>,
    name: String,
}

impl FileFields {
    spec fn view(&self) -> FileFieldsView {
        FileFieldsView {
            fd: self.fd@,
            file_type: self.file_type@,
            device: opt_view(self.device),
            name: self.name@,
        }
    }

    fn empty() -> (r: FileFields)
        ensures
            r.view() == no_file_fields(),
    {
        FileFields { fd: String::new(), file_type: String::new(), device: None, name: String::new() }
    }
}

/// Adds the file being read to `files` when it is complete, and starts over.
fn flush_file(current: &mut FileFields, files: &mut Vec<FileEntry>)
    ensures
        final(current).view() == no_file_fields(),
        file_views(final(files)@) == flush_file_spec(old(current).view(), file_views(old(files)@)),
{
    if !current.fd.as_str().is_empty() && !current.name.as_str().is_empty() {
        let ghost before = files@;
        let ft = chars_of(current.file_type.as_str());
        files.push(
            FileEntry {
                fd: current.fd.clone(),
                file_type: value_or_dash(ft.as_slice()),
                device: current.device.clone(),
                name: current.name.clone(),
            },
        );
        proof {
            assert(file_views(files@) =~= flush_file_spec(old(current).view(), file_views(before)));
        }
    } else {
        proof {
            assert(old(current).fd@.len() == 0 || old(current).name@.len() == 0);
        }
    }
    *current = FileFields::empty();
}

/// The open files listed in `lsof -F ftDn` output, as [`lsof_files`]
/// describes.
pub fn parse_lsof_files(output: &str) -> (r: Vec<FileEntry>)
    requires
        tagged_lines(output@),
    ensures
        file_views(r@) == lsof_files(output@),
{
    let v = chars_of(output);
    let ls = split_lines(v.as_slice());
    let mut files: Vec<FileEntry> = Vec::new();
    let mut current = FileFields::empty();
    let mut i: usize = 0;
    while i < ls.len()
        invariant
            i <= ls@.len(),
            views(ls@) == lines(output@),
            tagged_lines(output@),
            (current.view(), file_views(files@)) == file_lines(lines(output@).subrange(0, i as int)),
        decreases ls.len() - i,
    {
        let line = ls[i].as_slice();
        proof {
            assert(line@ == lines(output@)[i as int]);
            assert(lines(output@).subrange(0, i + 1).drop_last() =~= lines(output@).subrange(0, i as int));
        }
        if line.len() > 0 {
            let tag = line[0];
            let value = slice_chars(line, 1, line.len());
            proof {
                assert(value@ =~= line@.drop_first());
            }
            if tag == 'f' {
                flush_file(&mut current, &mut files);
                current.fd = string_of(value.as_slice());
            } else if tag == 't' {
                current.file_type = string_of(value.as_slice());
            } else if tag == 'D' {
                current.device = Some(string_of(value.as_slice()));
            } else if tag == 'n' {
                current.name = string_of(value.as_slice());
            }
        }
        i = i + 1;
    }
    proof {
        assert(lines(output@).subrange(0, ls@.len() as int) =~= lines(output@));
    }
    flush_file(&mut current, &mut files);
    files
}

pub(crate) struct SocketFields {
    pub(crate) fd: String,
    pub(crate) protocol: String,
    pub(crate) local: String,
    pub(crate) remote: Option<String>,
    pub(crate) state: Option<String>,
}

impl SocketFields {
    pub(crate) open spec fn view(&self) -> SocketFieldsView {
        SocketFieldsView {
            fd: self.fd@,
            protocol: self.protocol@,
            local: self.local@,
            remote: opt_view(self.remote),
            state: opt_view(self.state),
        }
    }

    pub(crate) fn empty() -> (r: SocketFields)
        ensures
            r.view() == no_socket_fields(),
    {
        SocketFields {
            fd: String::new(),
            protocol: String::new(),
            local: String::new(),
            remote: None,
            state: None,
        }
    }

    /// Reads an `n` line.
    pub(crate) fn set_name(&mut self, value: &[char])
        ensures
            final(self).view() == with_name(old(self).view(), value@),
    {
        let arrow = chars_of("->");
        match split_once_chars(value, arrow.as_slice()) {
            Some((local, remote)) => {
                self.local = string_of(local.as_slice());
                self.remote = Some(string_of(remote.as_slice()));
            },
            None => {
                self.local = string_of(value);
                self.remote = None;
            },
        }
    }

    /// Reads a `T` line.
    pub(crate) fn set_tcp_info(&mut self, value: &[char])
        ensures
            final(self).view() == with_tcp_info(old(self).view(), value@),
    {
        let p = chars_of("ST=");
        proof {
            reveal_strlit("ST=");
        }
        if starts_with(value, p.as_slice()) {
            self.state = Some(string_of(slice_chars(value, 3, value.len()).as_slice()));
        }
    }
}

/// Adds the socket being read to `sockets` when it is complete, and starts
/// over.
fn flush_socket(current: &mut SocketFields, sockets: &mut Vec<SocketEntry>)
    ensures
        final(current).view() == no_socket_fields(),
        socket_views(final(sockets)@) == flush_socket_spec(
            old(current).view(),
            socket_views(old(sockets)@),
        ),
{
    if !current.fd.as_str().is_empty() && !current.local.as_str().is_empty() {
        let ghost before = sockets@;
        let proto = chars_of(current.protocol.as_str());
        sockets.push(
            SocketEntry {
                fd: current.fd.clone(),
                protocol: value_or_dash(proto.as_slice()),
                local: current.local.clone(),
                remote: current.remote.clone(),
                state: current.state.clone(),
            },
        );
        proof {
            assert(socket_views(sockets@) =~= flush_socket_spec(
                old(current).view(),
                socket_views(before),
            ));
        }
    } else {
        proof {
            assert(old(current).fd@.len() == 0 || old(current).local@.len() == 0);
        }
    }
    *current = SocketFields::empty();
}

/// The sockets listed in `lsof -F fPnT` output, as [`lsof_sockets`]
/// describes.
pub fn parse_lsof_sockets(output: &str) -> (r: Vec<SocketEntry>)
    requires
        tagged_lines(output@),
    ensures
        socket_views(r@) == lsof_sockets(output@),
{
    let v = chars_of(output);
    let ls = split_lines(v.as_slice());
    let mut sockets: Vec<SocketEntry> = Vec::new();
    let mut current = SocketFields::empty();
    let mut i: usize = 0;
    while i < ls.len()
        invariant
            i <= ls@.len(),
            views(ls@) == lines(output@),
            tagged_lines(output@),
            (current.view(), socket_views(sockets@)) == socket_lines(
                lines(output@).subrange(0, i as int),
            ),
        decreases ls.len() - i,
    {
        let line = ls[i].as_slice();
        proof {
            assert(line@ == lines(output@)[i as int]);
            assert(lines(output@).subrange(0, i + 1).drop_last() =~= lines(output@).subrange(0, i as int));
        }
        if line.len() > 0 {
            let tag = line[0];
            let value = slice_chars(line, 1, line.len());
            proof {
                assert(value@ =~= line@.drop_first());
            }
            if tag == 'f' {
                flush_socket(&mut current, &mut sockets);
                current.fd = string_of(value.as_slice());
            } else if tag == 'P' {
                current.protocol = string_of(value.as_slice());
            } else if tag == 'n' {
                current.set_name(value.as_slice());
            } else if tag == 'T' {
                current.set_tcp_info(value.as_slice());
            }
        }
        i = i + 1;
    }
    proof {
        assert(lines(output@).subrange(0, ls@.len() as int) =~= lines(output@));
    }
    flush_socket(&mut current, &mut sockets);
    sockets
}

// ---------------------------------------------------------------------------
// Running lsof
// ---------------------------------------------------------------------------

/// The message for a failed `lsof` run: its trimmed error output, or its
/// exit status (`signal` when it has none) when that is empty.
pub open spec fn lsof_failure_text(kind: Seq<char>, code: Option<i32>, stderr: Seq<u8>) -> Seq<char> {
    let err = trim(utf8_lossy(stderr));
    if err.len() == 0 {
        "lsof "@ + kind + " failed with status "@ + match code {
            Some(c) => signed_decimal(c as int),
            None => "signal"@,
        }
    } else {
        "lsof "@ + kind + " failed: "@ + err
    }
}

/// The message for a failed `lsof` run, as [`lsof_failure_text`] describes.
pub fn lsof_failure_message(kind: &str, output: &CommandOutput) -> (r: String)
    ensures
        r@ == lsof_failure_text(kind@, output.code, output.stderr@),
{
    let err = lossy_text(output.stderr.as_slice());
    let err = trim_chars(chars_of(err.as_str()).as_slice());
    let mut out = String::from_str("lsof ");
    out.append(kind);
    if err.len() == 0 {
        out.append(" failed with status ");
        match output.code {
            Some(c) => push_signed_decimal(&mut out, c as i64),
            None => out.append("signal"),
        }
    } else {
        out.append(" failed: ");
        out.append(string_of(err.as_slice()).as_str());
    }
    out
}

/// `lsof` found nothing: it exits with status 1 and prints nothing then.
pub open spec fn lsof_found_nothing(output: CommandOutput) -> bool {
    !output.success && output.stdout@.len() == 0 && output.code == Some(1i32)
}

/// `lsof` failed: it exited unsuccessfully, printed nothing, and not with
/// status 1.
pub open spec fn lsof_failed(output: CommandOutput) -> bool {
    !output.success && output.stdout@.len() == 0 && output.code != Some(1i32)
}

/// The error of a failed `lsof` run, named by what it listed; nothing for
/// a run that did not fail. A caller that runs `lsof` twice stops here
/// after a first run that failed.
pub fn lsof_failure(kind: &str, output: &CommandOutput) -> (r: Option<crate::error::Error>)
    ensures
        r is Some <==> lsof_failed(*output),
        r matches Some(e) ==> e@ == lsof_failure_text(kind@, output.code, output.stderr@),
{
    if !output.success && output.stdout.len() == 0 && output.code != Some(1i32) {
        Some(message(lsof_failure_message(kind, output)))
    } else {
        None
    }
}

/// The open files from a run of `lsof -nP -p PID -F ftDn`.
fn lsof_files_from(output: &CommandOutput) -> (r: Result<Vec<FileEntry>>)
    requires
        tagged_lines(utf8_lossy(output.stdout@)),
    ensures
        lsof_found_nothing(*output) ==> (r matches Ok(v) && v@.len() == 0),
        lsof_failed(*output) ==> (r matches Err(e) && e@ == lsof_failure_text(
            "files"@,
            output.code,
            output.stderr@,
        )),
        !lsof_found_nothing(*output) && !lsof_failed(*output) ==> (r matches Ok(v) && file_views(v@)
            == lsof_files(utf8_lossy(output.stdout@))),
{
    if !output.success && output.stdout.len() == 0 {
        if output.code == Some(1i32) {
            return Ok(Vec::new());
        }
        return Err(message(lsof_failure_message("files", output)));
    }
    let text = lossy_text(output.stdout.as_slice());
    Ok(parse_lsof_files(text.as_str()))
}

/// The sockets from a run of `lsof -nP -a -p PID -i -F fPnT`.
fn lsof_sockets_from(output: &CommandOutput) -> (r: Result<Vec<SocketEntry>>)
    requires
        tagged_lines(utf8_lossy(output.stdout@)),
    ensures
        lsof_found_nothing(*output) ==> (r matches Ok(v) && v@.len() == 0),
        lsof_failed(*output) ==> (r matches Err(e) && e@ == lsof_failure_text(
            "sockets"@,
            output.code,
            output.stderr@,
        )),
        !lsof_found_nothing(*output) && !lsof_failed(*output) ==> (r matches Ok(v) && socket_views(
            v@,
        ) == lsof_sockets(utf8_lossy(output.stdout@))),
{
    if !output.success && output.stdout.len() == 0 {
        if output.code == Some(1i32) {
            return Ok(Vec::new());
        }
        return Err(message(lsof_failure_message("sockets", output)));
    }
    let text = lossy_text(output.stdout.as_slice());
    Ok(parse_lsof_sockets(text.as_str()))
}

/// What the two `lsof` runs of a process give: the failure of the first run
/// that failed (files first); otherwise the files and sockets they list, none
/// for a run that found nothing.
pub open spec fn handles_outcome(
    files: CommandOutput,
    sockets: CommandOutput,
    r: Result<ProcessHandles>,
) -> bool {
    if lsof_failed(files) {
        r matches Err(e) && e@ == lsof_failure_text("files"@, files.code, files.stderr@)
    } else if lsof_failed(sockets) {
        r matches Err(e) && e@ == lsof_failure_text("sockets"@, sockets.code, sockets.stderr@)
    } else {
        r matches Ok(h) && (if lsof_found_nothing(files) {
            h.files@.len() == 0
        } else {
            file_views(h.files@) == lsof_files(utf8_lossy(files.stdout@))
        }) && (if lsof_found_nothing(sockets) {
            h.sockets@.len() == 0
        } else {
            socket_views(h.sockets@) == lsof_sockets(utf8_lossy(sockets.stdout@))
        })
    }
}

/// The open files and sockets of a process from the two `lsof` runs; see
/// [`handles_outcome`].
pub fn collect_handles(files: &CommandOutput, sockets: &CommandOutput) -> (r: Result<ProcessHandles>)
    requires
        tagged_lines(utf8_lossy(files.stdout@)),
        tagged_lines(utf8_lossy(sockets.stdout@)),
    ensures
        handles_outcome(*files, *sockets, r),
{
    let files_out = files;
    let files = match lsof_files_from(files_out) {
        Ok(v) => v,
        Err(e) => return Err(e),
    };
    let sockets = match lsof_sockets_from(sockets) {
        Ok(v) => v,
        Err(e) => return Err(e),
    };
    Ok(ProcessHandles { files, sockets })
}

/// Whether the output of a run can be read line by line: every line starts
/// with an ASCII field tag.
pub fn output_is_tagged(output: &CommandOutput) -> (r: bool)
    ensures
        r == tagged_lines(utf8_lossy(output.stdout@)),
{
    let text = lossy_text(output.stdout.as_slice());
    lines_are_tagged(text.as_str())
}

/// [`collect_handles`] on outputs that can be read line by line; nothing
/// for output with a line that does not start with an ASCII tag.
pub fn collect_tagged_handles(files: &CommandOutput, sockets: &CommandOutput) -> (r: Option<
    Result<ProcessHandles>,
>)
    ensures
        r is None <==> !(tagged_lines(utf8_lossy(files.stdout@)) && tagged_lines(
            utf8_lossy(sockets.stdout@),
        )),
        r matches Some(res) ==> handles_outcome(*files, *sockets, res),
{
    if output_is_tagged(files) && output_is_tagged(sockets) {
        Some(collect_handles(files, sockets))
    } else {
        None
    }
}

// ---------------------------------------------------------------------------
// The text report
// ---------------------------------------------------------------------------

/// The first line of a report: name, PID, user, run state and priority
/// (`-` when unknown).
pub open spec fn report_title_text(
    name: Seq<char>,
    pid: u32,
    user: Seq<char>,
    status: Seq<char>,
    priority: Option<i32>,
) -> Seq<char> {
    name + " pid "@ + crate::text::decimal(pid as nat) + " | user "@ + user + " | status "@
        + status + " | priority "@ + match priority {
        Some(p) => crate::app::priority_text(p),
        None => "-"@,
    }
}

/// The first line of a report; see [`report_title_text`].
pub fn report_title(name: &str, pid: u32, user: &str, status: &str, priority: Option<i32>) -> (r:
    String)
    ensures
        r@ == report_title_text(name@, pid, user@, status@, priority),
{
    let mut out = String::new();
    out.append(name);
    out.append(" pid ");
    crate::text::push_decimal(&mut out, pid as u64);
    out.append(" | user ");
    out.append(user);
    out.append(" | status ");
    out.append(status);
    out.append(" | priority ");
    match priority {
        Some(p) => crate::app::push_priority(&mut out, p),
        None => out.append("-"),
    }
    assert(out@ =~= report_title_text(name@, pid, user@, status@, priority));
    out
}

/// The remote end of a socket, else its state, else `-`.
pub open spec fn socket_peer_view(s: SocketView) -> Seq<char> {
    match s.remote {
        Some(r) => r,
        None => match s.state {
            Some(st) => st,
            None => "-"@,
        },
    }
}

/// A socket's line in a report: descriptor, protocol and local address
/// (cut to 32 characters) in columns, then the remote end or state.
pub open spec fn socket_report_line(s: SocketView) -> Seq<char> {
    "  "@ + crate::text::pad_end(s.fd, 5) + " "@ + crate::text::pad_end(s.protocol, 5) + " "@
        + crate::text::pad_end(crate::format::truncated_middle(s.local, 32), 32) + " "@
        + socket_peer_view(s) + "\n"@
}

/// A file's line in a report: descriptor and type in columns, then the name
/// cut to 88 characters.
pub open spec fn file_report_line(f: FileView) -> Seq<char> {
    "  "@ + crate::text::pad_end(f.fd, 5) + " "@ + crate::text::pad_end(f.file_type, 5) + " "@
        + crate::format::truncated_middle(f.name, 88) + "\n"@
}

/// The lines of the first sockets.
pub open spec fn socket_report_lines(v: Seq<SocketView>) -> Seq<char>
    decreases v.len(),
{
    if v.len() == 0 {
        Seq::empty()
    } else {
        socket_report_lines(v.drop_last()) + socket_report_line(v.last())
    }
}

/// The lines of the first files.
pub open spec fn file_report_lines(v: Seq<FileView>) -> Seq<char>
    decreases v.len(),
{
    if v.len() == 0 {
        Seq::empty()
    } else {
        file_report_lines(v.drop_last()) + file_report_line(v.last())
    }
}

/// The first `limit` items.
pub open spec fn first_n<T>(v: Seq<T>, limit: nat) -> Seq<T> {
    if limit >= v.len() {
        v
    } else {
        v.subrange(0, limit as int)
    }
}

/// The handles part of a report: a blank line, the sockets, a blank line,
/// the open files; at most `limit` of each, or a note that none are visible.
pub open spec fn handles_report_text(
    files: Seq<FileView>,
    sockets: Seq<SocketView>,
    limit: nat,
) -> Seq<char> {
    "\nSockets\n"@ + (if sockets.len() == 0 {
        "  none visible\n"@
    } else {
        socket_report_lines(first_n(sockets, limit))
    }) + "\nOpen files\n"@ + if files.len() == 0 {
        "  none visible\n"@
    } else {
        file_report_lines(first_n(files, limit))
    }
}

/// Appends a socket's line.
fn push_socket_report_line(out: &mut String, s: &SocketEntry)
    ensures
        final(out)@ == old(out)@ + socket_report_line(s.view()),
{
    out.append("  ");
    crate::text::push_pad_end(out, s.fd.as_str(), 5);
    out.append(" ");
    crate::text::push_pad_end(out, s.protocol.as_str(), 5);
    out.append(" ");
    let local = crate::format::truncate_middle(s.local.as_str(), 32);
    crate::text::push_pad_end(out, local.as_str(), 32);
    out.append(" ");
    let ghost before_peer = out@;
    match &s.remote {
        Some(remote) => out.append(remote.as_str()),
        None => match &s.state {
            Some(state) => out.append(state.as_str()),
            None => out.append("-"),
        },
    }
    assert(out@ =~= before_peer + socket_peer_view(s.view()));
    out.append("\n");
    assert(out@ =~= old(out)@ + socket_report_line(s.view()));
}

/// Appends a file's line.
fn push_file_line(out: &mut String, f: &FileEntry)
    ensures
        final(out)@ == old(out)@ + file_report_line(f.view()),
{
    out.append("  ");
    crate::text::push_pad_end(out, f.fd.as_str(), 5);
    out.append(" ");
    crate::text::push_pad_end(out, f.file_type.as_str(), 5);
    out.append(" ");
    let name = crate::format::truncate_middle(f.name.as_str(), 88);
    out.append(name.as_str());
    out.append("\n");
    assert(out@ =~= old(out)@ + file_report_line(f.view()));
}

/// Appends the lines of the first `limit` sockets.
fn push_socket_report_lines(out: &mut String, sockets: &Vec<SocketEntry>, limit: usize)
    ensures
        final(out)@ == old(out)@ + socket_report_lines(first_n(socket_views(sockets@), limit as nat)),
{
    let n = if limit < sockets.len() {
        limit
    } else {
        sockets.len()
    };
    let mut i: usize = 0;
    while i < n
        invariant
            i <= n <= sockets.len(),
            n as nat == if limit as nat >= sockets@.len() { sockets@.len() } else { limit as nat },
            out@ == old(out)@ + socket_report_lines(socket_views(sockets@.subrange(0, i as int))),
        decreases n - i,
    {
        push_socket_report_line(out, &sockets[i]);
        proof {
            let vs = socket_views(sockets@.subrange(0, i + 1));
            assert(vs.drop_last() =~= socket_views(sockets@.subrange(0, i as int)));
            assert(vs.last() == sockets@[i as int].view());
        }
        i = i + 1;
    }
    assert(socket_views(sockets@.subrange(0, n as int)) =~= first_n(
        socket_views(sockets@),
        limit as nat,
    ));
}

/// Appends the lines of the first `limit` files.
fn push_file_lines(out: &mut String, files: &Vec<FileEntry>, limit: usize)
    ensures
        final(out)@ == old(out)@ + file_report_lines(first_n(file_views(files@), limit as nat)),
{
    let n = if limit < files.len() {
        limit
    } else {
        files.len()
    };
    let mut i: usize = 0;
    while i < n
        invariant
            i <= n <= files.len(),
            n as nat == if limit as nat >= files@.len() { files@.len() } else { limit as nat },
            out@ == old(out)@ + file_report_lines(file_views(files@.subrange(0, i as int))),
        decreases n - i,
    {
        push_file_line(out, &files[i]);
        proof {
            let vs = file_views(files@.subrange(0, i + 1));
            assert(vs.drop_last() =~= file_views(files@.subrange(0, i as int)));
            assert(vs.last() == files@[i as int].view());
        }
        i = i + 1;
    }
    assert(file_views(files@.subrange(0, n as int)) =~= first_n(file_views(files@), limit as nat));
}

/// The handles part of a report; see [`handles_report_text`].
pub fn render_handles_report(files: &Vec<FileEntry>, sockets: &Vec<SocketEntry>, limit: usize) -> (r:
    String)
    ensures
        r@ == handles_report_text(file_views(files@), socket_views(sockets@), limit as nat),
{
    let mut out = String::new();
    out.append("\nSockets\n");
    if sockets.len() == 0 {
        out.append("  none visible\n");
    } else {
        push_socket_report_lines(&mut out, sockets, limit);
    }
    let ghost middle = out@;
    out.append("\nOpen files\n");
    if files.len() == 0 {
        out.append("  none visible\n");
    } else {
        push_file_lines(&mut out, files, limit);
    }
    assert(out@ =~= handles_report_text(file_views(files@), socket_views(sockets@), limit as nat));
    out
}

} // verus!
