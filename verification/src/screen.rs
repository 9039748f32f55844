//! The texts the screen is made of: padded and centred cells, titles,
//! prompts, the inspector's detail rows, and the sizes of panel sections.
use vstd::prelude::*;

use crate::app::{intent_label, priority_text, selected_pid_in, App, Tab};
use crate::sampler::SelectedProcessDetails;
use crate::binary64::{from_count, nearest, round_away, round_half_away, times_quarters, times_quarters_spec};
use crate::text::{decimal, push_decimal};

verus! {

/// `n` spaces.
pub open spec fn spaces(n: nat) -> Seq<char> {
    Seq::new(n, |i: int| ' ')
}

/// Appends `n` spaces.
pub fn push_spaces(out: &mut String, n: usize)
    ensures
        final(out)@ == old(out)@ + spaces(n as nat),
{
    let mut i: usize = 0;
    while i < n
        invariant
            i <= n,
            out@ == old(out)@ + spaces(i as nat),
        decreases n - i,
    {
        out.push(' ');
        i = i + 1;
        assert(out@ =~= old(out)@ + spaces(i as nat));
    }
}

/// The bytes a text takes in UTF-8, as `str::len` counts them.
pub open spec fn utf8_width(s: Seq<char>) -> nat {
    (vstd::utf8::encode_utf8(s).len() as usize) as nat
}

/// A cell right-aligned in `width` columns, counting the text's UTF-8 bytes;
/// text at least as long is kept whole.
pub open spec fn right_text(value: Seq<char>, width: nat) -> Seq<char> {
    if utf8_width(value) >= width {
        value
    } else {
        spaces((width - utf8_width(value)) as nat) + value
    }
}

/// Right-aligns `value` in `width` columns; see [`right_text`].
pub fn right(value: String, width: usize) -> (r: String)
    ensures
        r@ == right_text(value@, width as nat),
{
    let len = value.as_str().len();
    if len >= width {
        value
    } else {
        let mut out = String::new();
        push_spaces(&mut out, width - len);
        out.append(value.as_str());
        assert(out@ =~= right_text(value@, width as nat));
        out
    }
}

/// `text` centred in `width` columns: spaces on both sides, one more on the
/// right when the room left is odd; text wider than `width` is not cut.
pub open spec fn centered_text(width: nat, text: Seq<char>) -> Seq<char> {
    let text_width: nat = if text.len() < width {
        text.len()
    } else {
        width
    };
    let left: nat = ((width - text_width) as nat) / 2;
    let right_pad: nat = if width > text_width + left {
        (width - (text_width + left)) as nat
    } else {
        0
    };
    spaces(left) + text + spaces(right_pad)
}

/// Centres `text` in `width` columns; see [`centered_text`].
pub fn center_text(width: usize, text: &str) -> (r: String)
    ensures
        r@ == centered_text(width as nat, text@),
{
    let count = text.unicode_len();
    let text_width = if count < width {
        count
    } else {
        width
    };
    let left = (width - text_width) / 2;
    let right_pad = if width - text_width > left {
        width - text_width - left
    } else {
        0
    };
    let mut out = String::new();
    push_spaces(&mut out, left);
    out.append(text);
    push_spaces(&mut out, right_pad);
    assert(out@ =~= centered_text(width as nat, text@));
    out
}

/// The line under a cut-off list of handles.
pub open spec fn overflow_hint_text(extra: nat, pid: nat) -> Seq<char> {
    "+"@ + decimal(extra) + " more — run monitr inspect "@ + decimal(pid)
}

/// The line under a cut-off list of handles: how many more there are and
/// the command that lists them all.
pub fn overflow_hint(extra: usize, pid: u32) -> (r: String)
    ensures
        r@ == overflow_hint_text(extra as nat, pid as nat),
{
    let mut out = String::from_str("+");
    push_decimal(&mut out, extra as u64);
    out.append(" more — run monitr inspect ");
    push_decimal(&mut out, pid as u64);
    assert(out@ =~= overflow_hint_text(extra as nat, pid as nat));
    out
}

/// Appends `x` unless `rows` already holds it.
pub open spec fn push_new(rows: Seq<usize>, x: usize) -> Seq<usize> {
    if rows.contains(x) {
        rows
    } else {
        rows.push(x)
    }
}

/// The row of the guide line at `quarters` quarters of the way down a chart
/// `height` rows high, worked out in binary64 arithmetic: `height - 1` and
/// its product with `quarters / 4` each rounded to the nearest binary64
/// number, then rounded to an integer with halves away from zero, and kept
/// within `usize`.
pub open spec fn guide_row(height: nat, quarters: nat) -> nat {
    let v = round_away(times_quarters_spec(nearest((height - 1) as nat, 1), quarters));
    if v > usize::MAX {
        usize::MAX as nat
    } else {
        v
    }
}

/// The rows of a chart `height` rows high that carry guide lines, for 25%,
/// 50% and 75% of the scale in that order, each row once; none for a chart
/// of one row.
pub open spec fn guide_rows_spec(height: nat) -> Seq<usize> {
    if height <= 1 {
        Seq::empty()
    } else {
        push_new(
            push_new(push_new(Seq::empty(), guide_row(height, 3) as usize), guide_row(height, 2) as usize),
            guide_row(height, 1) as usize,
        )
    }
}

/// Appends `x` to `rows` unless it is there already.
fn push_new_row(rows: &mut Vec<usize>, x: usize)
    ensures
        final(rows)@ == push_new(old(rows)@, x),
{
    let mut i: usize = 0;
    while i < rows.len()
        invariant
            i <= rows.len(),
            rows@ == old(rows)@,
            forall|j: int| 0 <= j < i ==> rows@[j] != x,
        decreases rows.len() - i,
    {
        if rows[i] == x {
            assert(rows@.contains(x));
            return;
        }
        i = i + 1;
    }
    rows.push(x);
}

/// The row of the guide line at `quarters` quarters of the way down a chart
/// of `height` rows; see [`guide_row`].
fn guide_row_at(height: usize, quarters: u64) -> (r: usize)
    requires
        height >= 2,
        1 <= quarters <= 3,
    ensures
        r as nat == guide_row(height as nat, quarters as nat),
{
    let (m, e) = from_count((height - 1) as u64);
    let (qm, qe) = times_quarters(m, e, quarters);
    let v = round_half_away(qm, qe);
    if v > usize::MAX as u128 {
        usize::MAX
    } else {
        v as usize
    }
}

/// The rows of a chart `height` rows high that carry guide lines; see
/// [`guide_rows_spec`].
pub fn guide_rows(height: usize) -> (r: Vec<usize>)
    ensures
        r@ == guide_rows_spec(height as nat),
{
    let mut rows: Vec<usize> = Vec::new();
    if height <= 1 {
        return rows;
    }
    let first = guide_row_at(height, 3);
    let second = guide_row_at(height, 2);
    let third = guide_row_at(height, 1);
    push_new_row(&mut rows, first);
    push_new_row(&mut rows, second);
    push_new_row(&mut rows, third);
    rows
}

/// The rows each list of the open files and sockets panel gets in a panel
/// `inner_height` rows high: half of what the other lines leave, at least 3.
pub open spec fn section_rows_spec(inner_height: nat, has_error: bool) -> nat {
    let overhead: nat = if has_error {
        9
    } else {
        8
    };
    let share: nat = if inner_height > overhead {
        ((inner_height - overhead) as nat) / 2
    } else {
        0
    };
    if share < 3 {
        3
    } else {
        share
    }
}

/// The rows each list of the open files and sockets panel gets; see
/// [`section_rows_spec`].
pub fn section_rows(inner_height: usize, has_error: bool) -> (r: usize)
    ensures
        r as nat == section_rows_spec(inner_height as nat, has_error),
{
    let overhead: usize = if has_error {
        9
    } else {
        8
    };
    let share = if inner_height > overhead {
        (inner_height - overhead) / 2
    } else {
        0
    };
    if share < 3 {
        3
    } else {
        share
    }
}

/// The columns file names get in a panel `popup_width` columns wide: what 18
/// columns of other cells leave, kept within 12..=120.
pub open spec fn name_width_spec(popup_width: nat) -> nat {
    let left: nat = if popup_width > 18 {
        (popup_width - 18) as nat
    } else {
        0
    };
    if left < 12 {
        12
    } else if left > 120 {
        120
    } else {
        left
    }
}

/// The columns file names get; see [`name_width_spec`].
pub fn name_width(popup_width: usize) -> (r: usize)
    ensures
        r as nat == name_width_spec(popup_width as nat),
{
    let left = if popup_width > 18 {
        popup_width - 18
    } else {
        0
    };
    if left < 12 {
        12
    } else if left > 120 {
        120
    } else {
        left
    }
}

/// What a socket line shows after the local address: the remote end, else
/// the state, else `-`.
pub open spec fn socket_peer_text(remote: Option<Seq<char>>, state: Option<Seq<char>>) -> Seq<char> {
    match remote {
        Some(r) => r,
        None => match state {
            Some(s) => s,
            None => "-"@,
        },
    }
}

/// The view of an optional text.
pub open spec fn opt_text(s: Option<String>) -> Option<Seq<char>> {
    match s {
        Some(t) => Some(t@),
        None => None,
    }
}

/// What a socket line shows after the local address; see
/// [`socket_peer_text`].
pub fn socket_peer(socket: &crate::inspect::SocketEntry) -> (r: &str)
    ensures
        r@ == socket_peer_text(opt_text(socket.remote), opt_text(socket.state)),
{
    match &socket.remote {
        Some(remote) => remote.as_str(),
        None => match &socket.state {
            Some(state) => state.as_str(),
            None => "-",
        },
    }
}

/// A count in decimal, or `-` when missing.
pub open spec fn count_or_dash(v: Option<usize>) -> Seq<char> {
    match v {
        Some(n) => decimal(n as nat),
        None => "-"@,
    }
}

/// The open files of a process: `files/limit`, just `files` without a
/// limit, or `-`.
pub open spec fn open_files_text(files: Option<usize>, limit: Option<usize>) -> Seq<char> {
    match files {
        Some(f) => match limit {
            Some(l) => decimal(f as nat) + seq!['/'] + decimal(l as nat),
            None => decimal(f as nat),
        },
        None => "-"@,
    }
}

/// The inspector's rows for the selected-only details, label and value:
/// threads, open files, session and priority.
pub open spec fn detail_rows_spec(details: Option<SelectedProcessDetails>) -> Seq<(Seq<char>, Seq<char>)> {
    match details {
        Some(d) => seq![
            ("Threads"@, count_or_dash(d.thread_count)),
            ("Open files"@, open_files_text(d.open_files, d.open_files_limit)),
            ("Session"@, match d.session_id {
                Some(s) => decimal(s as nat),
                None => "-"@,
            }),
            ("Priority"@, match d.priority {
                Some(p) => priority_text(p),
                None => "-"@,
            }),
        ],
        None => seq![
            ("Threads"@, "-"@),
            ("Open files"@, "-"@),
            ("Session"@, "-"@),
            ("Priority"@, "-"@),
        ],
    }
}

/// The note under the details: why some are missing, if any are.
pub open spec fn detail_note_spec(details: Option<SelectedProcessDetails>) -> Option<Seq<char>> {
    match details {
        Some(d) => if d.thread_count is None || d.open_files is None || d.session_id is None
            || d.priority is None {
            Some("Some process details are hidden by macOS permissions."@)
        } else {
            None
        },
        None => Some("Process details are unavailable or the process exited."@),
    }
}

/// The views of label and value pairs.
pub open spec fn pair_texts(v: Seq<(String, String)>) -> Seq<(Seq<char>, Seq<char>)> {
    v.map_values(|p: (String, String)| (p.0@, p.1@))
}

/// A count in decimal, or `-`.
fn count_text(v: Option<usize>) -> (r: String)
    ensures
        r@ == count_or_dash(v),
{
    match v {
        Some(n) => crate::text::decimal_string(n as u64),
        None => String::from_str("-"),
    }
}

/// The inspector's rows for the selected-only details and the note under
/// them; see [`detail_rows_spec`] and [`detail_note_spec`].
pub fn detail_rows(details: Option<SelectedProcessDetails>) -> (r: (
    Vec<(String, String)>,
    Option<String>,
))
    ensures
        pair_texts(r.0@) == detail_rows_spec(details),
        opt_text(r.1) == detail_note_spec(details),
{
    let mut rows: Vec<(String, String)> = Vec::new();
    match details {
        Some(d) => {
            rows.push((String::from_str("Threads"), count_text(d.thread_count)));
            let files = match d.open_files {
                Some(f) => {
                    let mut s = crate::text::decimal_string(f as u64);
                    if let Some(l) = d.open_files_limit {
                        s.push('/');
                        push_decimal(&mut s, l as u64);
                    }
                    assert(s@ =~= open_files_text(d.open_files, d.open_files_limit));
                    s
                },
                None => String::from_str("-"),
            };
            rows.push((String::from_str("Open files"), files));
            let session = match d.session_id {
                Some(s) => crate::text::decimal_string(s as u64),
                None => String::from_str("-"),
            };
            rows.push((String::from_str("Session"), session));
            let priority = match d.priority {
                Some(p) => {
                    let mut s = String::new();
                    crate::app::push_priority(&mut s, p);
                    assert(s@ =~= priority_text(p));
                    s
                },
                None => String::from_str("-"),
            };
            rows.push((String::from_str("Priority"), priority));
            assert(pair_texts(rows@) =~= detail_rows_spec(details));
            let note = if d.thread_count.is_none() || d.open_files.is_none() || d.session_id.is_none()
                || d.priority.is_none() {
                Some(String::from_str("Some process details are hidden by macOS permissions."))
            } else {
                None
            };
            (rows, note)
        },
        None => {
            rows.push((String::from_str("Threads"), String::from_str("-")));
            rows.push((String::from_str("Open files"), String::from_str("-")));
            rows.push((String::from_str("Session"), String::from_str("-")));
            rows.push((String::from_str("Priority"), String::from_str("-")));
            assert(pair_texts(rows@) =~= detail_rows_spec(details));
            (rows, Some(String::from_str("Process details are unavailable or the process exited.")))
        },
    }
}

} // verus!

verus! {

/// The first part of the process table's title in a view.
pub open spec fn table_base_title(tab: Tab) -> Seq<char> {
    match tab {
        Tab::Disk => "Disk activity by process"@,
        Tab::Network => "Process context | interface totals in inspector"@,
        Tab::Movers => "Top movers since last sample"@,
        _ => crate::app::tab_title(tab),
    }
}

/// The process table's title: what the view shows, then either that an
/// active filter matches nothing, or how many rows are shown and which one
/// is selected.
pub open spec fn table_title_text(m: crate::app::AppModel) -> Seq<char> {
    let count = m.visible.len();
    if count == 0 && m.filter.len() != 0 {
        table_base_title(m.tab) + " | no matches for "@ + crate::format::truncated_middle(
            m.filter,
            24,
        )
    } else {
        table_base_title(m.tab) + " | "@ + decimal(count) + " visible"@ + match m.selected {
            Some(i) => if i < count {
                " | selected "@ + decimal((i + 1) as nat) + "/"@ + decimal(count)
            } else {
                Seq::empty()
            },
            None => Seq::empty(),
        }
    }
}

/// The process table's title; see [`table_title_text`].
pub fn process_table_title(app: &App) -> (r: String)
    ensures
        r@ == table_title_text(app.model()),
{
    let mut out = String::new();
    match app.tab {
        Tab::Disk => out.append("Disk activity by process"),
        Tab::Network => out.append("Process context | interface totals in inspector"),
        Tab::Movers => out.append("Top movers since last sample"),
        _ => out.append(app.tab.title()),
    }
    let count = app.visible_count();
    if count == 0 && app.filter.as_str().unicode_len() != 0 {
        out.append(" | no matches for ");
        let cut = crate::format::truncate_middle(app.filter.as_str(), 24);
        out.append(cut.as_str());
        assert(out@ =~= table_title_text(app.model()));
        return out;
    }
    out.append(" | ");
    push_decimal(&mut out, count as u64);
    out.append(" visible");
    if let Some(position) = app.selected_position() {
        out.append(" | selected ");
        push_decimal(&mut out, position as u64);
        out.append("/");
        push_decimal(&mut out, count as u64);
    }
    assert(out@ =~= table_title_text(app.model()));
    out
}

/// The inspector's title: the selected process, and the system-wide
/// volumes or interfaces it also lists in the Disk and Network views.
pub open spec fn inspector_title_text(m: crate::app::AppModel) -> Seq<char> {
    match selected_pid_in(m) {
        Some(pid) => {
            let base = "Inspector | pid "@ + decimal(pid as nat);
            match m.tab {
                Tab::Disk => base + " + volumes"@,
                Tab::Network => base + " + interfaces"@,
                _ => base,
            }
        },
        None => match m.tab {
            Tab::Disk => "Inspector | volumes"@,
            Tab::Network => "Inspector | interfaces"@,
            _ => "Inspector"@,
        },
    }
}

/// The inspector's title; see [`inspector_title_text`].
pub fn inspector_title(app: &App) -> (r: String)
    ensures
        r@ == inspector_title_text(app.model()),
{
    match app.selected_pid() {
        Some(pid) => {
            let mut out = String::from_str("Inspector | pid ");
            push_decimal(&mut out, pid as u64);
            match app.tab {
                Tab::Disk => out.append(" + volumes"),
                Tab::Network => out.append(" + interfaces"),
                _ => {},
            }
            assert(out@ =~= inspector_title_text(app.model()));
            out
        },
        None => match app.tab {
            Tab::Disk => String::from_str("Inspector | volumes"),
            Tab::Network => String::from_str("Inspector | interfaces"),
            _ => String::from_str("Inspector"),
        },
    }
}

/// The filter as the title bar shows it: with a cursor while it is being
/// typed, `none` when empty.
pub open spec fn filter_label_text(m: crate::app::AppModel) -> Seq<char> {
    if m.filter_mode {
        "filter: "@ + m.filter + "_"@
    } else if m.filter.len() == 0 {
        "filter: none"@
    } else {
        "filter: "@ + m.filter
    }
}

/// The filter as the title bar shows it; see [`filter_label_text`].
pub fn filter_label(app: &App) -> (r: String)
    ensures
        r@ == filter_label_text(app.model()),
{
    if app.filter_mode {
        let mut out = String::from_str("filter: ");
        out.append(app.filter.as_str());
        out.append("_");
        assert(out@ =~= filter_label_text(app.model()));
        out
    } else if app.filter.as_str().unicode_len() == 0 {
        String::from_str("filter: none")
    } else {
        let mut out = String::from_str("filter: ");
        out.append(app.filter.as_str());
        assert(out@ =~= filter_label_text(app.model()));
        out
    }
}

/// The prompt of a pending action: the action and the selected process
/// (`-` if none).
pub open spec fn confirm_prompt_text(m: crate::app::AppModel) -> Option<Seq<char>> {
    match m.confirm {
        Some(intent) => Some(
            "Confirm "@ + intent_label(intent) + " pid "@ + match selected_pid_in(m) {
                Some(pid) => decimal(pid as nat),
                None => "-"@,
            } + ": y/n"@,
        ),
        None => None,
    }
}

/// The prompt of a pending action, if any; see [`confirm_prompt_text`].
pub fn confirm_prompt(app: &App) -> (r: Option<String>)
    ensures
        opt_text(r) == confirm_prompt_text(app.model()),
{
    match app.confirm {
        Some(intent) => {
            let mut out = String::from_str("Confirm ");
            out.append(intent.label());
            out.append(" pid ");
            match app.selected_pid() {
                Some(pid) => push_decimal(&mut out, pid as u64),
                None => out.append("-"),
            }
            out.append(": y/n");
            assert(out@ =~= confirm_prompt_text(app.model()).unwrap());
            Some(out)
        },
        None => None,
    }
}

/// What the inspector says when no process is selected: that the filter
/// matches nothing and how to change it, or just that nothing is selected.
pub open spec fn empty_inspector_text(m: crate::app::AppModel) -> Seq<Seq<char>> {
    if m.visible.len() == 0 && m.filter.len() != 0 {
        seq![
            "No processes match the current filter"@,
            "Press Ctrl-U to clear the filter or / to refine it."@,
        ]
    } else {
        seq!["No process selected"@]
    }
}

/// The views of a list of texts.
pub open spec fn line_texts(v: Seq<&'static str>) -> Seq<Seq<char>> {
    v.map_values(|s: &'static str| s@)
}

/// What the inspector says when no process is selected; see
/// [`empty_inspector_text`].
pub fn empty_inspector_lines(app: &App) -> (r: Vec<&'static str>)
    ensures
        line_texts(r@) == empty_inspector_text(app.model()),
{
    let mut lines: Vec<&'static str> = Vec::new();
    if app.visible_count() == 0 && app.filter.as_str().unicode_len() != 0 {
        lines.push("No processes match the current filter");
        lines.push("Press Ctrl-U to clear the filter or / to refine it.");
    } else {
        lines.push("No process selected");
    }
    assert(line_texts(lines@) =~= empty_inspector_text(app.model()));
    lines
}

} // verus!

verus! {

/// The last `width` values placed at the right end of `width` slots, the
/// slots before them empty: slot `i` holds value `i + n - width` when that
/// is a value.
pub open spec fn aligned_values<T>(values: Seq<T>, width: nat) -> Seq<Option<T>> {
    Seq::new(
        width,
        |i: int|
            if i + values.len() >= width {
                Some(values[i + values.len() - width])
            } else {
                None
            },
    )
}

/// Places the last `width` values at the right end of `width` slots, for a
/// chart that grows from the right; see [`aligned_values`].
pub fn align_chart_values<T: Copy>(values: &[T], width: usize) -> (r: Vec<Option<T>>)
    ensures
        r@ == aligned_values(values@, width as nat),
{
    let n = values.len();
    let mut slots: Vec<Option<T>> = Vec::new();
    let mut i: usize = 0;
    while i < width
        invariant
            i <= width,
            n == values@.len(),
            slots@ == aligned_values(values@, width as nat).subrange(0, i as int),
        decreases width - i,
    {
        if n >= width - i {
            slots.push(Some(values[n - (width - i)]));
        } else {
            slots.push(None);
        }
        i = i + 1;
        assert(slots@ =~= aligned_values(values@, width as nat).subrange(0, i as int));
    }
    assert(slots@ =~= aligned_values(values@, width as nat));
    slots
}

} // verus!
