//! The columns of the process table: their titles, the sort key behind each
//! header, their widths, and where a click lands.
use vstd::prelude::*;

use crate::app::{SortKey, Tab};

verus! {

/// How wide a column is laid out: exactly `n` cells, or at least `n` cells
/// and a share of the room left over.
#[derive(Debug, Clone, Copy, PartialEq, Eq, Structural)]
pub enum ColumnWidth {
    Length(u16),
    Min(u16),
}

/// The number of columns in every view.
pub const COLUMN_COUNT: usize = 7;

/// The title of column `i` of a view.
pub open spec fn column_title_text(tab: Tab, i: int) -> Seq<char> {
    if i == 0 {
        "PID"@
    } else if i == 1 {
        "Process"@
    } else if i == 2 {
        "User"@
    } else {
        match tab {
            Tab::Cpu => if i == 3 {
                "% CPU"@
            } else if i == 4 {
                "Memory"@
            } else if i == 5 {
                "Time"@
            } else {
                "Status"@
            },
            Tab::Memory => if i == 3 {
                "Memory"@
            } else if i == 4 {
                "% Mem"@
            } else if i == 5 {
                "Virtual"@
            } else {
                "Status"@
            },
            Tab::Energy => if i == 3 {
                "Impact"@
            } else if i == 4 {
                "% CPU"@
            } else if i == 5 {
                "Disk/s"@
            } else {
                "Status"@
            },
            Tab::Disk => if i == 3 {
                "Read/s"@
            } else if i == 4 {
                "Write/s"@
            } else if i == 5 {
                "Read"@
            } else {
                "Written"@
            },
            Tab::Network => if i == 3 {
                "% CPU"@
            } else if i == 4 {
                "Memory"@
            } else if i == 5 {
                "Disk/s"@
            } else {
                "Status"@
            },
            Tab::Movers => if i == 3 {
                "CPU +/-"@
            } else if i == 4 {
                "Mem +/-"@
            } else if i == 5 {
                "Disk +/-"@
            } else {
                "State"@
            },
        }
    }
}

/// The sort key behind the header of column `i` of a view, if it sorts.
pub open spec fn column_key(tab: Tab, i: int) -> Option<SortKey> {
    if i == 0 {
        Some(SortKey::Pid)
    } else if i == 1 {
        Some(SortKey::Name)
    } else if i == 2 {
        Some(SortKey::User)
    } else if i == 3 {
        Some(
            match tab {
                Tab::Cpu => SortKey::Cpu,
                Tab::Memory => SortKey::Memory,
                Tab::Energy => SortKey::Energy,
                Tab::Disk => SortKey::DiskRead,
                Tab::Network => SortKey::Cpu,
                Tab::Movers => SortKey::Trend,
            },
        )
    } else if i == 4 {
        match tab {
            Tab::Cpu => Some(SortKey::Memory),
            Tab::Energy => Some(SortKey::Cpu),
            Tab::Disk => Some(SortKey::DiskWrite),
            Tab::Network => Some(SortKey::Memory),
            _ => None,
        }
    } else if i == 5 {
        match tab {
            Tab::Cpu => Some(SortKey::Runtime),
            _ => None,
        }
    } else {
        None
    }
}

/// The width of column `i` of a view.
pub open spec fn column_width_of(tab: Tab, i: int) -> ColumnWidth {
    if i == 0 {
        ColumnWidth::Length(7)
    } else if i == 1 {
        ColumnWidth::Min(22)
    } else if i == 2 {
        ColumnWidth::Length(13)
    } else if i == 3 {
        match tab {
            Tab::Memory | Tab::Disk => ColumnWidth::Length(10),
            Tab::Movers => ColumnWidth::Length(9),
            _ => ColumnWidth::Length(8),
        }
    } else if i == 4 {
        match tab {
            Tab::Memory | Tab::Energy => ColumnWidth::Length(8),
            _ => ColumnWidth::Length(10),
        }
    } else if i == 5 {
        match tab {
            Tab::Movers => ColumnWidth::Length(11),
            _ => ColumnWidth::Length(10),
        }
    } else {
        ColumnWidth::Length(10)
    }
}

/// The widths of the columns of a view, in order.
pub open spec fn column_layout(tab: Tab) -> Seq<ColumnWidth> {
    Seq::new(7, |i: int| column_width_of(tab, i))
}

/// A header: the title, with `v` (descending) or `^` (ascending) after it
/// when the table is sorted by this column.
pub open spec fn header_text(label: Seq<char>, active: bool, descending: bool) -> Seq<char> {
    if active {
        label + seq![' ', if descending { 'v' } else { '^' }]
    } else {
        label
    }
}

/// The header of a column.
pub fn sort_header(label: &str, active: bool, descending: bool) -> (r: String)
    ensures
        r@ == header_text(label@, active, descending),
{
    let mut out = label.to_string();
    if active {
        out.push(' ');
        out.push(if descending { 'v' } else { '^' });
    }
    assert(out@ =~= header_text(label@, active, descending));
    out
}

/// The title of column `i` of a view.
pub fn column_title(tab: Tab, i: usize) -> (r: &'static str)
    requires
        i < COLUMN_COUNT,
    ensures
        r@ == column_title_text(tab, i as int),
{
    if i == 0 {
        "PID"
    } else if i == 1 {
        "Process"
    } else if i == 2 {
        "User"
    } else {
        match tab {
            Tab::Cpu => if i == 3 {
                "% CPU"
            } else if i == 4 {
                "Memory"
            } else if i == 5 {
                "Time"
            } else {
                "Status"
            },
            Tab::Memory => if i == 3 {
                "Memory"
            } else if i == 4 {
                "% Mem"
            } else if i == 5 {
                "Virtual"
            } else {
                "Status"
            },
            Tab::Energy => if i == 3 {
                "Impact"
            } else if i == 4 {
                "% CPU"
            } else if i == 5 {
                "Disk/s"
            } else {
                "Status"
            },
            Tab::Disk => if i == 3 {
                "Read/s"
            } else if i == 4 {
                "Write/s"
            } else if i == 5 {
                "Read"
            } else {
                "Written"
            },
            Tab::Network => if i == 3 {
                "% CPU"
            } else if i == 4 {
                "Memory"
            } else if i == 5 {
                "Disk/s"
            } else {
                "Status"
            },
            Tab::Movers => if i == 3 {
                "CPU +/-"
            } else if i == 4 {
                "Mem +/-"
            } else if i == 5 {
                "Disk +/-"
            } else {
                "State"
            },
        }
    }
}

/// The sort key behind the header of column `i` of a view, if it sorts.
pub fn column_sort_key(tab: Tab, i: usize) -> (r: Option<SortKey>)
    ensures
        r == column_key(tab, i as int),
{
    if i == 0 {
        Some(SortKey::Pid)
    } else if i == 1 {
        Some(SortKey::Name)
    } else if i == 2 {
        Some(SortKey::User)
    } else if i == 3 {
        Some(
            match tab {
                Tab::Cpu => SortKey::Cpu,
                Tab::Memory => SortKey::Memory,
                Tab::Energy => SortKey::Energy,
                Tab::Disk => SortKey::DiskRead,
                Tab::Network => SortKey::Cpu,
                Tab::Movers => SortKey::Trend,
            },
        )
    } else if i == 4 {
        match tab {
            Tab::Cpu => Some(SortKey::Memory),
            Tab::Energy => Some(SortKey::Cpu),
            Tab::Disk => Some(SortKey::DiskWrite),
            Tab::Network => Some(SortKey::Memory),
            _ => None,
        }
    } else if i == 5 {
        match tab {
            Tab::Cpu => Some(SortKey::Runtime),
            _ => None,
        }
    } else {
        None
    }
}

/// The width of column `i` of a view.
pub fn column_width(tab: Tab, i: usize) -> (r: ColumnWidth)
    ensures
        r == column_width_of(tab, i as int),
{
    if i == 0 {
        ColumnWidth::Length(7)
    } else if i == 1 {
        ColumnWidth::Min(22)
    } else if i == 2 {
        ColumnWidth::Length(13)
    } else if i == 3 {
        match tab {
            Tab::Memory | Tab::Disk => ColumnWidth::Length(10),
            Tab::Movers => ColumnWidth::Length(9),
            _ => ColumnWidth::Length(8),
        }
    } else if i == 4 {
        match tab {
            Tab::Memory | Tab::Energy => ColumnWidth::Length(8),
            _ => ColumnWidth::Length(10),
        }
    } else if i == 5 {
        match tab {
            Tab::Movers => ColumnWidth::Length(11),
            _ => ColumnWidth::Length(10),
        }
    } else {
        ColumnWidth::Length(10)
    }
}

/// The headers and column widths of a view's table, with the column it is
/// sorted by marked.
pub fn table_schema(tab: Tab, sort_key: SortKey, sort_desc: bool) -> (r: (
    Vec<String>,
    Vec<ColumnWidth>,
))
    ensures
        r.0.len() == COLUMN_COUNT,
        r.1@ == column_layout(tab),
        forall|i: int|
            0 <= i < COLUMN_COUNT ==> #[trigger] r.0@[i]@ == header_text(
                column_title_text(tab, i),
                column_key(tab, i) == Some(sort_key),
                sort_desc,
            ),
{
    let mut headers: Vec<String> = Vec::new();
    let mut widths: Vec<ColumnWidth> = Vec::new();
    let mut i: usize = 0;
    while i < COLUMN_COUNT
        invariant
            i <= COLUMN_COUNT,
            headers.len() == i,
            widths@ == column_layout(tab).subrange(0, i as int),
            forall|j: int|
                0 <= j < i ==> #[trigger] headers@[j]@ == header_text(
                    column_title_text(tab, j),
                    column_key(tab, j) == Some(sort_key),
                    sort_desc,
                ),
        decreases COLUMN_COUNT - i,
    {
        let key = column_sort_key(tab, i);
        let active = match key {
            Some(k) => k == sort_key,
            None => false,
        };
        headers.push(sort_header(column_title(tab, i), active, sort_desc));
        widths.push(column_width(tab, i));
        i = i + 1;
        assert(widths@ =~= column_layout(tab).subrange(0, i as int));
    }
    assert(widths@ =~= column_layout(tab));
    (headers, widths)
}

/// The cells of the fixed-width columns.
pub open spec fn fixed_total(ws: Seq<ColumnWidth>) -> nat
    decreases ws.len(),
{
    if ws.len() == 0 {
        0
    } else {
        fixed_total(ws.drop_last()) + match ws.last() {
            ColumnWidth::Length(n) => n as nat,
            ColumnWidth::Min(_) => 0,
        }
    }
}

/// The least cells of the stretching columns.
pub open spec fn min_total(ws: Seq<ColumnWidth>) -> nat
    decreases ws.len(),
{
    if ws.len() == 0 {
        0
    } else {
        min_total(ws.drop_last()) + match ws.last() {
            ColumnWidth::Min(n) => n as nat,
            ColumnWidth::Length(_) => 0,
        }
    }
}

/// The number of stretching columns.
pub open spec fn min_count(ws: Seq<ColumnWidth>) -> nat
    decreases ws.len(),
{
    if ws.len() == 0 {
        0
    } else {
        min_count(ws.drop_last()) + if ws.last() is Min {
            1nat
        } else {
            0nat
        }
    }
}

/// `a - b`, or 0 when `b` is larger.
pub open spec fn minus(a: int, b: int) -> nat {
    if a > b {
        (a - b) as nat
    } else {
        0
    }
}

/// The extra cells each stretching column gets in a table `area_width`
/// cells wide (borders included, one cell between columns).
pub open spec fn stretch_share(ws: Seq<ColumnWidth>, area_width: nat) -> nat {
    let inner = minus(area_width as int, 2);
    let spacing = minus(ws.len() as int, 1);
    let available = minus(inner as int, (fixed_total(ws) + spacing) as int);
    let extra = minus(available as int, min_total(ws) as int);
    if min_count(ws) == 0 {
        0
    } else {
        extra / min_count(ws)
    }
}

/// The cells a column gets, given each stretching column's share.
pub open spec fn laid_out(w: ColumnWidth, share: nat) -> nat {
    match w {
        ColumnWidth::Length(n) => n as nat,
        ColumnWidth::Min(n) => (n + share) as nat,
    }
}

/// Sums the parts of a layout that column widths are computed from.
fn layout_totals(ws: &Vec<ColumnWidth>) -> (r: (u64, u64, u64))
    requires
        ws.len() <= COLUMN_COUNT,
    ensures
        r.0 == fixed_total(ws@),
        r.1 == min_total(ws@),
        r.2 == min_count(ws@),
        r.0 <= 7 * 65535,
        r.1 <= 7 * 65535,
        r.2 <= 7,
{
    let mut fixed: u64 = 0;
    let mut mins: u64 = 0;
    let mut count: u64 = 0;
    let mut i: usize = 0;
    while i < ws.len()
        invariant
            i <= ws.len() <= COLUMN_COUNT,
            fixed == fixed_total(ws@.subrange(0, i as int)),
            mins == min_total(ws@.subrange(0, i as int)),
            count == min_count(ws@.subrange(0, i as int)),
            fixed <= i * 65535,
            mins <= i * 65535,
            count <= i,
        decreases ws.len() - i,
    {
        let ghost before = ws@.subrange(0, i as int);
        let ghost after = ws@.subrange(0, i + 1);
        assert(after.drop_last() =~= before);
        match ws[i] {
            ColumnWidth::Length(n) => {
                fixed = fixed + n as u64;
            },
            ColumnWidth::Min(n) => {
                mins = mins + n as u64;
                count = count + 1;
            },
        }
        i = i + 1;
    }
    assert(ws@.subrange(0, ws.len() as int) =~= ws@);
    (fixed, mins, count)
}

/// The width in cells of each column of a view's table when the table,
/// borders included, is `area_width` cells wide: fixed columns keep their
/// width and the stretching column takes what is left.
pub fn column_widths(tab: Tab, area_width: u16) -> (r: Vec<usize>)
    ensures
        r@ == layout_widths(tab, area_width as nat),
        r.len() == COLUMN_COUNT,
        forall|i: int|
            0 <= i < COLUMN_COUNT ==> #[trigger] r@[i] as nat == laid_out(
                column_layout(tab)[i],
                stretch_share(column_layout(tab), area_width as nat),
            ),
{
    let (_, constraints) = table_schema(tab, SortKey::Pid, true);
    let (fixed, mins, count) = layout_totals(&constraints);
    let inner: u64 = if area_width > 2 {
        area_width as u64 - 2
    } else {
        0
    };
    let spacing: u64 = constraints.len() as u64 - 1;
    let available: u64 = if inner > fixed + spacing {
        inner - (fixed + spacing)
    } else {
        0
    };
    let extra: u64 = if available > mins {
        available - mins
    } else {
        0
    };
    let share: u64 = if count == 0 {
        0
    } else {
        extra / count
    };
    assert(share == stretch_share(column_layout(tab), area_width as nat));
    let mut widths: Vec<usize> = Vec::new();
    let mut i: usize = 0;
    while i < constraints.len()
        invariant
            constraints@ == column_layout(tab),
            i <= constraints.len(),
            widths.len() == i,
            share <= 65535,
            share == stretch_share(column_layout(tab), area_width as nat),
            forall|j: int|
                0 <= j < i ==> #[trigger] widths@[j] as nat == laid_out(
                    column_layout(tab)[j],
                    share as nat,
                ),
        decreases constraints.len() - i,
    {
        let w: usize = match constraints[i] {
            ColumnWidth::Length(n) => n as usize,
            ColumnWidth::Min(n) => n as usize + share as usize,
        };
        widths.push(w);
        i = i + 1;
    }
    assert(widths@ =~= layout_widths(tab, area_width as nat));
    widths
}

/// The cells of all columns together.
pub open spec fn total_width(ws: Seq<usize>) -> nat
    decreases ws.len(),
{
    if ws.len() == 0 {
        0
    } else {
        total_width(ws.drop_last()) + ws.last() as nat
    }
}

/// The cells the fixed-width columns of a view take.
pub open spec fn fixed_cells(tab: Tab) -> nat {
    match tab {
        Tab::Cpu | Tab::Memory | Tab::Network => 58,
        Tab::Energy => 56,
        Tab::Disk | Tab::Movers => 60,
    }
}

/// When a table is wide enough for every column's least width, the columns
/// and the cells between them fill it exactly, borders aside.
pub proof fn lemma_columns_fill_the_table(tab: Tab, area_width: nat)
    requires
        area_width >= 2 + fixed_cells(tab) + 6 + 22,
        area_width <= 65535,
    ensures
        total_width(layout_widths(tab, area_width)) + 6 == area_width - 2,
{
    let ws = column_layout(tab);
    lemma_layout_sums(tab);
    lemma_total_prefix(tab, area_width, 7);
    assert(layout_widths(tab, area_width).subrange(0, 7) =~= layout_widths(tab, area_width));
    assert(ws.subrange(0, 7) =~= ws);
}

/// The first `k` laid-out widths add up to the fixed cells, the least
/// stretching cells and one share per stretching column among them.
proof fn lemma_total_prefix(tab: Tab, area_width: nat, k: int)
    requires
        0 <= k <= 7,
        stretch_share(column_layout(tab), area_width) <= 65535,
    ensures
        total_width(layout_widths(tab, area_width).subrange(0, k)) == fixed_total(
            column_layout(tab).subrange(0, k),
        ) + min_total(column_layout(tab).subrange(0, k)) + stretch_share(
            column_layout(tab),
            area_width,
        ) * min_count(column_layout(tab).subrange(0, k)),
    decreases k,
{
    let ws = column_layout(tab);
    let lw = layout_widths(tab, area_width);
    let share = stretch_share(ws, area_width);
    if k > 0 {
        lemma_total_prefix(tab, area_width, k - 1);
        assert(lw.subrange(0, k).drop_last() =~= lw.subrange(0, k - 1));
        assert(ws.subrange(0, k).drop_last() =~= ws.subrange(0, k - 1));
        let c = min_count(ws.subrange(0, k - 1));
        assert(share * (c + 1) == share * c + share) by (nonlinear_arith);
        assert(lw.subrange(0, k).last() == lw[k - 1]);
        assert(ws.subrange(0, k).last() == ws[k - 1]);
        assert(lw[k - 1] as nat == laid_out(ws[k - 1], share));
        assert(total_width(lw.subrange(0, k)) == total_width(lw.subrange(0, k - 1)) + lw[k - 1]);
        match ws[k - 1] {
            ColumnWidth::Length(n) => {
                assert(fixed_total(ws.subrange(0, k)) == fixed_total(ws.subrange(0, k - 1)) + n);
                assert(min_total(ws.subrange(0, k)) == min_total(ws.subrange(0, k - 1)));
                assert(min_count(ws.subrange(0, k)) == c);
                assert(share * min_count(ws.subrange(0, k)) == share * c);
            },
            ColumnWidth::Min(n) => {
                assert(fixed_total(ws.subrange(0, k)) == fixed_total(ws.subrange(0, k - 1)));
                assert(min_total(ws.subrange(0, k)) == min_total(ws.subrange(0, k - 1)) + n);
                assert(min_count(ws.subrange(0, k)) == c + 1);
                assert(share * min_count(ws.subrange(0, k)) == share * c + share);
            },
        }
    } else {
        assert(lw.subrange(0, 0) =~= Seq::<usize>::empty());
        assert(ws.subrange(0, 0) =~= Seq::<ColumnWidth>::empty());
        assert(min_count(ws.subrange(0, 0)) == 0);
        assert(share * min_count(ws.subrange(0, 0)) == 0) by (nonlinear_arith)
            requires
                min_count(ws.subrange(0, 0)) == 0,
        ;
    }
}

/// The fixed cells, least stretching cells and stretching columns of a
/// view's layout.
proof fn lemma_layout_sums(tab: Tab)
    ensures
        fixed_total(column_layout(tab)) == fixed_cells(tab),
        min_total(column_layout(tab)) == 22,
        min_count(column_layout(tab)) == 1,
{
    lemma_layout_prefix(tab, 7);
    assert(column_layout(tab).subrange(0, 7) =~= column_layout(tab));
    assert(fixed_prefix(tab, 0) == 0);
    assert(fixed_prefix(tab, 1) == 7);
    assert(fixed_prefix(tab, 2) == 7);
    assert(fixed_prefix(tab, 3) == 20);
    assert(fixed_prefix(tab, 4) == 20 + match tab {
        Tab::Memory | Tab::Disk => 10nat,
        Tab::Movers => 9nat,
        _ => 8nat,
    });
    assert(fixed_prefix(tab, 5) == fixed_prefix(tab, 4) + match tab {
        Tab::Memory | Tab::Energy => 8nat,
        _ => 10nat,
    });
    assert(fixed_prefix(tab, 6) == fixed_prefix(tab, 5) + match tab {
        Tab::Movers => 11nat,
        _ => 10nat,
    });
    assert(fixed_prefix(tab, 7) == fixed_prefix(tab, 6) + 10);
}

/// The sums over the first `k` columns of a view's layout.
proof fn lemma_layout_prefix(tab: Tab, k: int)
    requires
        0 <= k <= 7,
    ensures
        fixed_total(column_layout(tab).subrange(0, k)) == fixed_prefix(tab, k),
        min_total(column_layout(tab).subrange(0, k)) == if k >= 2 {
            22nat
        } else {
            0nat
        },
        min_count(column_layout(tab).subrange(0, k)) == if k >= 2 {
            1nat
        } else {
            0nat
        },
    decreases k,
{
    let ws = column_layout(tab);
    if k > 0 {
        lemma_layout_prefix(tab, k - 1);
        assert(ws.subrange(0, k).drop_last() =~= ws.subrange(0, k - 1));
    } else {
        assert(ws.subrange(0, 0) =~= Seq::<ColumnWidth>::empty());
    }
}

/// The cells of the fixed-width columns among the first `k` of a view.
spec fn fixed_prefix(tab: Tab, k: int) -> nat
    decreases k,
{
    if k <= 0 {
        0
    } else {
        fixed_prefix(tab, k - 1) + match column_width_of(tab, k - 1) {
            ColumnWidth::Length(n) => n as nat,
            ColumnWidth::Min(_) => 0,
        }
    }
}

/// Where column `i` starts, counted in cells from the table's inner left
/// edge, with one cell between columns.
pub open spec fn column_start(widths: Seq<usize>, i: int) -> int
    decreases i,
{
    if i <= 0 {
        0
    } else {
        column_start(widths, i - 1) + widths[i - 1] + 1
    }
}

/// The column under cell `x` (counted from the table's inner left edge), or
/// none when `x` falls between columns or past the last one.
pub fn column_at(widths: &Vec<usize>, x: usize) -> (r: Option<usize>)
    ensures
        r matches Some(i) ==> i < widths.len() && Some(i as int) == column_hit(widths@, x as int),
        r is None ==> column_hit(widths@, x as int) is None,
{
    let mut start: usize = 0;
    let mut i: usize = 0;
    while i < widths.len()
        invariant
            i <= widths.len(),
            start == column_start(widths@, i as int),
            forall|j: int|
                0 <= j < i ==> #[trigger] column_start(widths@, j) + widths@[j] <= x,
        decreases widths.len() - i,
    {
        if x < start {
            proof {
                assert forall|j: int|
                    0 <= j < widths.len() implies !(#[trigger] column_start(widths@, j) <= x
                    < column_start(widths@, j) + widths@[j]) by {
                    if j >= i {
                        lemma_column_start_grows(widths@, i as int, j);
                    }
                }
            }
            return None;
        }
        let w = widths[i];
        if x - start < w {
            proof {
                lemma_one_column_hit(widths@, i as int, x as int);
            }
            return Some(i);
        }
        if x - start == w {
            proof {
                assert forall|j: int|
                    0 <= j < widths.len() implies !(#[trigger] column_start(widths@, j) <= x
                    < column_start(widths@, j) + widths@[j]) by {
                    if j > i {
                        lemma_column_start_grows(widths@, i + 1, j);
                    }
                }
            }
            return None;
        }
        start = start + w + 1;
        i = i + 1;
    }
    proof {
        assert forall|j: int|
            0 <= j < widths.len() implies !(#[trigger] column_start(widths@, j) <= x
            < column_start(widths@, j) + widths@[j]) by {
            assert(column_start(widths@, j) + widths@[j] <= x);
        }
    }
    None
}

/// No cell lies in two columns: the column holding `x` is the one
/// [`column_hit`] names.
pub proof fn lemma_one_column_hit(widths: Seq<usize>, i: int, x: int)
    requires
        0 <= i < widths.len(),
        column_start(widths, i) <= x < column_start(widths, i) + widths[i],
    ensures
        column_hit(widths, x) == Some(i),
{
    let c = choose|c: int|
        0 <= c < widths.len() && #[trigger] column_start(widths, c) <= x < column_start(
            widths,
            c,
        ) + widths[c];
    assert(column_start(widths, i) <= x);
    if c < i {
        lemma_column_start_grows(widths, c + 1, i);
    } else if i < c {
        lemma_column_start_grows(widths, i + 1, c);
    }
}

/// Columns start further right the later they come.
pub proof fn lemma_column_start_grows(widths: Seq<usize>, i: int, j: int)
    requires
        0 <= i <= j,
    ensures
        column_start(widths, i) <= column_start(widths, j),
    decreases j - i,
{
    if i < j {
        lemma_column_start_grows(widths, i, j - 1);
    }
}

/// What a click on the process table's area hits.
#[derive(Debug, Clone, Copy, PartialEq, Eq, Structural)]
pub enum TableHit {
    Header(usize),
    Row(usize),
    Outside,
}

/// The column whose cells hold `x` (counted from the table's inner left
/// edge), if any.
pub open spec fn column_hit(widths: Seq<usize>, x: int) -> Option<int> {
    if exists|i: int|
        0 <= i < widths.len() && #[trigger] column_start(widths, i) <= x < column_start(
            widths,
            i,
        ) + widths[i] {
        Some(
            choose|i: int|
                0 <= i < widths.len() && #[trigger] column_start(widths, i) <= x < column_start(
                    widths,
                    i,
                ) + widths[i],
        )
    } else {
        None
    }
}

/// The widths [`column_widths`] lays a view out with.
pub open spec fn layout_widths(tab: Tab, area_width: nat) -> Seq<usize> {
    Seq::new(
        7,
        |i: int|
            laid_out(column_layout(tab)[i], stretch_share(column_layout(tab), area_width)) as usize,
    )
}

/// What a click at screen cell (`x`, `y`) hits in a table drawn at `left`,
/// `top`, `width` cells wide and `height` rows high, borders included, with
/// the header on the first row inside the border and row `offset` shown
/// first: a header, a row, or nothing.
pub open spec fn table_hit_spec(
    tab: Tab,
    left: nat,
    top: nat,
    width: nat,
    height: nat,
    offset: nat,
    x: nat,
    y: nat,
) -> TableHit {
    if !(left < x && x + 1 < left + width && top < y && y + 1 < top + height) {
        TableHit::Outside
    } else if y == top + 1 {
        match column_hit(layout_widths(tab, width), x - left - 1) {
            Some(c) => TableHit::Header(c as usize),
            None => TableHit::Outside,
        }
    } else if offset + (y - top - 2) <= usize::MAX {
        TableHit::Row((offset + (y - top - 2)) as usize)
    } else {
        TableHit::Outside
    }
}

/// What a click at screen cell (`x`, `y`) hits in the process table; see
/// [`table_hit_spec`].
pub fn table_hit(
    tab: Tab,
    left: u16,
    top: u16,
    width: u16,
    height: u16,
    offset: usize,
    x: u16,
    y: u16,
) -> (r: TableHit)
    ensures
        r == table_hit_spec(
            tab,
            left as nat,
            top as nat,
            width as nat,
            height as nat,
            offset as nat,
            x as nat,
            y as nat,
        ),
{
    let l = left as u32;
    let t = top as u32;
    let xx = x as u32;
    let yy = y as u32;
    if !(l < xx && xx + 1 < l + width as u32 && t < yy && yy + 1 < t + height as u32) {
        return TableHit::Outside;
    }
    if yy == t + 1 {
        let widths = column_widths(tab, width);
        match column_at(&widths, (xx - l - 1) as usize) {
            Some(c) => TableHit::Header(c),
            None => TableHit::Outside,
        }
    } else {
        let row = (yy - t - 2) as usize;
        if offset <= usize::MAX - row {
            TableHit::Row(offset + row)
        } else {
            TableHit::Outside
        }
    }
}


/// The sort key that orders rows by what a column of this title shows: the
/// PID, the process name, the user, CPU share, memory, run time, energy
/// impact, disk read and write rates, and the change since the last sample;
/// none for the other titles.
pub open spec fn key_shown_under(title: Seq<char>) -> Option<SortKey> {
    if title == "PID"@ {
        Some(SortKey::Pid)
    } else if title == "Process"@ {
        Some(SortKey::Name)
    } else if title == "User"@ {
        Some(SortKey::User)
    } else if title == "% CPU"@ {
        Some(SortKey::Cpu)
    } else if title == "Memory"@ {
        Some(SortKey::Memory)
    } else if title == "Time"@ {
        Some(SortKey::Runtime)
    } else if title == "Impact"@ {
        Some(SortKey::Energy)
    } else if title == "Read/s"@ {
        Some(SortKey::DiskRead)
    } else if title == "Write/s"@ {
        Some(SortKey::DiskWrite)
    } else if title == "CPU +/-"@ {
        Some(SortKey::Trend)
    } else {
        None
    }
}

/// A header click sorts by what its column shows: in every view, the key
/// behind column `i` is the one that orders rows by the quantity its title
/// names, so the header marked with the sort direction is exactly the
/// column showing the quantity the table is sorted by.
pub proof fn lemma_headers_sort_by_their_column(tab: Tab, i: int, sort_key: SortKey)
    requires
        0 <= i < COLUMN_COUNT,
    ensures
        column_key(tab, i) == key_shown_under(column_title_text(tab, i)),
        (column_key(tab, i) == Some(sort_key)) == (key_shown_under(column_title_text(tab, i))
            == Some(sort_key)),
{
    reveal_strlit("PID");
    reveal_strlit("Process");
    reveal_strlit("User");
    reveal_strlit("% CPU");
    reveal_strlit("Memory");
    reveal_strlit("Time");
    reveal_strlit("Impact");
    reveal_strlit("Read/s");
    reveal_strlit("Write/s");
    reveal_strlit("CPU +/-");
    reveal_strlit("Status");
    reveal_strlit("% Mem");
    reveal_strlit("Virtual");
    reveal_strlit("Disk/s");
    reveal_strlit("Read");
    reveal_strlit("Written");
    reveal_strlit("Mem +/-");
    reveal_strlit("Disk +/-");
    reveal_strlit("State");
    if tab == Tab::Cpu {
        if i == 0 {
            assert(column_title_text(tab, i) == "PID"@);
        }
        if i == 1 {
            assert(column_title_text(tab, i) == "Process"@);
            assert("Process"@.len() != "PID"@.len());
        }
        if i == 2 {
            assert(column_title_text(tab, i) == "User"@);
            assert("User"@.len() != "PID"@.len());
            assert("User"@.len() != "Process"@.len());
        }
        if i == 3 {
            assert(column_title_text(tab, i) == "% CPU"@);
            assert("% CPU"@.len() != "PID"@.len());
            assert("% CPU"@.len() != "Process"@.len());
            assert("% CPU"@.len() != "User"@.len());
        }
        if i == 4 {
            assert(column_title_text(tab, i) == "Memory"@);
            assert("Memory"@.len() != "PID"@.len());
            assert("Memory"@.len() != "Process"@.len());
            assert("Memory"@.len() != "User"@.len());
            assert("Memory"@.len() != "% CPU"@.len());
        }
        if i == 5 {
            assert(column_title_text(tab, i) == "Time"@);
            assert("Time"@.len() != "PID"@.len());
            assert("Time"@.len() != "Process"@.len());
            assert("Time"@[0] != "User"@[0]);
            assert("Time"@.len() != "% CPU"@.len());
            assert("Time"@.len() != "Memory"@.len());
        }
        if i == 6 {
            assert(column_title_text(tab, i) == "Status"@);
            assert("Status"@.len() != "PID"@.len());
            assert("Status"@.len() != "Process"@.len());
            assert("Status"@.len() != "User"@.len());
            assert("Status"@.len() != "% CPU"@.len());
            assert("Status"@[0] != "Memory"@[0]);
            assert("Status"@.len() != "Time"@.len());
            assert("Status"@[0] != "Impact"@[0]);
            assert("Status"@[0] != "Read/s"@[0]);
            assert("Status"@.len() != "Write/s"@.len());
            assert("Status"@.len() != "CPU +/-"@.len());
        }
    }
    if tab == Tab::Memory {
        if i == 0 {
            assert(column_title_text(tab, i) == "PID"@);
        }
        if i == 1 {
            assert(column_title_text(tab, i) == "Process"@);
            assert("Process"@.len() != "PID"@.len());
        }
        if i == 2 {
            assert(column_title_text(tab, i) == "User"@);
            assert("User"@.len() != "PID"@.len());
            assert("User"@.len() != "Process"@.len());
        }
        if i == 3 {
            assert(column_title_text(tab, i) == "Memory"@);
            assert("Memory"@.len() != "PID"@.len());
            assert("Memory"@.len() != "Process"@.len());
            assert("Memory"@.len() != "User"@.len());
            assert("Memory"@.len() != "% CPU"@.len());
        }
        if i == 4 {
            assert(column_title_text(tab, i) == "% Mem"@);
            assert("% Mem"@.len() != "PID"@.len());
            assert("% Mem"@.len() != "Process"@.len());
            assert("% Mem"@.len() != "User"@.len());
            assert("% Mem"@[2] != "% CPU"@[2]);
            assert("% Mem"@.len() != "Memory"@.len());
            assert("% Mem"@.len() != "Time"@.len());
            assert("% Mem"@.len() != "Impact"@.len());
            assert("% Mem"@.len() != "Read/s"@.len());
            assert("% Mem"@.len() != "Write/s"@.len());
            assert("% Mem"@.len() != "CPU +/-"@.len());
        }
        if i == 5 {
            assert(column_title_text(tab, i) == "Virtual"@);
            assert("Virtual"@.len() != "PID"@.len());
            assert("Virtual"@[0] != "Process"@[0]);
            assert("Virtual"@.len() != "User"@.len());
            assert("Virtual"@.len() != "% CPU"@.len());
            assert("Virtual"@.len() != "Memory"@.len());
            assert("Virtual"@.len() != "Time"@.len());
            assert("Virtual"@.len() != "Impact"@.len());
            assert("Virtual"@.len() != "Read/s"@.len());
            assert("Virtual"@[0] != "Write/s"@[0]);
            assert("Virtual"@[0] != "CPU +/-"@[0]);
        }
        if i == 6 {
            assert(column_title_text(tab, i) == "Status"@);
            assert("Status"@.len() != "PID"@.len());
            assert("Status"@.len() != "Process"@.len());
            assert("Status"@.len() != "User"@.len());
            assert("Status"@.len() != "% CPU"@.len());
            assert("Status"@[0] != "Memory"@[0]);
            assert("Status"@.len() != "Time"@.len());
            assert("Status"@[0] != "Impact"@[0]);
            assert("Status"@[0] != "Read/s"@[0]);
            assert("Status"@.len() != "Write/s"@.len());
            assert("Status"@.len() != "CPU +/-"@.len());
        }
    }
    if tab == Tab::Energy {
        if i == 0 {
            assert(column_title_text(tab, i) == "PID"@);
        }
        if i == 1 {
            assert(column_title_text(tab, i) == "Process"@);
            assert("Process"@.len() != "PID"@.len());
        }
        if i == 2 {
            assert(column_title_text(tab, i) == "User"@);
            assert("User"@.len() != "PID"@.len());
            assert("User"@.len() != "Process"@.len());
        }
        if i == 3 {
            assert(column_title_text(tab, i) == "Impact"@);
            assert("Impact"@.len() != "PID"@.len());
            assert("Impact"@.len() != "Process"@.len());
            assert("Impact"@.len() != "User"@.len());
            assert("Impact"@.len() != "% CPU"@.len());
            assert("Impact"@[0] != "Memory"@[0]);
            assert("Impact"@.len() != "Time"@.len());
        }
        if i == 4 {
            assert(column_title_text(tab, i) == "% CPU"@);
            assert("% CPU"@.len() != "PID"@.len());
            assert("% CPU"@.len() != "Process"@.len());
            assert("% CPU"@.len() != "User"@.len());
        }
        if i == 5 {
            assert(column_title_text(tab, i) == "Disk/s"@);
            assert("Disk/s"@.len() != "PID"@.len());
            assert("Disk/s"@.len() != "Process"@.len());
            assert("Disk/s"@.len() != "User"@.len());
            assert("Disk/s"@.len() != "% CPU"@.len());
            assert("Disk/s"@[0] != "Memory"@[0]);
            assert("Disk/s"@.len() != "Time"@.len());
            assert("Disk/s"@[0] != "Impact"@[0]);
            assert("Disk/s"@[0] != "Read/s"@[0]);
            assert("Disk/s"@.len() != "Write/s"@.len());
            assert("Disk/s"@.len() != "CPU +/-"@.len());
        }
        if i == 6 {
            assert(column_title_text(tab, i) == "Status"@);
            assert("Status"@.len() != "PID"@.len());
            assert("Status"@.len() != "Process"@.len());
            assert("Status"@.len() != "User"@.len());
            assert("Status"@.len() != "% CPU"@.len());
            assert("Status"@[0] != "Memory"@[0]);
            assert("Status"@.len() != "Time"@.len());
            assert("Status"@[0] != "Impact"@[0]);
            assert("Status"@[0] != "Read/s"@[0]);
            assert("Status"@.len() != "Write/s"@.len());
            assert("Status"@.len() != "CPU +/-"@.len());
        }
    }
    if tab == Tab::Disk {
        if i == 0 {
            assert(column_title_text(tab, i) == "PID"@);
        }
        if i == 1 {
            assert(column_title_text(tab, i) == "Process"@);
            assert("Process"@.len() != "PID"@.len());
        }
        if i == 2 {
            assert(column_title_text(tab, i) == "User"@);
            assert("User"@.len() != "PID"@.len());
            assert("User"@.len() != "Process"@.len());
        }
        if i == 3 {
            assert(column_title_text(tab, i) == "Read/s"@);
            assert("Read/s"@.len() != "PID"@.len());
            assert("Read/s"@.len() != "Process"@.len());
            assert("Read/s"@.len() != "User"@.len());
            assert("Read/s"@.len() != "% CPU"@.len());
            assert("Read/s"@[0] != "Memory"@[0]);
            assert("Read/s"@.len() != "Time"@.len());
            assert("Read/s"@[0] != "Impact"@[0]);
        }
        if i == 4 {
            assert(column_title_text(tab, i) == "Write/s"@);
            assert("Write/s"@.len() != "PID"@.len());
            assert("Write/s"@[0] != "Process"@[0]);
            assert("Write/s"@.len() != "User"@.len());
            assert("Write/s"@.len() != "% CPU"@.len());
            assert("Write/s"@.len() != "Memory"@.len());
            assert("Write/s"@.len() != "Time"@.len());
            assert("Write/s"@.len() != "Impact"@.len());
            assert("Write/s"@.len() != "Read/s"@.len());
        }
        if i == 5 {
            assert(column_title_text(tab, i) == "Read"@);
            assert("Read"@.len() != "PID"@.len());
            assert("Read"@.len() != "Process"@.len());
            assert("Read"@[0] != "User"@[0]);
            assert("Read"@.len() != "% CPU"@.len());
            assert("Read"@.len() != "Memory"@.len());
            assert("Read"@[0] != "Time"@[0]);
            assert("Read"@.len() != "Impact"@.len());
            assert("Read"@.len() != "Read/s"@.len());
            assert("Read"@.len() != "Write/s"@.len());
            assert("Read"@.len() != "CPU +/-"@.len());
        }
        if i == 6 {
            assert(column_title_text(tab, i) == "Written"@);
            assert("Written"@.len() != "PID"@.len());
            assert("Written"@[0] != "Process"@[0]);
            assert("Written"@.len() != "User"@.len());
            assert("Written"@.len() != "% CPU"@.len());
            assert("Written"@.len() != "Memory"@.len());
            assert("Written"@.len() != "Time"@.len());
            assert("Written"@.len() != "Impact"@.len());
            assert("Written"@.len() != "Read/s"@.len());
            assert("Written"@[4] != "Write/s"@[4]);
            assert("Written"@[0] != "CPU +/-"@[0]);
        }
    }
    if tab == Tab::Network {
        if i == 0 {
            assert(column_title_text(tab, i) == "PID"@);
        }
        if i == 1 {
            assert(column_title_text(tab, i) == "Process"@);
            assert("Process"@.len() != "PID"@.len());
        }
        if i == 2 {
            assert(column_title_text(tab, i) == "User"@);
            assert("User"@.len() != "PID"@.len());
            assert("User"@.len() != "Process"@.len());
        }
        if i == 3 {
            assert(column_title_text(tab, i) == "% CPU"@);
            assert("% CPU"@.len() != "PID"@.len());
            assert("% CPU"@.len() != "Process"@.len());
            assert("% CPU"@.len() != "User"@.len());
        }
        if i == 4 {
            assert(column_title_text(tab, i) == "Memory"@);
            assert("Memory"@.len() != "PID"@.len());
            assert("Memory"@.len() != "Process"@.len());
            assert("Memory"@.len() != "User"@.len());
            assert("Memory"@.len() != "% CPU"@.len());
        }
        if i == 5 {
            assert(column_title_text(tab, i) == "Disk/s"@);
            assert("Disk/s"@.len() != "PID"@.len());
            assert("Disk/s"@.len() != "Process"@.len());
            assert("Disk/s"@.len() != "User"@.len());
            assert("Disk/s"@.len() != "% CPU"@.len());
            assert("Disk/s"@[0] != "Memory"@[0]);
            assert("Disk/s"@.len() != "Time"@.len());
            assert("Disk/s"@[0] != "Impact"@[0]);
            assert("Disk/s"@[0] != "Read/s"@[0]);
            assert("Disk/s"@.len() != "Write/s"@.len());
            assert("Disk/s"@.len() != "CPU +/-"@.len());
        }
        if i == 6 {
            assert(column_title_text(tab, i) == "Status"@);
            assert("Status"@.len() != "PID"@.len());
            assert("Status"@.len() != "Process"@.len());
            assert("Status"@.len() != "User"@.len());
            assert("Status"@.len() != "% CPU"@.len());
            assert("Status"@[0] != "Memory"@[0]);
            assert("Status"@.len() != "Time"@.len());
            assert("Status"@[0] != "Impact"@[0]);
            assert("Status"@[0] != "Read/s"@[0]);
            assert("Status"@.len() != "Write/s"@.len());
            assert("Status"@.len() != "CPU +/-"@.len());
        }
    }
    if tab == Tab::Movers {
        if i == 0 {
            assert(column_title_text(tab, i) == "PID"@);
        }
        if i == 1 {
            assert(column_title_text(tab, i) == "Process"@);
            assert("Process"@.len() != "PID"@.len());
        }
        if i == 2 {
            assert(column_title_text(tab, i) == "User"@);
            assert("User"@.len() != "PID"@.len());
            assert("User"@.len() != "Process"@.len());
        }
        if i == 3 {
            assert(column_title_text(tab, i) == "CPU +/-"@);
            assert("CPU +/-"@.len() != "PID"@.len());
            assert("CPU +/-"@[0] != "Process"@[0]);
            assert("CPU +/-"@.len() != "User"@.len());
            assert("CPU +/-"@.len() != "% CPU"@.len());
            assert("CPU +/-"@.len() != "Memory"@.len());
            assert("CPU +/-"@.len() != "Time"@.len());
            assert("CPU +/-"@.len() != "Impact"@.len());
            assert("CPU +/-"@.len() != "Read/s"@.len());
            assert("CPU +/-"@[0] != "Write/s"@[0]);
        }
        if i == 4 {
            assert(column_title_text(tab, i) == "Mem +/-"@);
            assert("Mem +/-"@.len() != "PID"@.len());
            assert("Mem +/-"@[0] != "Process"@[0]);
            assert("Mem +/-"@.len() != "User"@.len());
            assert("Mem +/-"@.len() != "% CPU"@.len());
            assert("Mem +/-"@.len() != "Memory"@.len());
            assert("Mem +/-"@.len() != "Time"@.len());
            assert("Mem +/-"@.len() != "Impact"@.len());
            assert("Mem +/-"@.len() != "Read/s"@.len());
            assert("Mem +/-"@[0] != "Write/s"@[0]);
            assert("Mem +/-"@[0] != "CPU +/-"@[0]);
        }
        if i == 5 {
            assert(column_title_text(tab, i) == "Disk +/-"@);
            assert("Disk +/-"@.len() != "PID"@.len());
            assert("Disk +/-"@.len() != "Process"@.len());
            assert("Disk +/-"@.len() != "User"@.len());
            assert("Disk +/-"@.len() != "% CPU"@.len());
            assert("Disk +/-"@.len() != "Memory"@.len());
            assert("Disk +/-"@.len() != "Time"@.len());
            assert("Disk +/-"@.len() != "Impact"@.len());
            assert("Disk +/-"@.len() != "Read/s"@.len());
            assert("Disk +/-"@.len() != "Write/s"@.len());
            assert("Disk +/-"@.len() != "CPU +/-"@.len());
        }
        if i == 6 {
            assert(column_title_text(tab, i) == "State"@);
            assert("State"@.len() != "PID"@.len());
            assert("State"@.len() != "Process"@.len());
            assert("State"@.len() != "User"@.len());
            assert("State"@[0] != "% CPU"@[0]);
            assert("State"@.len() != "Memory"@.len());
            assert("State"@.len() != "Time"@.len());
            assert("State"@.len() != "Impact"@.len());
            assert("State"@.len() != "Read/s"@.len());
            assert("State"@.len() != "Write/s"@.len());
            assert("State"@.len() != "CPU +/-"@.len());
        }
    }
}

} // verus!
