use monitr::app::{SortKey, Tab};
use monitr::table::{
    column_at, column_sort_key, column_widths, sort_header, table_hit, table_schema, ColumnWidth,
    TableHit,
};

#[test]
fn headers_mark_the_sorted_column() {
    let (headers, widths) = table_schema(Tab::Cpu, SortKey::Cpu, true);
    assert_eq!(
        headers,
        vec!["PID", "Process", "User", "% CPU v", "Memory", "Time", "Status"]
    );
    assert_eq!(widths[0], ColumnWidth::Length(7));
    assert_eq!(widths[1], ColumnWidth::Min(22));

    let (headers, _) = table_schema(Tab::Disk, SortKey::DiskRead, false);
    assert_eq!(
        headers,
        vec!["PID", "Process", "User", "Read/s ^", "Write/s", "Read", "Written"]
    );

    let (headers, _) = table_schema(Tab::Movers, SortKey::Name, false);
    assert_eq!(
        headers,
        vec!["PID", "Process ^", "User", "CPU +/-", "Mem +/-", "Disk +/-", "State"]
    );
}

#[test]
fn sort_header_appends_the_direction() {
    assert_eq!(sort_header("PID", true, true), "PID v");
    assert_eq!(sort_header("PID", true, false), "PID ^");
    assert_eq!(sort_header("PID", false, true), "PID");
}

#[test]
fn column_widths_give_the_rest_to_the_process_column() {
    assert_eq!(column_widths(Tab::Cpu, 100), vec![7, 34, 13, 8, 10, 10, 10]);
    assert_eq!(column_widths(Tab::Movers, 100), vec![7, 32, 13, 9, 10, 11, 10]);
    assert_eq!(column_widths(Tab::Cpu, 10), vec![7, 22, 13, 8, 10, 10, 10]);
    assert_eq!(column_widths(Tab::Memory, 0), vec![7, 22, 13, 10, 8, 10, 10]);
}

#[test]
fn clicks_find_columns_and_rows() {
    let widths = column_widths(Tab::Cpu, 100);
    assert_eq!(column_at(&widths, 0), Some(0));
    assert_eq!(column_at(&widths, 6), Some(0));
    assert_eq!(column_at(&widths, 7), None);
    assert_eq!(column_at(&widths, 8), Some(1));
    assert_eq!(column_at(&widths, 41), Some(1));
    assert_eq!(column_at(&widths, 43), Some(2));
    assert_eq!(column_at(&widths, 1_000), None);

    assert_eq!(table_hit(Tab::Cpu, 0, 5, 100, 20, 0, 1, 6), TableHit::Header(0));
    assert_eq!(table_hit(Tab::Cpu, 0, 5, 100, 20, 0, 9, 6), TableHit::Header(1));
    assert_eq!(table_hit(Tab::Cpu, 0, 5, 100, 20, 3, 9, 7), TableHit::Row(3));
    assert_eq!(table_hit(Tab::Cpu, 0, 5, 100, 20, 3, 9, 9), TableHit::Row(5));
    assert_eq!(table_hit(Tab::Cpu, 0, 5, 100, 20, 0, 0, 9), TableHit::Outside);
    assert_eq!(table_hit(Tab::Cpu, 0, 5, 100, 20, 0, 9, 5), TableHit::Outside);
    assert_eq!(table_hit(Tab::Cpu, 0, 5, 100, 20, 0, 9, 24), TableHit::Outside);
    assert_eq!(table_hit(Tab::Cpu, 0, 5, 100, 20, 0, 8, 6), TableHit::Outside);
}

#[test]
fn only_metric_and_identity_columns_sort() {
    assert_eq!(column_sort_key(Tab::Cpu, 0), Some(SortKey::Pid));
    assert_eq!(column_sort_key(Tab::Cpu, 5), Some(SortKey::Runtime));
    assert_eq!(column_sort_key(Tab::Cpu, 6), None);
    assert_eq!(column_sort_key(Tab::Memory, 4), None);
    assert_eq!(column_sort_key(Tab::Disk, 4), Some(SortKey::DiskWrite));
    assert_eq!(column_sort_key(Tab::Energy, 3), Some(SortKey::Energy));
    assert_eq!(column_sort_key(Tab::Movers, 3), Some(SortKey::Trend));
    assert_eq!(column_sort_key(Tab::Network, 9), None);
}

#[test]
fn columns_fill_wide_tables() {
    for tab in Tab::all() {
        for width in [94u16, 100, 180, 400] {
            let widths = column_widths(tab, width);
            let total: usize = widths.iter().sum();
            if (width as usize) >= 2 + 60 + 6 + 22 {
                assert_eq!(total + 6, width as usize - 2, "{tab:?} {width}");
            }
        }
    }
}
