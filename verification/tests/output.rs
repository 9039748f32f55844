use monitr::output::{
    filter_suffix, snapshot_header, snapshot_line, snapshot_summary, SnapshotLine, SnapshotSummary,
};

#[test]
fn summary_names_a_given_filter() {
    assert_eq!(filter_suffix(None), "");
    assert_eq!(filter_suffix(Some("   ")), "");
    assert_eq!(filter_suffix(Some("node")), " | filter node");
}

#[test]
fn listing_headers_line_up_with_rows() {
    assert_eq!(
        snapshot_header(false),
        "    PID    %CPU     MEMORY       DISK/S USER          NAME"
    );
    assert_eq!(
        snapshot_header(true),
        "    PID    %CPU     MEMORY       DISK/S    PPID  THREADS USER          NAME"
    );
}

#[test]
fn listing_rows_pad_and_cut_their_columns() {
    let short = SnapshotLine {
        pid: 42,
        cpu: "3.50%",
        memory: 1_500,
        disk_rate: "0 B/s",
        parent_pid: Some(1),
        threads: Some(3),
        user: "root",
        name: "launchd",
    };
    assert_eq!(
        snapshot_line(&short, false),
        "     42   3.50%    1.50 KB        0 B/s root          launchd"
    );
    let long = SnapshotLine {
        pid: 4321,
        cpu: "12.5%",
        memory: 2_000_000_000,
        disk_rate: "1.00 MB/s",
        parent_pid: Some(1),
        threads: None,
        user: "averyverylongusername",
        name: "Google Chrome Helper",
    };
    assert_eq!(
        snapshot_line(&long, true),
        "   4321   12.5%    2.00 GB    1.00 MB/s       1        - averyv.ername Google Chrome Helper"
    );
}

#[test]
fn summary_line_reports_totals() {
    let summary = SnapshotSummary {
        cpu: "12.5%",
        used_memory: 8_000_000_000,
        total_memory: 16_000_000_000,
        disk_read_rate: "1.00 MB/s",
        disk_write_rate: "0 B/s",
        network_in_rate: "12.0 KB/s",
        network_out_rate: "500 B/s",
        sample_seconds: "1.00",
        filter: Some("node"),
    };
    assert_eq!(
        snapshot_summary(&summary),
        "CPU 12.5% | Memory 8.00 GB / 16.0 GB | Disk R 1.00 MB/s W 0 B/s | Network In 12.0 KB/s Out 500 B/s | sample 1.00s | filter node"
    );
}
