use monitr::inspect::{
    collect_handles, collect_tagged_handles, lines_are_tagged, lsof_failure, lsof_failure_message,
    output_is_tagged, parse_lsof_files, parse_lsof_sockets, render_handles_report, report_title,
    value_or_dash, FileEntry, SocketEntry,
};
use monitr::text::CommandOutput;

fn output(success: bool, code: Option<i32>, stdout: &str, stderr: &str) -> CommandOutput {
    CommandOutput {
        success,
        code,
        stdout: stdout.as_bytes().to_vec(),
        stderr: stderr.as_bytes().to_vec(),
    }
}

#[test]
fn parses_lsof_file_entries() {
    let files = parse_lsof_files(
        "\
p34138
fcwd
tDIR
D0x1000011
n/Users/miloevans/monitr
f1
tPIPE
n->0x42f88a3c7b8a6378
",
    );

    assert_eq!(files.len(), 2);
    assert_eq!(files[0].fd, "cwd");
    assert_eq!(files[0].file_type, "DIR");
    assert_eq!(files[0].name, "/Users/miloevans/monitr");
    assert_eq!(files[1].fd, "1");
    assert_eq!(files[1].file_type, "PIPE");
}

#[test]
fn parses_lsof_socket_entries() {
    let sockets = parse_lsof_sockets(
        "\
p4286
f18
PTCP
n127.0.0.1:18789
TST=LISTEN
f24
PUDP
n[::1]:5353->[ff02::fb]:5353
",
    );

    assert_eq!(sockets.len(), 2);
    assert_eq!(sockets[0].protocol, "TCP");
    assert_eq!(sockets[0].state.as_deref(), Some("LISTEN"));
    assert_eq!(sockets[1].remote.as_deref(), Some("[ff02::fb]:5353"));
}

#[test]
fn file_devices_and_missing_fields() {
    let files = parse_lsof_files("fcwd\ntDIR\nD0x1\nn/\nf2\nn/x\nf3\n");
    assert_eq!(files.len(), 2);
    assert_eq!(files[0].device.as_deref(), Some("0x1"));
    assert_eq!(files[1].file_type, "-");
    assert_eq!(files[1].device, None);
    assert_eq!(files[1].name, "/x");
    assert!(parse_lsof_files("").is_empty());
}

#[test]
fn checks_line_tags() {
    assert!(lines_are_tagged("fcwd\n\ntDIR\n"));
    assert!(!lines_are_tagged("fcwd\néx\n"));
    assert!(output_is_tagged(&output(true, Some(0), "f1\n", "")));
}

#[test]
fn collects_handles_from_lsof_runs() {
    let files = output(true, Some(0), "f3\ntREG\nn/tmp/log\n", "");
    let sockets = output(false, Some(1), "", "");
    let handles = collect_handles(&files, &sockets).unwrap();
    assert_eq!(handles.files.len(), 1);
    assert_eq!(handles.files[0].name, "/tmp/log");
    assert!(handles.sockets.is_empty());

    let denied = output(false, Some(2), "", " permission denied\n");
    let error = collect_handles(&denied, &sockets).unwrap_err();
    assert_eq!(error.text(), "lsof files failed: permission denied");
    let error = collect_handles(&files, &denied).unwrap_err();
    assert_eq!(error.text(), "lsof sockets failed: permission denied");

    let killed = output(false, None, "", "");
    assert_eq!(lsof_failure_message("files", &killed), "lsof files failed with status signal");
    let odd = output(true, Some(0), "é\n", "");
    assert!(collect_tagged_handles(&odd, &sockets).is_none());
    assert!(collect_tagged_handles(&files, &sockets).unwrap().is_ok());
}

#[test]
fn renders_handle_report() {
    let files = vec![FileEntry {
        fd: "cwd".into(),
        file_type: "DIR".into(),
        device: None,
        name: "/Users/me".into(),
    }];
    let sockets = vec![
        SocketEntry {
            fd: "18".into(),
            protocol: "TCP".into(),
            local: "127.0.0.1:80".into(),
            remote: None,
            state: Some("LISTEN".into()),
        },
        SocketEntry {
            fd: "19".into(),
            protocol: "UDP".into(),
            local: "*:53".into(),
            remote: None,
            state: None,
        },
    ];
    let report = render_handles_report(&files, &sockets, 1);
    assert_eq!(
        report,
        format!(
            "\nSockets\n  18    TCP   {:<32} LISTEN\n\nOpen files\n  cwd   DIR   /Users/me\n",
            "127.0.0.1:80"
        )
    );
    let empty = render_handles_report(&Vec::new(), &Vec::new(), 5);
    assert_eq!(empty, "\nSockets\n  none visible\n\nOpen files\n  none visible\n");
}

#[test]
fn report_titles() {
    assert_eq!(
        report_title("node", 42, "milo", "running", Some(-3)),
        "node pid 42 | user milo | status running | priority -3"
    );
    assert_eq!(
        report_title("x", 1, "root", "idle", None),
        "x pid 1 | user root | status idle | priority -"
    );
}

#[test]
fn dashes_for_empty_values() {
    assert_eq!(value_or_dash(&[]), "-");
    assert_eq!(value_or_dash(&['a']), "a");
}

#[test]
fn failed_runs_give_their_error() {
    let failed = output(false, Some(2), "", "permission denied\n");
    assert_eq!(
        lsof_failure("files", &failed).map(|e| e.text()),
        Some("lsof files failed: permission denied".to_string())
    );
    assert!(lsof_failure("files", &output(false, Some(1), "", "")).is_none());
    assert!(lsof_failure("files", &output(true, Some(0), "p1\n", "")).is_none());
}
