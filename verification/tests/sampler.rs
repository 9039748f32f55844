use monitr::sampler::{
    command_line, nettop_totals_from, parse_pid, parse_process_network_totals, parse_u64,
    priority, process_network_totals, search_text, set_priority, status_label, thread_count,
    ProcStatus, ProcessNetworkTotals,
};
use monitr::text::CommandOutput;

fn chars(s: &str) -> Vec<char> {
    s.chars().collect()
}

#[test]
fn command_lines_join_arguments_or_fall_back_to_the_name() {
    let parts = vec!["/usr/bin/node".to_string(), "server.js".to_string()];
    assert_eq!(command_line(&parts, "node"), "/usr/bin/node server.js");
    assert_eq!(command_line(&Vec::new(), "launchd"), "launchd");
    assert_eq!(command_line(&Vec::new(), ""), "-");
}

#[test]
fn search_text_is_lower_cased() {
    assert_eq!(
        search_text(42, "node", "Milo", "/USR/bin/Node", "Running"),
        "42 node milo /usr/bin/node running"
    );
}

#[test]
fn status_labels() {
    assert_eq!(status_label(ProcStatus::Run), "running");
    assert_eq!(status_label(ProcStatus::UninterruptibleDiskSleep), "disk sleep");
    assert_eq!(status_label(ProcStatus::LockBlocked), "blocked");
}

#[test]
fn platform_fallbacks_report_nothing() {
    assert_eq!(thread_count(1), None);
    assert_eq!(priority(1), None);
    assert_eq!(
        set_priority(1, 5).unwrap_err().text(),
        "priority control is not supported on this platform"
    );
    assert_eq!(
        process_network_totals().unwrap_err(),
        "process-level network attribution is not supported on this platform"
    );
}

#[test]
fn nettop_numbers_and_pids() {
    assert_eq!(parse_u64(&chars(" 1,234 ")), Some(1_234));
    assert_eq!(parse_u64(&chars("x")), None);
    assert_eq!(parse_pid(&chars("node.4286")), Some(4286));
    assert_eq!(parse_pid(&chars("com.apple.WebKit.91")), Some(91));
    assert_eq!(parse_pid(&chars("kernel_task")), None);
    assert_eq!(parse_pid(&chars("node.")), None);
}

#[test]
fn parses_nettop_totals() {
    let output = b"time,,interface,state,bytes_in,bytes_out\n\
12:00:00.1,node.4286,,,1200,3400\n\
\n\
12:00:00.2,curl.77,,,\"5\",9\n\
12:00:00.3,broken\n";
    let totals = parse_process_network_totals(output);
    assert_eq!(totals.len(), 2);
    assert_eq!(
        totals.get(&4286),
        Some(&ProcessNetworkTotals {
            total_in: 1_200,
            total_out: 3_400
        })
    );
    assert_eq!(
        totals.get(&77),
        Some(&ProcessNetworkTotals {
            total_in: 0,
            total_out: 9
        })
    );
}

#[test]
fn nettop_failures_become_messages() {
    let failed = CommandOutput {
        success: false,
        code: Some(2),
        stdout: Vec::new(),
        stderr: b"  not permitted \n".to_vec(),
    };
    assert_eq!(nettop_totals_from(&failed).unwrap_err(), "nettop failed: not permitted");
    let silent = CommandOutput {
        success: false,
        code: Some(-1),
        stdout: Vec::new(),
        stderr: Vec::new(),
    };
    assert_eq!(nettop_totals_from(&silent).unwrap_err(), "nettop exited with status -1");
    let killed = CommandOutput {
        success: false,
        code: None,
        stdout: Vec::new(),
        stderr: Vec::new(),
    };
    assert_eq!(nettop_totals_from(&killed).unwrap_err(), "nettop exited with status signal");
    let ok = CommandOutput {
        success: true,
        code: Some(0),
        stdout: b"x,a.1,,,2,3\n".to_vec(),
        stderr: Vec::new(),
    };
    assert_eq!(nettop_totals_from(&ok).unwrap().len(), 1);
}
