use monitr::cli::{
    parse_args_from, parse_interval, parse_invocation, parse_limit, parse_pid, parse_port, Args,
    InspectMode, Invocation, Mode, PortsMode, Printout, SnapshotMode,
};

fn args(list: &[&str]) -> Vec<String> {
    list.iter().map(|s| s.to_string()).collect()
}

#[test]
fn parses_default_args() {
    assert_eq!(
        parse_args_from(&Vec::<String>::new()).unwrap(),
        Some(Args {
            interval: 1000,
            filter: None,
            mode: Mode::Tui,
        })
    );
}

#[test]
fn parses_interval_and_filter_args() {
    assert_eq!(
        parse_args_from(&args(&["--interval=750", "--filter", "codex"])).unwrap(),
        Some(Args {
            interval: 750,
            filter: Some("codex".to_string()),
            mode: Mode::Tui,
        })
    );
}

#[test]
fn parses_root_json_snapshot_args() {
    assert_eq!(
        parse_args_from(&args(&["--filter", "node", "--json", "--limit=5"])).unwrap(),
        Some(Args {
            interval: 1000,
            filter: Some("node".to_string()),
            mode: Mode::Snapshot(SnapshotMode {
                json: true,
                limit: Some(5),
            }),
        })
    );
}

#[test]
fn parses_snapshot_subcommand_args() {
    assert_eq!(
        parse_args_from(&args(&["snapshot", "--interval", "250", "--json", "--limit", "10"]))
            .unwrap(),
        Some(Args {
            interval: 250,
            filter: None,
            mode: Mode::Snapshot(SnapshotMode {
                json: true,
                limit: Some(10),
            }),
        })
    );
}

#[test]
fn parses_ports_subcommand_args() {
    assert_eq!(
        parse_args_from(&args(&["ports", "3000", "--all", "--json"])).unwrap(),
        Some(Args {
            interval: 1000,
            filter: None,
            mode: Mode::Ports(PortsMode {
                port: Some(3000),
                json: true,
                all: true,
            }),
        })
    );
}

#[test]
fn parses_inspect_subcommand_args() {
    assert_eq!(
        parse_args_from(&args(&["inspect", "1234", "--json", "--limit=7"])).unwrap(),
        Some(Args {
            interval: 1000,
            filter: None,
            mode: Mode::Inspect(InspectMode {
                pid: 1234,
                json: true,
                limit: 7,
            }),
        })
    );
}

#[test]
fn rejects_invalid_interval() {
    let error = parse_interval("fast").unwrap_err().text();
    assert!(error.contains("invalid interval"));
}

#[test]
fn rejects_out_of_range_interval() {
    let error = parse_interval("100").unwrap_err().text();
    assert!(error.contains("250-10000"));
}

#[test]
fn interval_bounds_are_inclusive() {
    assert_eq!(parse_interval("250").unwrap(), 250);
    assert_eq!(parse_interval("10000").unwrap(), 10_000);
    assert!(parse_interval("10001").is_err());
    assert!(parse_interval("249").is_err());
}

#[test]
fn help_and_version_print_instead_of_running() {
    assert_eq!(parse_invocation(&args(&["--help"])).unwrap(), Invocation::Print(Printout::Help));
    assert_eq!(parse_invocation(&args(&["-V"])).unwrap(), Invocation::Print(Printout::Version));
    assert_eq!(
        parse_invocation(&args(&["snapshot", "-h"])).unwrap(),
        Invocation::Print(Printout::SnapshotHelp)
    );
    assert_eq!(
        parse_invocation(&args(&["ports", "--help"])).unwrap(),
        Invocation::Print(Printout::PortsHelp)
    );
    assert_eq!(
        parse_invocation(&args(&["inspect", "-h"])).unwrap(),
        Invocation::Print(Printout::InspectHelp)
    );
    assert_eq!(parse_args_from(&args(&["--help"])).unwrap(), None);
}

#[test]
fn rejects_unknown_and_incomplete_options() {
    let unknown = parse_args_from(&args(&["--bogus"])).unwrap_err().text();
    assert_eq!(unknown, "unknown option: --bogus. Run monitr --help for usage.");
    let missing = parse_args_from(&args(&["--interval"])).unwrap_err().text();
    assert_eq!(missing, "--interval requires a millisecond value");
    let no_pid = parse_args_from(&args(&["inspect"])).unwrap_err().text();
    assert_eq!(no_pid, "inspect requires a PID. Run monitr inspect --help for usage.");
    let extra_port = parse_args_from(&args(&["ports", "80", "81"])).unwrap_err().text();
    assert_eq!(extra_port, "unknown ports option: 81. Run monitr ports --help for usage.");
}

#[test]
fn parses_single_values() {
    assert_eq!(parse_limit("5").unwrap(), 5);
    assert!(parse_limit("0").is_err());
    assert_eq!(parse_port("3000").unwrap(), 3000);
    assert!(parse_port("0").is_err());
    assert!(parse_port("70000").is_err());
    assert_eq!(parse_pid("1234").unwrap(), 1234);
    assert!(parse_pid("abc").is_err());
}
