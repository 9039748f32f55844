use monitr::ports::{
    lookup_from, lookup_tagged, lsof_args, parse_lsof_fields, render_text, PortEntry,
    PortOptions,
};
use monitr::text::CommandOutput;

#[test]
fn parses_lsof_field_output_into_socket_entries() {
    let entries = parse_lsof_fields(
        "\
p4286
cnode
Lmiloevans
f18
PTCP
n127.0.0.1:18789
TST=LISTEN
f24
PUDP
n[::1]:5353->[ff02::fb]:5353
",
    );

    assert_eq!(entries.len(), 2);
    assert_eq!(entries[0].pid, 4286);
    assert_eq!(entries[0].command, "node");
    assert_eq!(entries[0].protocol, "TCP");
    assert_eq!(entries[0].local, "127.0.0.1:18789");
    assert_eq!(entries[0].state.as_deref(), Some("LISTEN"));
    assert_eq!(entries[1].protocol, "UDP");
    assert_eq!(entries[1].remote.as_deref(), Some("[ff02::fb]:5353"));
}

#[test]
fn lsof_arguments_follow_the_options() {
    let listening = lsof_args(PortOptions {
        port: Some(3000),
        json: false,
        all: false,
    });
    assert_eq!(listening, vec!["-nP", "-F", "pPcLfnT", "-iTCP:3000", "-sTCP:LISTEN"]);
    let everything = lsof_args(PortOptions {
        port: None,
        json: true,
        all: true,
    });
    assert_eq!(everything, vec!["-nP", "-F", "pPcLfnT", "-iTCP", "-iUDP"]);
}

#[test]
fn lookup_outcomes() {
    let nothing = CommandOutput {
        success: false,
        code: Some(1),
        stdout: Vec::new(),
        stderr: Vec::new(),
    };
    assert!(lookup_from(&nothing).unwrap().is_empty());
    let failed = CommandOutput {
        success: false,
        code: Some(2),
        stdout: Vec::new(),
        stderr: b"boom\n".to_vec(),
    };
    assert_eq!(lookup_from(&failed).unwrap_err().text(), "lsof failed: boom");
    let found = CommandOutput {
        success: true,
        code: Some(0),
        stdout: b"p1\ncinit\nf3\nPTCP\nn*:22\nTST=LISTEN\n".to_vec(),
        stderr: Vec::new(),
    };
    assert_eq!(lookup_tagged(&found).unwrap().unwrap().len(), 1);
    let odd = CommandOutput {
        success: true,
        code: Some(0),
        stdout: "é\n".as_bytes().to_vec(),
        stderr: Vec::new(),
    };
    assert!(lookup_tagged(&odd).is_none());
}

#[test]
fn renders_port_listing() {
    let entry = PortEntry {
        pid: 4286,
        command: "node".into(),
        user: "milo".into(),
        fd: "18".into(),
        protocol: "TCP".into(),
        local: "127.0.0.1:18789".into(),
        remote: None,
        state: Some("LISTEN".into()),
    };
    let text = render_text(
        &vec![entry],
        PortOptions {
            port: Some(18789),
            json: false,
            all: false,
        },
    );
    let header = format!(
        "{:>7} {:<20} {:<13} {:<5} {:<5} {:<26} REMOTE/STATE",
        "PID", "COMMAND", "USER", "FD", "PROTO", "LOCAL"
    );
    let line = format!(
        "{:>7} {:<20} {:<13} {:<5} {:<5} {:<26} {}",
        4286, "node", "milo", "18", "TCP", "127.0.0.1:18789", "LISTEN"
    );
    assert_eq!(
        text,
        format!("listening TCP sockets on port 18789\n{header}\n{line}\n")
    );
    let none = render_text(
        &Vec::new(),
        PortOptions {
            port: None,
            json: false,
            all: true,
        },
    );
    assert_eq!(none, "all TCP/UDP sockets\nNo matching sockets found.\n");
}
