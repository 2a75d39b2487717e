use sshtui::config::Host;
use sshtui::session::{
    connect_outcome, decimal_string, ConnectionStatus, PtyLink, ReadOutcome, SessionError, SshClient, SshEvent,
};

fn host() -> Host {
    Host {
        name: "web".to_string(),
        host: "example.com".to_string(),
        user: "bob".to_string(),
        port: 2222,
        key_path: None,
    }
}

#[test]
fn connect_builds_plan() {
    let mut client = SshClient::new();
    assert!(!client.is_connected());
    assert!(!client.is_connecting());
    let plan = client.connect(host(), "~/.ssh/id_ed25519", "/home/bob", 80, 24).unwrap();
    assert_eq!(plan.key_path, "/home/bob/.ssh/id_ed25519");
    assert_eq!(plan.destination, "bob@example.com");
    assert_eq!(plan.port, 2222);
    assert_eq!((plan.cols, plan.rows), (80, 24));
    assert!(client.is_connecting());
    assert_eq!(client.get_host().unwrap().name, "web");
}

#[test]
fn key_path_without_tilde_is_kept() {
    let mut client = SshClient::new();
    let plan = client.connect(host(), "/keys/a~b", "/home/bob", 1, 1).unwrap();
    assert_eq!(plan.key_path, "/keys/a~b");
}

#[test]
fn second_connect_is_rejected() {
    let mut client = SshClient::new();
    client.connect(host(), "k", "/h", 80, 24).unwrap();
    assert!(matches!(client.connect(host(), "k", "/h", 80, 24), Err(SessionError::AlreadyActive)));
    client.handle_event(SshEvent::Connected { host: host() });
    assert!(client.is_connected());
    assert!(matches!(client.connect(host(), "k", "/h", 80, 24), Err(SessionError::AlreadyActive)));
    client.disconnect();
    assert_eq!(client.status, ConnectionStatus::Closed);
    assert!(client.get_host().is_none());
    assert!(client.connect(host(), "k", "/h", 80, 24).is_ok());
}

#[test]
fn events_drive_status() {
    let mut client = SshClient::new();
    client.handle_event(SshEvent::Connected { host: host() });
    assert_eq!(client.status, ConnectionStatus::Idle);
    client.connect(host(), "k", "/h", 80, 24).unwrap();
    client.handle_event(SshEvent::Data(vec![1, 2]));
    assert!(client.is_connecting());
    client.handle_event(SshEvent::Connected { host: host() });
    assert!(client.is_connected());
    client.handle_event(SshEvent::Error("lost".to_string()));
    assert_eq!(client.status, ConnectionStatus::Closed);
    assert!(client.get_host().is_some());
    client.handle_event(SshEvent::Disconnected);
    assert!(client.get_host().is_none());
}

#[test]
fn read_error_ends_writes_and_data() {
    let mut client = SshClient::new();
    let mut link = PtyLink::new();
    client.connect(host(), "k", "/h", 80, 24).unwrap();
    client.handle_event(SshEvent::Connected { host: host() });
    assert!(client.check_send(&link).is_ok());
    assert!(link.check_write().is_ok());

    match link.on_read(ReadOutcome::Data(b"hi".to_vec())) {
        Some(SshEvent::Data(d)) => assert_eq!(d, b"hi".to_vec()),
        other => panic!("unexpected {:?}", other),
    }
    let ev = link.on_read(ReadOutcome::Failed("input/output error".to_string()));
    match &ev {
        Some(SshEvent::Error(m)) => assert_eq!(m, "input/output error"),
        other => panic!("unexpected {:?}", other),
    }
    assert!(matches!(link.check_write(), Err(SessionError::NotConnected)));
    assert!(matches!(client.check_send(&link), Err(SessionError::NotConnected)));
    assert!(link.on_read(ReadOutcome::Data(b"late".to_vec())).is_none());
    assert!(link.on_read(ReadOutcome::Failed("again".to_string())).is_none());
    client.handle_event(ev.unwrap());
    assert!(!client.is_connected());
    assert!(matches!(client.check_send(&PtyLink::new()), Err(SessionError::NotConnected)));
}

#[test]
fn end_of_stream_disconnects() {
    let mut link = PtyLink::new();
    assert!(matches!(link.on_read(ReadOutcome::Data(Vec::new())), Some(SshEvent::Disconnected)));
    assert!(!link.writer_open());
    assert!(link.reader_done());
    assert!(link.on_read(ReadOutcome::Data(vec![65])).is_none());
}

#[test]
fn close_is_idempotent() {
    let mut link = PtyLink::new();
    link.close();
    link.close();
    assert!(!link.writer_open());
    assert!(matches!(link.check_write(), Err(SessionError::NotConnected)));
    assert!(link.on_read(ReadOutcome::Data(vec![65])).is_none());
}

use sshtui::bridge::{deliver, deliver_all};
use sshtui::panel::{RawTerminalPanel, Rect};

fn panel() -> RawTerminalPanel {
    RawTerminalPanel::new(Rect { x: 0, y: 0, width: 12, height: 5 })
}

#[test]
fn delivered_events_drive_panel_and_client() {
    let mut p = panel();
    let mut client = SshClient::new();
    client.connect(host(), "k", "/h", 10, 3).unwrap();
    deliver_all(
        &mut p,
        &mut client,
        vec![
            SshEvent::Data(b"ab".to_vec()),
            SshEvent::Connected { host: host() },
            SshEvent::Data(b"\r\ncd".to_vec()),
        ],
    );
    assert!(client.is_connected());
    assert!(p.is_active());
    assert_eq!(p.screen().cell(0, 1).unwrap().ch, 'b');
    assert_eq!(p.screen().cell(1, 1).unwrap().ch, 'd');
    assert_eq!(p.screen().cursor(), (1, 2));

    deliver(&mut p, &mut client, SshEvent::Error("gone".to_string()));
    assert!(!client.is_connected());
    assert!(!p.is_active());
    assert_eq!(p.screen().cell(1, 0).unwrap().ch, 'c');
}

#[test]
fn stale_handshake_does_not_activate() {
    let mut p = panel();
    let mut client = SshClient::new();
    deliver(&mut p, &mut client, SshEvent::Connected { host: host() });
    assert!(!client.is_connected());
    assert!(!p.is_active());
}

#[test]
fn spawn_plan_command_line() {
    let mut client = SshClient::new();
    let plan = client.connect(host(), "~/id", "/home/bob", 132, 43).unwrap();
    assert_eq!(plan.program(), "ssh");
    assert_eq!(
        plan.args(),
        vec![
            "-i",
            "/home/bob/id",
            "-o",
            "StrictHostKeyChecking=no",
            "-o",
            "UserKnownHostsFile=/dev/null",
            "-o",
            "ServerAliveInterval=30",
            "-o",
            "ServerAliveCountMax=3",
            "-t",
            "bob@example.com",
            "-p",
            "2222",
        ]
    );
    assert_eq!(
        plan.env(),
        vec![
            ("TERM".to_string(), "xterm-256color".to_string()),
            ("COLUMNS".to_string(), "132".to_string()),
            ("LINES".to_string(), "43".to_string()),
        ]
    );
}

#[test]
fn decimal_strings() {
    assert_eq!(decimal_string(0), "0");
    assert_eq!(decimal_string(7), "7");
    assert_eq!(decimal_string(10), "10");
    assert_eq!(decimal_string(22), "22");
    assert_eq!(decimal_string(65535), "65535");
}

#[test]
fn connect_attempt_ends_in_one_event() {
    match connect_outcome(host(), Ok(())) {
        SshEvent::Connected { host: h } => assert_eq!(h.name, "web"),
        other => panic!("unexpected {:?}", other),
    }
    match connect_outcome(host(), Err("no pty".to_string())) {
        SshEvent::Error(m) => assert_eq!(m, "no pty"),
        other => panic!("unexpected {:?}", other),
    }
}

#[test]
fn write_failure_ends_session_once() {
    let mut link = PtyLink::new();
    match link.on_write_failure("broken pipe".to_string()) {
        Some(SshEvent::Error(m)) => assert_eq!(m, "broken pipe"),
        other => panic!("unexpected {:?}", other),
    }
    assert!(matches!(link.check_write(), Err(SessionError::NotConnected)));
    assert!(link.on_read(ReadOutcome::Data(vec![1])).is_none());
    assert!(link.on_write_failure("again".to_string()).is_none());
}

#[test]
fn reads_then_error_report_in_order() {
    let mut link = PtyLink::new();
    let mut events = Vec::new();
    for o in vec![
        ReadOutcome::Data(b"a".to_vec()),
        ReadOutcome::Data(b"bc".to_vec()),
        ReadOutcome::Failed("eio".to_string()),
        ReadOutcome::Data(b"late".to_vec()),
    ] {
        if let Some(ev) = link.on_read(o) {
            events.push(ev);
        }
    }
    assert_eq!(events.len(), 3);
    assert!(matches!(&events[0], SshEvent::Data(d) if d == b"a"));
    assert!(matches!(&events[1], SshEvent::Data(d) if d == b"bc"));
    assert!(matches!(&events[2], SshEvent::Error(m) if m == "eio"));
    assert!(!link.writer_open());
}
