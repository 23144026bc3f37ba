use std::time::SystemTime;

use lazyifconfig::app::{App, NavigationItem, ViewMode};
use lazyifconfig::keys::{Key, KeyAction};
use lazyifconfig::model::{
    ActiveConnection, CommandOutput, CommandSourceId, InterfaceStatus, InterfaceType,
    ListeningPort, NetworkEventKind, NetworkInterface, NetworkKind, NetworkSnapshot,
    RouteInspectorSection,
};

fn iface(name: &str) -> NetworkInterface {
    NetworkInterface {
        name: name.to_string(),
        network_kind: NetworkKind::Lan,
        interface_type: InterfaceType::WifiOrEthernet,
        status: InterfaceStatus::Up,
        ipv4: vec![],
        ipv6: vec![],
        mac_address: None,
        mtu: None,
        stats: None,
    }
}

fn app_with_snapshot() -> App {
    let mut app = App::default();
    app.replace_snapshot(NetworkSnapshot {
        interfaces: vec![iface("en0"), iface("lo0")],
        connections: vec![
            ActiveConnection {
                proto: "tcp".to_string(),
                local_ip: "10.0.0.2".to_string(),
                local_port: "5000".to_string(),
                foreign_ip: "1.1.1.1".to_string(),
                foreign_port: "443".to_string(),
                state: Some("ESTABLISHED".to_string()),
            },
            ActiveConnection {
                proto: "udp".to_string(),
                local_ip: "0.0.0.0".to_string(),
                local_port: "53".to_string(),
                foreign_ip: "*".to_string(),
                foreign_port: "*".to_string(),
                state: None,
            },
        ],
        listening_ports: vec![ListeningPort {
            proto: "tcp".to_string(),
            local_ip: "0.0.0.0".to_string(),
            local_port: "8080".to_string(),
            pid: "42".to_string(),
            command: "server".to_string(),
            user: "me".to_string(),
        }],
        routes: vec![],
        captured_at_secs: 10,
    });
    app
}

#[test]
fn view_keys_switch_views_and_hide_help() {
    let mut app = app_with_snapshot();
    app.help_visible = true;
    assert!(matches!(app.handle_key(Key::Char('g'), "linux"), KeyAction::Nothing));
    assert_eq!(app.view_mode, ViewMode::Routes);
    assert!(!app.help_visible);
    app.handle_key(Key::Char('ㅔ'), "linux");
    assert_eq!(app.view_mode, ViewMode::Ports);
    assert!(matches!(app.handle_key(Key::Char('q'), "linux"), KeyAction::Quit));
    assert!(matches!(app.handle_key(Key::Char('r'), "linux"), KeyAction::Refresh));
}

#[test]
fn selection_moves_with_j_and_k() {
    let mut app = app_with_snapshot();
    assert_eq!(app.selected_index, 0);
    app.handle_key(Key::Char('j'), "linux");
    assert_eq!(app.selected_index, 1);
    app.handle_key(Key::Down, "linux");
    assert_eq!(app.selected_index, 0);
    app.handle_key(Key::Char('k'), "linux");
    assert_eq!(app.selected_index, 1);
}

#[test]
fn kill_and_copy_keys_hand_work_to_the_front_end() {
    let mut app = app_with_snapshot();
    app.set_view_mode(ViewMode::Ports);
    match app.handle_key(Key::Char('K'), "linux") {
        KeyAction::Kill { pid, command, port } => {
            assert_eq!((pid.as_str(), command.as_str(), port.as_str()), ("42", "server", "8080"));
        }
        other => panic!("expected a kill, got {other:?}"),
    }
    assert!(app.record_kill("42", "server", "8080", Ok(())));
    assert_eq!(app.recent_events.last().unwrap().message, "Killed server (PID: 42) on :8080");
    assert!(!app.record_kill("42", "server", "8080", Err("denied".to_string())));
    assert_eq!(app.recent_events.last().unwrap().kind, NetworkEventKind::SystemError);

    app.handle_key(Key::Char('c'), "linux");
    assert_eq!(app.view_mode, ViewMode::Connections);
    match app.handle_key(Key::Char('c'), "linux") {
        KeyAction::CopyAddress(ip) => assert_eq!(ip, "1.1.1.1"),
        other => panic!("expected a copy, got {other:?}"),
    }
    match app.handle_key(Key::Char('w'), "linux") {
        KeyAction::Whois(ip) => assert_eq!(ip, "1.1.1.1"),
        other => panic!("expected a lookup, got {other:?}"),
    }
    assert!(app.start_whois("1.1.1.1", None));
    assert!(!app.start_whois("1.1.1.1", Some("Loading...")));
    app.handle_key(Key::Char('j'), "linux");
    assert!(matches!(app.handle_key(Key::Char('c'), "linux"), KeyAction::Nothing));
    match &app.navigation_items[1] {
        NavigationItem::Connection { foreign, .. } => assert_eq!(foreign, "*:*"),
        other => panic!("expected a connection, got {other:?}"),
    }
}

#[test]
fn filters_take_keys_until_left() {
    let mut app = app_with_snapshot();
    app.set_view_mode(ViewMode::Ports);
    app.handle_key(Key::Char('/'), "linux");
    assert!(app.port_filter_active);
    app.handle_key(Key::Char('x'), "linux");
    assert_eq!(app.port_filter, "x");
    assert!(app.navigation_items.is_empty());
    app.handle_key(Key::Backspace, "linux");
    assert_eq!(app.port_filter, "");
    assert_eq!(app.navigation_items.len(), 1);
    app.handle_key(Key::Char('q'), "linux");
    assert_eq!(app.port_filter, "q");
    app.handle_key(Key::Esc, "linux");
    assert!(!app.port_filter_active);
    assert_eq!(app.port_filter, "");
}

#[test]
fn destination_field_starts_a_route_lookup() {
    let mut app = app_with_snapshot();
    app.set_view_mode(ViewMode::Routes);
    app.handle_key(Key::Enter, "linux");
    assert!(app.route_inspector.destination_input_active);
    assert_eq!(app.route_inspector.active_section, RouteInspectorSection::PathViewer);
    for _ in 0..7 {
        app.handle_key(Key::Backspace, "linux");
    }
    for c in "1.1.1.1".chars() {
        app.handle_key(Key::Char(c), "linux");
    }
    match app.handle_key(Key::Enter, "linux") {
        KeyAction::LookupRoute(d) => assert_eq!(d, "1.1.1.1"),
        other => panic!("expected a lookup, got {other:?}"),
    }
    assert!(!app.route_inspector.destination_input_active);
}

#[test]
fn raw_viewer_opens_searches_and_copies() {
    let mut app = app_with_snapshot();
    app.command_outputs.insert(
        CommandSourceId::Ifconfig,
        CommandOutput {
            command: "ifconfig -a".to_string(),
            stdout: "en0: up\nlo0: up".to_string(),
            stderr: String::new(),
            executed_at: SystemTime::now(),
            exit_code: Some(0),
        },
    );
    app.handle_key(Key::Char('o'), "macos");
    assert!(app.raw_viewer.active);
    assert_eq!(app.raw_viewer.sources, vec![CommandSourceId::Ifconfig]);
    app.handle_key(Key::Char('/'), "macos");
    assert!(app.raw_viewer.search_active);
    for c in "UP".chars() {
        app.handle_key(Key::Char(c), "macos");
    }
    assert_eq!(app.raw_viewer.search_matches.len(), 2);
    app.handle_key(Key::Enter, "macos");
    assert!(!app.raw_viewer.search_active);
    app.handle_key(Key::Char('n'), "macos");
    assert_eq!(app.raw_viewer.current_match_index, 1);
    assert_eq!(app.raw_viewer.scroll, 1);
    match app.handle_key(Key::Char('y'), "macos") {
        KeyAction::Copy(t) => assert_eq!(t, "ifconfig -a"),
        other => panic!("expected a copy, got {other:?}"),
    }
    assert_eq!(app.recent_events.last().unwrap().message, "Copied command: ifconfig -a");
    match app.handle_key(Key::Char('Y'), "macos") {
        KeyAction::Copy(t) => assert_eq!(t, "en0: up\nlo0: up\n"),
        other => panic!("expected a copy, got {other:?}"),
    }
    app.handle_key(Key::End, "macos");
    assert_eq!(app.raw_viewer.scroll, u16::MAX);
    app.handle_key(Key::Esc, "macos");
    assert!(!app.raw_viewer.active);
}

#[test]
fn release_notes_scroll_by_pages() {
    let mut app = App::default();
    app.handle_key(Key::Char('R'), "linux");
    assert!(app.release_notes_viewer.active);
    app.handle_key(Key::PageDown, "linux");
    assert_eq!(app.release_notes_viewer.scroll, 12);
    app.handle_key(Key::Char('k'), "linux");
    assert_eq!(app.release_notes_viewer.scroll, 11);
    app.handle_key(Key::Char('q'), "linux");
    assert!(!app.release_notes_viewer.active);
}
