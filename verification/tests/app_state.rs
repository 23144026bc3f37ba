use lazyifconfig::model::{
    EventSeverity, InterfaceAddress, InterfaceStats, InterfaceStatus, InterfaceType, NetworkEvent,
    NetworkEventKind, NetworkInterface, NetworkKind, RouteInspectorSection,
};
use lazyifconfig::app::{
    generate_interface_events, next_route_section, previous_route_section, push_events_bounded,
    select_next_index, select_previous_index, traffic_rates, InterfaceHistory,
    RouteInspectorState,
};

fn iface(name: &str, kind: NetworkKind, status: InterfaceStatus, v4: &[&str], v6: &[&str]) -> NetworkInterface {
    NetworkInterface {
        name: name.to_string(),
        network_kind: kind,
        interface_type: InterfaceType::Unknown,
        status,
        ipv4: v4.iter().map(|a| InterfaceAddress::new(a)).collect(),
        ipv6: v6.iter().map(|a| InterfaceAddress::new(a)).collect(),
        mac_address: None,
        mtu: None,
        stats: None,
    }
}

fn summary(events: &[NetworkEvent]) -> Vec<(NetworkEventKind, EventSeverity, String)> {
    events.iter().map(|e| (e.kind, e.severity, e.message.clone())).collect()
}

#[test]
fn appearance_and_disappearance_are_reported() {
    let previous = vec![iface("utun3", NetworkKind::Vpn, InterfaceStatus::Up, &[], &[])];
    let current = vec![iface("en0", NetworkKind::Lan, InterfaceStatus::Up, &["192.168.0.2"], &["fe80::1"])];
    let events = generate_interface_events(&previous, &current);
    assert_eq!(
        summary(&events),
        vec![
            (NetworkEventKind::InterfaceAppeared, EventSeverity::Info, "en0 appeared".to_string()),
            (NetworkEventKind::Ipv4Added, EventSeverity::Info, "en0: added IPv4 192.168.0.2".to_string()),
            (NetworkEventKind::Ipv6Added, EventSeverity::Info, "en0: added IPv6 fe80::1".to_string()),
            (
                NetworkEventKind::VpnDisconnected,
                EventSeverity::Warning,
                "utun3 disconnected (VPN disappeared)".to_string()
            ),
        ]
    );
}

#[test]
fn status_and_address_changes_are_reported() {
    let previous = vec![
        iface("en0", NetworkKind::Lan, InterfaceStatus::Up, &["10.0.0.2"], &["fe80::1", "fe80::2"]),
        iface("docker0", NetworkKind::Container, InterfaceStatus::Up, &[], &[]),
    ];
    let current = vec![
        iface("en0", NetworkKind::Lan, InterfaceStatus::Down, &["10.0.0.3"], &["fe80::2", "fe80::3"]),
        iface("docker0", NetworkKind::Container, InterfaceStatus::Down, &[], &[]),
    ];
    let events = generate_interface_events(&previous, &current);
    assert_eq!(
        summary(&events),
        vec![
            (
                NetworkEventKind::InterfaceDown,
                EventSeverity::Warning,
                "en0 status changed: up -> down".to_string()
            ),
            (NetworkEventKind::Ipv4Changed, EventSeverity::Info, "en0: 10.0.0.2 -> 10.0.0.3".to_string()),
            (NetworkEventKind::Ipv6Added, EventSeverity::Info, "en0: added IPv6 fe80::3".to_string()),
            (NetworkEventKind::Ipv6Removed, EventSeverity::Info, "en0: removed IPv6 fe80::1".to_string()),
            (NetworkEventKind::ContainerNetworkRemoved, EventSeverity::Info, "docker0 removed".to_string()),
        ]
    );
}

#[test]
fn identical_snapshots_give_no_events() {
    let snapshot = vec![iface("en0", NetworkKind::Lan, InterfaceStatus::Up, &["10.0.0.2"], &[])];
    assert!(generate_interface_events(&snapshot, &snapshot).is_empty());
}

#[test]
fn the_timeline_keeps_its_last_hundred_events() {
    let mut events = Vec::new();
    let batch: Vec<NetworkEvent> = (0..150)
        .map(|i| NetworkEvent::new(NetworkEventKind::InterfaceUp, EventSeverity::Info, format!("e{i}")))
        .collect();
    push_events_bounded(&mut events, batch);
    assert_eq!(events.len(), 100);
    assert_eq!(events[0].message, "e50");
    assert_eq!(events[99].message, "e149");
    push_events_bounded(
        &mut events,
        vec![NetworkEvent::new(NetworkEventKind::InterfaceDown, EventSeverity::Warning, "last".to_string())],
    );
    assert_eq!(events.len(), 100);
    assert_eq!(events[99].message, "last");
    assert_eq!(events[0].message, "e51");
}

#[test]
fn history_keeps_forty_rates() {
    let mut history = InterfaceHistory::default();
    for i in 0..45u64 {
        history.record(i, i * 2);
    }
    assert_eq!(history.rx_rates.len(), 40);
    assert_eq!(history.rx_rates[0], 5);
    assert_eq!(history.tx_rates[39], 88);
}

#[test]
fn rates_are_per_second_and_never_negative() {
    let now = InterfaceStats { rx_bytes: 5000, tx_bytes: 100, rx_packets: 0, tx_packets: 0 };
    let before = InterfaceStats { rx_bytes: 1000, tx_bytes: 200, rx_packets: 0, tx_packets: 0 };
    assert_eq!(traffic_rates(&now, &before, 2), (2000, 0));
}

#[test]
fn route_inspector_sections_cycle() {
    let mut section = RouteInspectorState::default().active_section;
    assert_eq!(section, RouteInspectorSection::Summary);
    let order = [
        RouteInspectorSection::PathViewer,
        RouteInspectorSection::RouteTable,
        RouteInspectorSection::VpnRoutes,
        RouteInspectorSection::Diagnostics,
        RouteInspectorSection::Summary,
    ];
    for expected in order {
        section = next_route_section(section);
        assert_eq!(section, expected);
    }
    assert_eq!(previous_route_section(RouteInspectorSection::Summary), RouteInspectorSection::Diagnostics);
    assert_eq!(RouteInspectorState::default().destination_input, "8.8.8.8");
}

#[test]
fn selection_wraps_around() {
    assert_eq!(select_next_index(2, 3), 0);
    assert_eq!(select_next_index(0, 3), 1);
    assert_eq!(select_previous_index(0, 3), 2);
    assert_eq!(select_previous_index(1, 3), 0);
    assert_eq!(select_next_index(0, 0), 0);
    assert_eq!(select_previous_index(0, 0), 0);
}

fn snapshot_with_ports(listening_ports: Vec<lazyifconfig::model::ListeningPort>) -> lazyifconfig::model::NetworkSnapshot {
    lazyifconfig::model::NetworkSnapshot {
        interfaces: vec![],
        connections: vec![],
        listening_ports,
        routes: vec![],
        captured_at_secs: 10,
    }
}

fn listening_port(
    proto: &str,
    local_port: &str,
    command: &str,
    pid: &str,
    user: &str,
) -> lazyifconfig::model::ListeningPort {
    lazyifconfig::model::ListeningPort {
        proto: proto.to_string(),
        local_ip: "0.0.0.0".to_string(),
        local_port: local_port.to_string(),
        pid: pid.to_string(),
        command: command.to_string(),
        user: user.to_string(),
    }
}

#[test]
fn ports_filter_then_sort_by_port_number() {
    let mut app = lazyifconfig::app::App::default();
    app.view_mode = lazyifconfig::app::ViewMode::Ports;
    app.port_filter = "server".to_string();

    app.replace_snapshot(snapshot_with_ports(vec![
        listening_port("tcp", "9000", "server-b", "300", "alice"),
        listening_port("tcp", "443", "client", "100", "bob"),
        listening_port("tcp", "8080", "server-a", "200", "carol"),
    ]));

    let ports: Vec<String> = app
        .navigation_items
        .iter()
        .map(|item| match item {
            lazyifconfig::app::NavigationItem::ListeningPort { port, .. } => port.clone(),
            other => panic!("expected port item, got {other:?}"),
        })
        .collect();

    assert_eq!(ports, vec!["8080", "9000"]);
}

#[test]
fn ports_are_ordered_numerically_with_other_ports_last() {
    let mut app = lazyifconfig::app::App::default();
    app.view_mode = lazyifconfig::app::ViewMode::Ports;
    app.replace_snapshot(snapshot_with_ports(vec![
        listening_port("tcp", "*", "a", "1", "u"),
        listening_port("tcp", "10000", "b", "2", "u"),
        listening_port("tcp", "22", "c", "3", "u"),
        listening_port("tcp", "22", "d", "4", "u"),
    ]));
    let commands: Vec<String> = app
        .navigation_items
        .iter()
        .map(|item| match item {
            lazyifconfig::app::NavigationItem::ListeningPort { command, .. } => command.clone(),
            other => panic!("expected port item, got {other:?}"),
        })
        .collect();
    assert_eq!(commands, vec!["c", "d", "b", "a"]);
}

#[test]
fn switching_views_selects_the_first_row_when_the_interface_is_gone() {
    let mut app = lazyifconfig::app::App::default();
    app.recent_events = (0..3)
        .map(|i| {
            NetworkEvent::new(
                NetworkEventKind::SystemError,
                EventSeverity::Info,
                format!("event {i}"),
            )
        })
        .collect();
    app.set_view_mode(lazyifconfig::app::ViewMode::Timeline);
    app.selected_index = 1;
    app.set_view_mode(lazyifconfig::app::ViewMode::Interface);
    app.set_view_mode(lazyifconfig::app::ViewMode::Timeline);
    assert_eq!(app.selected_index, 0);

    app.selected_index = 2;
    app.set_view_mode(lazyifconfig::app::ViewMode::Ports);
    assert_eq!(app.selected_index, 0);
}
