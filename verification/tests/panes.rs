use lazyifconfig::app::{App, ViewMode};
use lazyifconfig::model::{
    EventSeverity, InterfaceAddress, InterfaceStats, InterfaceStatus, InterfaceType,
    NetworkEvent, NetworkEventKind, NetworkInterface, NetworkKind, NetworkSnapshot, Subnet,
};
use lazyifconfig::panes::{
    connection_detail_lines, connection_row, endpoint_parts, event_detail_lines, event_impact,
    event_row, interface_details, interface_row, port_detail_lines, port_row, route_row,
    subnet_details, subnet_label,
};
use lazyifconfig::screen::Tint;

fn addr(value: &str, prefix: Option<u8>, gateway: Option<&str>) -> InterfaceAddress {
    InterfaceAddress {
        value: value.to_string(),
        prefix_len: prefix,
        gateway: gateway.map(str::to_string),
    }
}

fn iface(
    name: &str,
    kind: NetworkKind,
    status: InterfaceStatus,
    ipv4: Vec<InterfaceAddress>,
    ipv6: Vec<InterfaceAddress>,
) -> NetworkInterface {
    NetworkInterface {
        name: name.to_string(),
        network_kind: kind,
        interface_type: InterfaceType::WifiOrEthernet,
        status,
        ipv4,
        ipv6,
        mac_address: None,
        mtu: None,
        stats: None,
    }
}

fn app_with(interfaces: Vec<NetworkInterface>) -> App {
    let mut app = App::default();
    app.current_snapshot = Some(NetworkSnapshot {
        interfaces,
        ..NetworkSnapshot::default()
    });
    app
}

#[test]
fn subnet_labels_write_the_network_address_and_prefix() {
    assert_eq!(
        subnet_label(&Subnet::Ipv4 {
            network: 0xC0A8_0100,
            prefix_len: 24
        }),
        "▼ 192.168.1.0/24"
    );
    assert_eq!(
        subnet_label(&Subnet::Ipv6 {
            network: 0xfe80_u128 << 112,
            prefix_len: 64
        }),
        "▼ fe80::/64"
    );
    assert_eq!(
        subnet_label(&Subnet::Ipv6 {
            network: 0x2001_0db8_0000_0000_0001_0000_0000_0000,
            prefix_len: 80
        }),
        "▼ 2001:db8:0:0:1::/80"
    );
    assert_eq!(subnet_label(&Subnet::Unassigned), "▼ Unassigned / No IP");
}

#[test]
fn interface_rows_pad_the_name_and_show_the_classification() {
    let mut app = app_with(vec![
        iface(
            "en0",
            NetworkKind::Lan,
            InterfaceStatus::Up,
            vec![addr("192.168.1.10", Some(24), None)],
            vec![],
        ),
        iface("utun3", NetworkKind::Vpn, InterfaceStatus::Down, vec![], vec![]),
    ]);
    let (text, up) = interface_row(&app, "en0", &Some("192.168.1.10".to_string()));
    assert_eq!(text, format!("{:<35}LAN", "● en0 (192.168.1.10)"));
    assert!(up);

    let (text, up) = interface_row(&app, "utun3", &None);
    assert_eq!(text, format!("{:<35}VPN", "○ utun3 (no IP)"));
    assert!(!up);

    let (text, up) = interface_row(&app, "missing", &None);
    assert_eq!(text, format!("{:<35}UNKNOWN", "○ missing (no IP)"));
    assert!(!up);

    app.view_mode = ViewMode::Network;
    let (text, _) = interface_row(&app, "en0", &Some("192.168.1.10".to_string()));
    assert_eq!(text, format!("{:<35}LAN", "  ● en0 (192.168.1.10)"));
}

#[test]
fn list_rows_of_connections_ports_routes_and_events() {
    assert_eq!(
        connection_row("tcp4", "192.168.1.10.51234", "17.1.2.3.443", &Some("ESTABLISHED".to_string())),
        "[TCP4] 192.168.1.10.51234 -> 17.1.2.3.443 (ESTABLISHED)"
    );
    assert_eq!(connection_row("udp", "*.*", "*.*", &None), "[UDP] *.* -> *.*");
    assert_eq!(
        port_row("tcp", "8080", "node", "4242"),
        "[TCP] :8080   node (PID: 4242)"
    );
    assert_eq!(
        route_row("default", "192.168.0.1", "en0"),
        "default            192.168.0.1      en0"
    );
    assert_eq!(
        event_row("12:34:56", NetworkEventKind::InterfaceUp, "en0 is up"),
        "12:34:56 [Interface Up] en0 is up"
    );
}

#[test]
fn subnet_details_list_the_member_interfaces() {
    let app = app_with(vec![
        iface(
            "en0",
            NetworkKind::Lan,
            InterfaceStatus::Up,
            vec![addr("192.168.1.10", Some(24), None)],
            vec![addr("fe80::1", Some(64), None)],
        ),
        iface(
            "en1",
            NetworkKind::Lan,
            InterfaceStatus::Up,
            vec![addr("192.168.1.20", Some(24), None), addr("10.0.0.2", Some(8), None)],
            vec![],
        ),
        iface("lo0", NetworkKind::Loopback, InterfaceStatus::Up, vec![addr("127.0.0.1", None, None)], vec![]),
    ]);
    let text = subnet_details(
        &app,
        &Subnet::Ipv4 {
            network: 0xC0A8_0100,
            prefix_len: 24,
        },
    );
    assert_eq!(
        text,
        "=== Subnet Information ===\n\n\
         Protocol:       IPv4\n\
         Network Addr:   192.168.1.0\n\
         Prefix Length:  24\n\
         Subnet Mask:    255.255.255.0\n\
         \nMember Interfaces:\n  - en0 (192.168.1.10)\n  - en1 (192.168.1.20)\n"
    );

    let v6 = subnet_details(
        &app,
        &Subnet::Ipv6 {
            network: 0xfe80_u128 << 112,
            prefix_len: 64,
        },
    );
    assert!(v6.contains("Protocol:       IPv6\nNetwork Addr:   fe80::\nPrefix Length:  64\n"));
    assert!(v6.ends_with("Member Interfaces:\n  - en0 (fe80::1)\n"));

    let unassigned = subnet_details(&app, &Subnet::Unassigned);
    assert!(unassigned.contains("Description:    Interfaces without an IP Address assigned.\n"));
    assert!(unassigned.ends_with("Member Interfaces:\n  - lo0 (no IP)\n"));

    assert_eq!(
        subnet_details(&App::default(), &Subnet::Unassigned),
        "=== Subnet Information ===\n\nProtocol:       N/A\n\
         Description:    Interfaces without an IP Address assigned.\n\nMember Interfaces:\n"
    );
}

#[test]
fn interface_details_show_addresses_and_counters() {
    let mut i = iface(
        "en0",
        NetworkKind::Lan,
        InterfaceStatus::Up,
        vec![addr("192.168.1.10", Some(24), Some("192.168.1.1"))],
        vec![addr("fe80::1", None, None)],
    );
    i.mac_address = Some("aa:bb:cc:dd:ee:ff".to_string());
    i.mtu = Some(1500);
    i.stats = Some(InterfaceStats {
        rx_bytes: 2048,
        tx_bytes: 1024,
        rx_packets: 20,
        tx_packets: 10,
    });
    assert_eq!(
        interface_details(&i),
        "Name:           en0\n\
         Classification: LAN\n\
         Status:         Active / Up\n\
         MAC Address:    aa:bb:cc:dd:ee:ff\n\
         MTU:            1500\n\
         \nIPv4 Addresses:\n  - 192.168.1.10 / 24 (Gateway: 192.168.1.1)\n\
         IPv6 Addresses:\n  - fe80::1 / ?\n\
         \nTraffic Cumulative Stats:\n  Packets: RX 20 / TX 10\n  Bytes:   RX 2048 / TX 1024\n"
    );

    let bare = iface("utun3", NetworkKind::Vpn, InterfaceStatus::Down, vec![], vec![]);
    assert_eq!(
        interface_details(&bare),
        "Name:           utun3\nClassification: VPN\nStatus:         Inactive / Down\n\
         MAC Address:    N/A\nMTU:            N/A\n\nIPv4 Addresses:\nIPv6 Addresses:\n\
         \nTraffic Cumulative Stats:\n  No stats available\n"
    );
}

#[test]
fn connection_details_map_the_local_interface_and_highlight_whois_owners() {
    let app = app_with(vec![iface(
        "en0",
        NetworkKind::Lan,
        InterfaceStatus::Up,
        vec![addr("192.168.1.10", Some(24), None)],
        vec![],
    )]);
    assert_eq!(
        endpoint_parts("17.1.2.3:443"),
        ("17.1.2.3".to_string(), "443".to_string())
    );
    assert_eq!(endpoint_parts("*"), ("*".to_string(), "*".to_string()));

    let lines = connection_detail_lines(
        &app,
        "tcp",
        "192.168.1.10:51234",
        "17.1.2.3:443",
        &Some("ESTABLISHED".to_string()),
        Some("NetRange: 17.0.0.0\nOrgName: Apple Inc.\nOriginAS: AS714"),
    );
    let texts: Vec<&str> = lines.iter().map(|(t, _)| t.as_str()).collect();
    assert_eq!(
        texts,
        vec![
            "=== Active Connection Details ===",
            "",
            "Protocol:             TCP",
            "Local IP Address:     192.168.1.10",
            "Local Port:           51234",
            "Foreign IP Address:   17.1.2.3",
            "Foreign Port:         443",
            "TCP State:            ESTABLISHED",
            "Associated Interface: en0 (LAN)",
            "",
            "[c: Copy IP | w: WHOIS Query]",
            "",
            "=== Whois Information ===",
            "NetRange: 17.0.0.0",
            "OrgName: Apple Inc.",
            "OriginAS: AS714",
        ]
    );
    let highlighted: Vec<bool> = lines.iter().map(|(_, h)| *h).collect();
    assert_eq!(
        highlighted,
        vec![false, false, false, false, false, false, false, false, false, false, false, false,
             false, false, true, true]
    );

    let loopback = connection_detail_lines(&app, "udp", "127.0.0.1:53", "*:*", &None, None);
    let texts: Vec<&str> = loopback.iter().map(|(t, _)| t.as_str()).collect();
    assert_eq!(texts.last(), Some(&"Associated Interface: lo0 (LOOPBACK)"));

    let pending = connection_detail_lines(&app, "tcp", "10.9.9.9:1", "8.8.8.8:53", &None, None);
    let texts: Vec<&str> = pending.iter().map(|(t, _)| t.as_str()).collect();
    assert!(texts.contains(&"Associated Interface: N/A (External/Wildcard)"));
    assert_eq!(texts.last(), Some(&"Press 'w' to fetch WHOIS information."));
}

#[test]
fn port_and_event_details_label_their_fields() {
    let port = port_detail_lines("tcp", "8080", "node", "4242", "alice");
    assert_eq!(port.len(), 10);
    assert_eq!(port[0][0].text, "=== Listening Port Details ===");
    assert_eq!(port[0][0].style.fg, Some(Tint::Cyan));
    assert!(port[1].is_empty());
    assert_eq!(port[2][1].text, "TCP");
    assert_eq!(port[3][1].text, "8080");
    assert_eq!(port[3][1].style.fg, Some(Tint::Yellow));
    assert_eq!(port[7][1].text, "node");
    assert_eq!(port[9][0].text, "User:       ");
    assert!(port[9][0].style.bold);

    let mut app = App::default();
    app.recent_events.push(NetworkEvent::new(
        NetworkEventKind::SystemError,
        EventSeverity::Error,
        "kill failed".to_string(),
    ));
    let event = event_detail_lines(&app, 0, NetworkEventKind::SystemError, "2024-01-01 00:00:00", "kill failed");
    assert_eq!(event.len(), 11);
    assert_eq!(event[2][1].text, "System Error");
    assert_eq!(event[3][1].text, "2024-01-01 00:00:00");
    assert_eq!(event[4][1].text, "ERROR");
    assert_eq!(event[4][1].style.fg, Some(Tint::Red));
    assert_eq!(event[6][1].text, "kill failed");
    assert_eq!(event[10][0].text, event_impact(NetworkEventKind::SystemError));

    let unknown = event_detail_lines(&app, 7, NetworkEventKind::InterfaceUp, "t", "m");
    assert_eq!(unknown[4][1].text, "INFO");
    assert_eq!(unknown[4][1].style.fg, Some(Tint::Green));
    assert_eq!(
        event_impact(NetworkEventKind::InterfaceUp),
        "Network interface is now active and up."
    );
}
