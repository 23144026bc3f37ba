use lazyifconfig::model::{
    InterfaceAddress, InterfaceStatus, InterfaceType, NetworkInterface, NetworkKind,
    RouteDiagnosticSeverity, RouteEntry, RouteFamily, RouteGraphNodeKind, RoutePathResult,
};
use lazyifconfig::route_inspector::diagnostics::{build_route_diagnostics, is_default_route};
use lazyifconfig::route_inspector::graph::{build_route_graph, render_route_graph_lines};
use lazyifconfig::route_inspector::vpn::is_vpn_interface_name;

fn route(destination: &str, gateway: &str, interface: &str, metric: Option<u32>) -> RouteEntry {
    RouteEntry {
        destination: destination.to_string(),
        gateway: gateway.to_string(),
        interface: interface.to_string(),
        metric,
        protocol: None,
        flags: None,
        family: RouteFamily::Ipv4,
    }
}

fn interface(name: &str, status: InterfaceStatus) -> NetworkInterface {
    NetworkInterface {
        name: name.to_string(),
        network_kind: NetworkKind::Unknown,
        interface_type: InterfaceType::Unknown,
        status,
        ipv4: vec![InterfaceAddress::new("192.168.0.25")],
        ipv6: vec![],
        mac_address: None,
        mtu: None,
        stats: None,
    }
}

#[test]
fn detects_common_vpn_interface_names() {
    for name in ["tun0", "tap0", "utun4", "wg0", "tailscale0", "ztabc"] {
        assert!(is_vpn_interface_name(name), "{name} should be VPN");
    }

    for name in ["en0", "eth0", "lo0", "bridge0"] {
        assert!(!is_vpn_interface_name(name), "{name} should not be VPN");
    }
}

#[test]
fn vpn_names_ignore_ascii_case() {
    assert!(is_vpn_interface_name("UTUN3"));
    assert!(is_vpn_interface_name("WireGuard0") == false);
    assert!(is_vpn_interface_name("Wg1"));
    assert!(!is_vpn_interface_name(""));
}

#[test]
fn diagnostics_find_missing_and_multiple_default_routes() {
    let no_default = build_route_diagnostics(&[], &[]);
    assert!(no_default
        .iter()
        .any(|item| item.title == "No default route"));

    let routes = vec![
        route("default", "192.168.0.1", "en0", None),
        route("0.0.0.0/0", "10.8.0.1", "utun4", Some(100)),
    ];
    let diagnostics = build_route_diagnostics(&routes, &[]);

    assert!(diagnostics
        .iter()
        .any(|item| item.title == "Multiple default routes"));
}

#[test]
fn diagnostics_find_down_and_missing_interfaces() {
    let routes = vec![
        route("default", "192.168.0.1", "en0", None),
        route("10.8.0.0/24", "link", "utun4", None),
    ];
    let interfaces = vec![interface("en0", InterfaceStatus::Down)];

    let diagnostics = build_route_diagnostics(&routes, &interfaces);

    assert!(diagnostics
        .iter()
        .any(|item| item.title == "Route interface is down"));
    assert!(diagnostics
        .iter()
        .any(|item| item.title == "Route references missing interface"));
}

#[test]
fn diagnostics_mark_vpn_default_as_info() {
    let routes = vec![route("default", "10.8.0.1", "utun4", None)];
    let diagnostics = build_route_diagnostics(&routes, &[]);

    let item = diagnostics
        .iter()
        .find(|item| item.title == "VPN overrides default route")
        .unwrap();
    assert_eq!(item.severity, RouteDiagnosticSeverity::Info);
}

#[test]
fn diagnostics_come_in_a_fixed_order_and_report_each_problem_once() {
    let routes = vec![
        route(" Default ", "192.168.0.1", "wg0", None),
        route("default", "192.168.0.1", "en0", None),
        route("10.0.0.0/8", "10.0.0.1", "ghost", Some(5)),
        route("10.0.0.0/8", "10.0.0.2", "ghost", Some(5)),
        route("10.0.0.0/8", "10.0.0.3", "en0", Some(5)),
    ];
    let interfaces = vec![interface("en0", InterfaceStatus::Up), interface("wg0", InterfaceStatus::Up)];
    let diagnostics = build_route_diagnostics(&routes, &interfaces);
    let titles: Vec<&str> = diagnostics.iter().map(|d| d.title.as_str()).collect();
    assert_eq!(
        titles,
        vec![
            "Multiple default routes",
            "VPN overrides default route",
            "Route references missing interface",
            "Route metric conflict",
        ]
    );
    assert_eq!(diagnostics[0].affected_route.as_ref().unwrap().interface, "wg0");
    assert_eq!(diagnostics[2].affected_route.as_ref().unwrap().gateway, "10.0.0.1");
    assert_eq!(diagnostics[3].affected_route.as_ref().unwrap().gateway, "10.0.0.2");
    assert_eq!(
        diagnostics[3].recommendation,
        "Adjust route metrics so route selection is deterministic."
    );
}

#[test]
fn default_route_detection_trims_and_ignores_case() {
    assert!(is_default_route(&route("  DEFAULT ", "", "", None)));
    assert!(is_default_route(&route("0.0.0.0/0", "", "", None)));
    assert!(!is_default_route(&route("0.0.0.0", "", "", None)));
}

#[test]
fn graph_renders_plain_and_vpn_paths() {
    let plain = RoutePathResult {
        destination: "8.8.8.8".to_string(),
        resolved_destination: Some("8.8.8.8".to_string()),
        source_ip: Some("192.168.0.25".to_string()),
        interface: Some("en0".to_string()),
        gateway: Some("192.168.0.1".to_string()),
        is_vpn: false,
        raw_output: String::new(),
    };
    let graph = build_route_graph(&plain);
    let lines = render_route_graph_lines(&graph);
    assert!(lines.iter().any(|line| line.contains("This Host")));
    assert!(lines.iter().any(|line| line.contains("Gateway")));
    assert!(lines.iter().any(|line| line.contains("8.8.8.8")));

    let vpn = RoutePathResult {
        interface: Some("utun4".to_string()),
        is_vpn: true,
        ..plain
    };
    let graph = build_route_graph(&vpn);
    let lines = render_route_graph_lines(&graph);
    assert!(lines.iter().any(|line| line.contains("VPN Tunnel")));
    assert!(lines.iter().any(|line| line.contains("utun4")));
}

#[test]
fn graph_boxes_are_exact_and_take_five_lines_per_hop() {
    let path = RoutePathResult {
        destination: "example.com".to_string(),
        resolved_destination: None,
        source_ip: None,
        interface: None,
        gateway: Some("link#4".to_string()),
        is_vpn: false,
        raw_output: String::new(),
    };
    let graph = build_route_graph(&path);
    let kinds: Vec<RouteGraphNodeKind> = graph.nodes.iter().map(|n| n.kind).collect();
    assert_eq!(
        kinds,
        vec![RouteGraphNodeKind::Host, RouteGraphNodeKind::Internet, RouteGraphNodeKind::Destination]
    );
    let lines = render_route_graph_lines(&graph);
    assert_eq!(lines.len(), 5 * 3 - 2);
    assert_eq!(lines[0], "┌───────────┐");
    assert_eq!(lines[1], "│ This Host │");
    assert_eq!(lines[2], "└───────────┘");
    assert_eq!(lines[3], "   │");
    assert_eq!(lines[4], "   ▼");
    assert_eq!(lines[11], "│ example.com · Destination │");
}

#[test]
fn graph_cuts_long_labels() {
    let long = "a".repeat(40);
    let path = RoutePathResult {
        destination: long.clone(),
        resolved_destination: None,
        source_ip: None,
        interface: None,
        gateway: None,
        is_vpn: false,
        raw_output: String::new(),
    };
    let lines = render_route_graph_lines(&build_route_graph(&path));
    let expected = format!("│ {}... · Destination │", "a".repeat(32));
    assert_eq!(lines[lines.len() - 2], expected);
}

#[test]
fn parses_linux_route_get_output() {
    let output = "8.8.8.8 via 172.17.0.1 dev eth0 src 172.17.0.2 uid 501\n    cache";

    let result = lazyifconfig::collector::routes::parse_linux_route_path("8.8.8.8", output).unwrap();

    assert_eq!(result.destination, "8.8.8.8");
    assert_eq!(result.resolved_destination.as_deref(), Some("8.8.8.8"));
    assert_eq!(result.gateway.as_deref(), Some("172.17.0.1"));
    assert_eq!(result.interface.as_deref(), Some("eth0"));
    assert_eq!(result.source_ip.as_deref(), Some("172.17.0.2"));
    assert_eq!(result.raw_output, output);
}

#[test]
fn rejects_malformed_linux_route_get_output() {
    assert!(lazyifconfig::collector::routes::parse_linux_route_path("x", "not a route").is_err());
}

#[test]
fn parses_macos_route_get_output() {
    let output = "\
   route to: 8.8.8.8
destination: default
       mask: default
    gateway: 192.168.0.1
  interface: en0
      flags: <UP,GATEWAY,DONE,STATIC,PRCLONING>
 recvpipe  sendpipe  ssthresh  rtt,msec    rttvar  hopcount      mtu     expire
       0         0         0         0         0         0      1500         0
";

    let result = lazyifconfig::collector::routes::parse_macos_route_path("8.8.8.8", output).unwrap();

    assert_eq!(result.destination, "8.8.8.8");
    assert_eq!(result.resolved_destination.as_deref(), Some("8.8.8.8"));
    assert_eq!(result.gateway.as_deref(), Some("192.168.0.1"));
    assert_eq!(result.interface.as_deref(), Some("en0"));
    assert_eq!(result.raw_output, output);
}

#[test]
fn rejects_malformed_macos_route_get_output() {
    assert!(lazyifconfig::collector::routes::parse_macos_route_path("x", "not a route").is_err());
}

#[test]
fn blank_route_get_output_is_an_error() {
    assert!(lazyifconfig::collector::routes::parse_linux_route_path("x", "  \n").is_err());
    assert!(lazyifconfig::collector::routes::parse_macos_route_path("x", " \n ").is_err());
}

#[test]
fn linux_route_get_without_gateway_has_no_gateway() {
    let result = lazyifconfig::collector::routes::parse_linux_route_path(
        "192.168.0.7",
        "192.168.0.7 dev en0 src 192.168.0.2 uid 501\n    cache",
    )
    .unwrap();
    assert_eq!(result.gateway, None);
    assert_eq!(result.interface.as_deref(), Some("en0"));
    assert_eq!(result.destination, "192.168.0.7");
}

#[test]
fn parses_macos_ipv4_and_ipv6_routes_with_metadata() {
    let sample = "\
Routing tables

Internet:
Destination        Gateway            Flags               Netif Expire
default            192.168.0.1        UGScg                 en0
10.8.0.0/24        link#20            UCS                 utun4

Internet6:
Destination                             Gateway                         Flags               Netif Expire
default                                 fe80::1%en0                     UGcI                  en0
::1                                     ::1                             UHL                   lo0
";

    let routes = lazyifconfig::collector::routes::parse_routes(sample);

    assert_eq!(routes.len(), 4);
    assert_eq!(routes[0].destination, "default");
    assert_eq!(routes[0].gateway, "192.168.0.1");
    assert_eq!(routes[0].interface, "en0");
    assert_eq!(routes[0].flags.as_deref(), Some("UGScg"));
    assert_eq!(routes[0].family, RouteFamily::Ipv4);

    assert_eq!(routes[2].destination, "default");
    assert_eq!(routes[2].gateway, "fe80::1%en0");
    assert_eq!(routes[2].interface, "en0");
    assert_eq!(routes[2].family, RouteFamily::Ipv6);
}

#[test]
fn does_not_parse_linux_route_get_output_as_table_route() {
    let output = "8.8.8.8 via 172.17.0.1 dev eth0 src 172.17.0.2 uid 501\n    cache";

    let routes = lazyifconfig::collector::routes::parse_routes(output);

    assert!(routes.is_empty());
}

#[test]
fn every_route_through_a_down_interface_is_reported() {
    let routes = vec![
        route("default", "192.168.0.1", "en0", None),
        route("10.0.0.0/8", "10.0.0.1", "en1", None),
        route("172.16.0.0/12", "10.0.0.1", "en1", None),
    ];
    let interfaces = vec![interface("en0", InterfaceStatus::Up), interface("en1", InterfaceStatus::Down)];
    let diagnostics = build_route_diagnostics(&routes, &interfaces);
    let down: Vec<&str> = diagnostics
        .iter()
        .filter(|d| d.title == "Route interface is down")
        .map(|d| d.affected_route.as_ref().unwrap().destination.as_str())
        .collect();
    assert_eq!(down, vec!["10.0.0.0/8", "172.16.0.0/12"]);
    assert_eq!(diagnostics.len(), 2);
}
