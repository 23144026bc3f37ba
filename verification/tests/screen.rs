use lazyifconfig::app::{App, NavigationItem, ViewMode};
use lazyifconfig::panes::{
    event_detail_lines, event_row, header_spans, help_lines, interface_row, release_header_lines,
    subnet_label,
};
use lazyifconfig::model::{
    EventSeverity, NetworkEvent, NetworkEventKind, NetworkSnapshot, Subnet, RouteDiagnostic, RouteDiagnosticSeverity, RouteEntry, RouteFamily,
    RouteInspectorSection, RoutePathResult,
};
use lazyifconfig::screen::{
    build_command_panel, command_panel_height, details_pane, details_placeholder_lines,
    get_status_text, recent_event_lines, DetailsPane,
    route_diagnostic_lines,
    route_inspector_lines, route_path_lines, route_summary_lines, route_table_detail_lines,
    view_tabs, vpn_route_lines, TextSpan, Tint,
};
use lazyifconfig::update::{AvailableUpdate, UpdateStatus};

fn route_entry(destination: &str, gateway: &str, interface: &str, family: RouteFamily) -> RouteEntry {
    RouteEntry {
        destination: destination.to_string(),
        gateway: gateway.to_string(),
        interface: interface.to_string(),
        metric: Some(100),
        protocol: Some("static".to_string()),
        flags: Some("UGSc".to_string()),
        family,
    }
}

fn route_test_app(section: RouteInspectorSection) -> App {
    let mut app = App::default();
    app.view_mode = ViewMode::Routes;
    app.route_inspector.active_section = section;
    app.current_snapshot = Some(NetworkSnapshot {
        routes: vec![
            route_entry("default", "192.168.0.1", "en0", RouteFamily::Ipv4),
            route_entry("10.8.0.0/24", "10.8.0.1", "utun4", RouteFamily::Ipv4),
        ],
        ..NetworkSnapshot::default()
    });
    app.update_navigation_items();
    app
}

fn text_of(lines: &[Vec<TextSpan>]) -> String {
    lines
        .iter()
        .flat_map(|line| line.iter().map(|span| span.text.clone()))
        .collect::<String>()
}

#[test]
fn test_status_text_is_compact_without_raw_output_hint() {
    let modes = [
        ViewMode::Interface,
        ViewMode::Network,
        ViewMode::Connections,
        ViewMode::Ports,
        ViewMode::Timeline,
        ViewMode::Routes,
    ];

    for mode in modes {
        let mut app = App::default();
        app.view_mode = mode;
        let status = get_status_text(&app);

        assert!(!status.contains("Raw Output"));
        let max_len = if mode == ViewMode::Routes { 100 } else { 90 };
        assert!(status.len() <= max_len, "status too long for {:?}: {}", mode, status);
    }
}

#[test]
fn test_status_text_mentions_update_actions() {
    let app = App::default();
    let status = get_status_text(&app);

    assert!(status.contains("u check"));
    assert!(status.contains("U update"));
    assert!(status.contains("R notes"));
}

#[test]
fn status_text_follows_input_modes() {
    let mut app = App::default();
    assert_eq!(get_status_text(&app), " q | r | u check | U update | R notes | a:off | i/n/c/p/e/g ");
    app.show_all = true;
    assert!(get_status_text(&app).contains("a:on"));
    app.view_mode = ViewMode::Ports;
    app.port_filter_active = true;
    assert_eq!(get_status_text(&app), " filter: type | Enter apply | Esc clear | Backspace delete ");
    app.view_mode = ViewMode::Routes;
    app.route_inspector.destination_input_active = true;
    assert_eq!(get_status_text(&app), " destination: type | Enter lookup | Esc cancel | Backspace delete ");
}

#[test]
fn test_route_table_detail_uses_active_filter() {
    let mut app = route_test_app(RouteInspectorSection::RouteTable);
    app.route_inspector.route_filter = "utun4".to_string();
    app.update_navigation_items();

    let rendered = text_of(&route_table_detail_lines(&app));

    assert!(rendered.contains("10.8.0.0/24"));
    assert!(!rendered.contains("192.168.0.1"));
}

#[test]
fn route_table_rows_are_padded_columns() {
    let app = route_test_app(RouteInspectorSection::RouteTable);
    let lines = route_table_detail_lines(&app);
    assert_eq!(lines.len(), 5);
    assert_eq!(
        lines[4][0].text,
        "default            192.168.0.1      en0        100     static  UGSc    IPv4"
    );
    assert_eq!(lines[4][0].style.fg, Some(Tint::Green));
    assert_eq!(lines[3][0].text.trim_end(), "10.8.0.0/24        10.8.0.1         utun4      100     static  UGSc    IPv4");
    assert_eq!(lines[3][0].style.fg, Some(Tint::Yellow));
}

#[test]
fn test_route_diagnostics_color_all_diagnostic_components_by_severity() {
    let mut app = route_test_app(RouteInspectorSection::Diagnostics);
    app.route_inspector.diagnostics = vec![RouteDiagnostic {
        severity: RouteDiagnosticSeverity::Warning,
        title: "Route interface is down".to_string(),
        description: "A route points to an interface that is currently down.".to_string(),
        affected_route: Some(route_entry("default", "192.168.0.1", "en0", RouteFamily::Ipv4)),
        recommendation: "Bring the interface up or remove the stale route.".to_string(),
    }];

    let lines = route_diagnostic_lines(&app);

    assert_eq!(lines[2][0].style.fg, Some(Tint::Yellow));
    assert_eq!(lines[3][0].style.fg, Some(Tint::Yellow));
    assert_eq!(lines[3][1].style.fg, Some(Tint::Yellow));
    assert_eq!(lines[4][0].style.fg, Some(Tint::Yellow));
    assert_eq!(lines[4][1].style.fg, Some(Tint::Yellow));
    assert_eq!(lines[5][0].style.fg, Some(Tint::Yellow));
    assert_eq!(lines[5][1].style.fg, Some(Tint::Yellow));
    assert_eq!(lines[4][1].text, "default via 192.168.0.1 dev en0 (IPv4)");
}

#[test]
fn diagnostics_page_without_findings_is_green() {
    let app = route_test_app(RouteInspectorSection::Diagnostics);
    let lines = route_diagnostic_lines(&app);
    assert_eq!(lines.len(), 3);
    assert_eq!(lines[2][0].text, "No routing warnings detected.");
    assert_eq!(lines[2][0].style.fg, Some(Tint::Green));
}

#[test]
fn summary_names_the_default_route_and_counts_routes() {
    let mut app = route_test_app(RouteInspectorSection::Summary);
    app.refresh_route_diagnostics();
    let lines = route_summary_lines(&app);
    let rendered = text_of(&lines);
    assert!(rendered.contains("Route Summary"));
    assert!(rendered.contains("Default Gateway: 192.168.0.1"));
    assert!(rendered.contains("Default Interface: en0"));
    assert!(rendered.contains("IPv4 Routes: 2"));
    assert!(rendered.contains("IPv6 Routes: 0"));
    assert!(rendered.contains("VPN: Connected"));
    assert!(rendered.contains("First VPN Interface: utun4"));
    assert!(rendered.contains("Warnings: 0"));

    let empty = App { view_mode: ViewMode::Routes, ..App::default() };
    let rendered = text_of(&route_summary_lines(&empty));
    assert!(rendered.contains("No default route"));
    assert!(rendered.contains("VPN: Disconnected"));
    assert!(rendered.contains("First VPN Interface: None"));
}

#[test]
fn vpn_page_lists_tunnel_routes() {
    let app = route_test_app(RouteInspectorSection::VpnRoutes);
    let lines = vpn_route_lines(&app);
    assert_eq!(lines.len(), 3);
    assert_eq!(text_of(&lines[2..]), "Destination: 10.8.0.0/24  Interface: utun4  Gateway: 10.8.0.1");
    let none = App::default();
    assert_eq!(text_of(&vpn_route_lines(&none)[2..]), "No VPN routes detected.");
}

#[test]
fn path_page_shows_the_path_the_error_or_a_hint() {
    let mut app = route_test_app(RouteInspectorSection::PathViewer);
    let hint = route_path_lines(&app);
    assert_eq!(text_of(&hint[4..]), "Enter a destination and press Enter to inspect the route.");

    app.route_inspector.destination_input_active = true;
    let editing = route_path_lines(&app);
    assert_eq!(editing[2].len(), 3);

    app.route_inspector.latest_path_error = Some("boom".to_string());
    assert_eq!(route_path_lines(&app)[4][0].style.fg, Some(Tint::Red));

    app.route_inspector.latest_path_result = Some(RoutePathResult {
        destination: "8.8.8.8".to_string(),
        interface: Some("en0".to_string()),
        gateway: Some("192.168.0.1".to_string()),
        ..Default::default()
    });
    let rendered = text_of(&route_inspector_lines(&app));
    assert!(rendered.contains("This Host"));
    assert!(rendered.contains("8.8.8.8"));
}

#[test]
fn tabs_highlight_the_current_view() {
    let spans = view_tabs(ViewMode::Ports);
    assert_eq!(spans.len(), 11);
    assert_eq!(spans[0].text, " Interface(i) ");
    assert_eq!(spans[1].text, " | ");
    assert_eq!(spans[4].text, " Port(p) ");
    assert_eq!(spans[4].style.bg, Some(Tint::Yellow));
    assert_eq!(spans[0].style.bg, None);
    assert_eq!(spans[10].text, " Timeline(e) ");
}

#[test]
fn command_panel_shows_the_command_or_the_update_banner() {
    let app = App::default();
    let (lines, _) = build_command_panel(&app, "linux", "0.1.0");
    assert_eq!(
        text_of(&lines),
        "$ ip -details -statistics address show   v0.1.0   o[output] ?[help]"
    );
    assert_eq!(command_panel_height(&app), 1);

    let mut ready = App::default();
    ready.update_status = UpdateStatus::Available { version: "0.2.0".to_string() };
    ready.pending_update = Some(AvailableUpdate {
        current_version: "0.1.0".to_string(),
        target_version: "0.2.0".to_string(),
        release_url: String::new(),
        asset_name: String::new(),
        download_url: String::new(),
        release_notes: "## Changes\n- faster\n".to_string(),
        release_date: String::new(),
    });
    let (lines, background) = build_command_panel(&ready, "macos", "0.1.0");
    assert_eq!(lines.len(), 2);
    assert_eq!(lines[0][0].text, " UPDATE READY ");
    assert_eq!(lines[0][2].text, "v0.2.0");
    assert!(lines[0][4].style.blink);
    assert_eq!(lines[1][0].text, " Notes: ");
    assert_eq!(background.bg, Some(Tint::DarkGray));
    assert_eq!(command_panel_height(&ready), 2);

    let mut failed = App::default();
    failed.update_status = UpdateStatus::Error { message: "x".to_string() };
    let (lines, _) = build_command_panel(&failed, "linux", "0.1.0");
    assert_eq!(text_of(&lines), " UPDATE FAILED  press u to check again");
}

fn spans_text(spans: &[TextSpan]) -> String {
    spans.iter().map(|span| span.text.clone()).collect::<String>()
}

/// The text that the front end draws for an application state, apart from
/// the pop-ups: header, tabs, rows, details of the route inspector, command
/// panel and status bar.
fn screen_text(app: &App) -> String {
    let mut out = spans_text(&header_spans("Linux"));
    out.push_str(&spans_text(&view_tabs(app.view_mode)));
    for item in &app.navigation_items {
        match item {
            NavigationItem::SubnetHeader(subnet) => out.push_str(&subnet_label(subnet)),
            NavigationItem::Interface { name, associated_ip } => {
                out.push_str(&interface_row(app, name, associated_ip).0)
            }
            NavigationItem::Event { kind, message, .. } => {
                out.push_str(&event_row("00:00:00", *kind, message))
            }
            _ => {}
        }
    }
    if app.view_mode == ViewMode::Routes {
        out.push_str(&text_of(&route_inspector_lines(app)));
    }
    out.push_str(&text_of(&build_command_panel(app, "linux", "0.1.0").0));
    out.push_str(&get_status_text(app));
    out
}

#[test]
fn test_ui_draw_no_panic() {
    let app = App::default();
    let rendered = screen_text(&app);
    assert!(rendered.contains("Interface(i)"));
    assert!(rendered.contains("o[output]"));
}

#[test]
fn test_ui_draw_network_view_no_panic() {
    let mut app = App::default();
    app.view_mode = ViewMode::Network;
    app.navigation_items = vec![
        NavigationItem::SubnetHeader(Subnet::Unassigned),
        NavigationItem::Interface {
            name: "en0".to_string(),
            associated_ip: Some("192.168.0.15".to_string()),
        },
    ];
    let rendered = screen_text(&app);
    assert!(rendered.contains("▼ Unassigned / No IP"));
    assert!(rendered.contains("  ○ en0 (192.168.0.15)"));
}

#[test]
fn test_ui_draw_timeline_view_no_panic() {
    let mut app = App::default();
    app.view_mode = ViewMode::Timeline;
    app.recent_events.push(NetworkEvent::new(
        NetworkEventKind::VpnConnected,
        EventSeverity::Info,
        "utun0 connected".to_string(),
    ));
    app.update_navigation_items();
    let rendered = screen_text(&app);
    assert!(rendered.contains("[VPN Connected] utun0 connected"));
    let details = event_detail_lines(&app, 0, NetworkEventKind::VpnConnected, "t", "utun0 connected");
    assert_eq!(details[4][1].text, "INFO");
}

#[test]
fn test_ui_draw_routes_summary_section() {
    let app = route_test_app(RouteInspectorSection::Summary);
    let rendered = screen_text(&app);
    assert!(rendered.contains("Route Summary"));
    assert!(rendered.contains("192.168.0.1"));
    assert!(rendered.contains("VPN"));
}

#[test]
fn test_ui_draw_routes_path_viewer_with_result() {
    let mut app = route_test_app(RouteInspectorSection::PathViewer);
    app.route_inspector.latest_path_result = Some(RoutePathResult {
        destination: "8.8.8.8".to_string(),
        resolved_destination: Some("8.8.8.8".to_string()),
        source_ip: Some("192.168.0.25".to_string()),
        interface: Some("en0".to_string()),
        gateway: Some("192.168.0.1".to_string()),
        is_vpn: false,
        raw_output: String::new(),
    });
    let rendered = screen_text(&app);
    assert!(rendered.contains("Path Viewer"));
    assert!(rendered.contains("This Host"));
    assert!(rendered.contains("8.8.8.8"));
}

#[test]
fn test_ui_draw_routes_diagnostics_section() {
    let mut app = route_test_app(RouteInspectorSection::Diagnostics);
    app.route_inspector.diagnostics = vec![RouteDiagnostic {
        severity: RouteDiagnosticSeverity::Warning,
        title: "Route interface is down".to_string(),
        description: "A route points to an interface that is currently down.".to_string(),
        affected_route: Some(route_entry("default", "192.168.0.1", "en0", RouteFamily::Ipv4)),
        recommendation: "Bring the interface up or remove the stale route.".to_string(),
    }];
    let rendered = screen_text(&app);
    assert!(rendered.contains("Diagnostics"));
    assert!(rendered.contains("Route interface is down"));
    assert!(rendered.contains("Recommendation"));
}

#[test]
fn test_ui_draw_routes_details_without_selected_route() {
    let mut app = App {
        view_mode: ViewMode::Routes,
        current_snapshot: Some(NetworkSnapshot::default()),
        ..Default::default()
    };
    app.route_inspector.active_section = RouteInspectorSection::Summary;
    app.update_navigation_items();
    let rendered = screen_text(&app);
    assert!(rendered.contains("Route Summary"));
    assert!(rendered.contains("No default route"));
    assert!(!rendered.contains("No data collected yet"));
}

#[test]
fn test_command_line_shows_output_and_help_hints() {
    let app = App::default();
    let rendered = screen_text(&app);
    assert!(rendered.contains("o[output]"));
    assert!(rendered.contains("?[help]"));
}

#[test]
fn test_top_tabs_show_view_shortcuts() {
    let mut app = App::default();
    app.view_mode = ViewMode::Ports;
    let rendered = screen_text(&app);
    assert!(rendered.contains("Interface(i)"));
    assert!(rendered.contains("Network(n)"));
    assert!(rendered.contains("Port(p)"));
    assert!(rendered.contains("Connection(c)"));
    assert!(rendered.contains("Route(g)"));
    assert!(rendered.contains("Timeline(e)"));
}

#[test]
fn test_top_header_shows_app_name_and_os() {
    let rendered = spans_text(&header_spans("Ubuntu 24.04 LTS"));
    assert!(rendered.contains("🦥"));
    assert!(rendered.contains("Lazyifconfig"));
    assert!(rendered.contains(" - "));
    assert!(rendered.contains("Ubuntu 24.04 LTS"));
}

#[test]
fn test_update_available_renders_loud_banner() {
    let mut app = App::default();
    app.update_status = UpdateStatus::Available {
        version: "9.9.9".to_string(),
    };
    app.pending_update = Some(AvailableUpdate {
        current_version: "0.1.0".to_string(),
        target_version: "9.9.9".to_string(),
        release_url: "https://example.com/release".to_string(),
        asset_name: "lazyifconfig-v9.9.9-aarch64-apple-darwin.tar.gz".to_string(),
        download_url: "https://example.com/release.tar.gz".to_string(),
        release_notes: "Big networking refresh\nFaster route parsing\nExtra diagnostics".to_string(),
        release_date: String::new(),
    });
    let rendered = screen_text(&app);
    assert!(rendered.contains("UPDATE READY"));
    assert!(rendered.contains("PRESS U TO INSTALL"));
    assert!(rendered.contains("v9.9.9"));
    assert!(rendered.contains("Big networking refresh"));
}

#[test]
fn test_help_mentions_update_shortcuts() {
    let rendered = help_lines().join("\n");
    assert!(rendered.contains("u check updates"));
    assert!(rendered.contains("U apply update"));
    assert!(rendered.contains("R release notes"));
}

#[test]
fn test_release_notes_popup_renders_full_body() {
    let update = AvailableUpdate {
        current_version: "0.1.0".to_string(),
        target_version: "9.9.9".to_string(),
        release_url: "https://example.com/release".to_string(),
        asset_name: "lazyifconfig-v9.9.9-aarch64-apple-darwin.tar.gz".to_string(),
        download_url: "https://example.com/release.tar.gz".to_string(),
        release_notes: "## Highlights\n- Faster scans\n- Better update UI\n- Route fixes".to_string(),
        release_date: String::new(),
    };
    let header = text_of(&release_header_lines(&update));
    assert!(header.contains("Version: v9.9.9"));
    assert!(header.contains("https://example.com/release"));
    assert!(update.release_notes.contains("Faster scans"));
    assert!(update.release_notes.contains("Better update UI"));
}

#[test]
fn recent_events_show_the_newest_ten_first_with_their_colour() {
    let mut app = App::default();
    for i in 0..12 {
        let severity = match i % 3 {
            0 => EventSeverity::Info,
            1 => EventSeverity::Warning,
            _ => EventSeverity::Error,
        };
        app.recent_events.push(NetworkEvent::new(
            NetworkEventKind::InterfaceUp,
            severity,
            format!("event {i}"),
        ));
    }
    let clocks: Vec<String> = (0..12).map(|i| format!("10:00:{i:02}")).collect();
    let lines = recent_event_lines(&app, &clocks);
    assert_eq!(lines.len(), 10);
    assert_eq!(lines[0].text, "[10:00:11] event 11");
    assert_eq!(lines[0].style.fg, Some(Tint::Red));
    assert_eq!(lines[1].text, "[10:00:10] event 10");
    assert_eq!(lines[1].style.fg, Some(Tint::Yellow));
    assert_eq!(lines[2].style.fg, None);
    assert_eq!(lines[9].text, "[10:00:02] event 2");
}

#[test]
fn details_pane_follows_the_view_and_the_selection() {
    let mut app = App::default();
    assert_eq!(details_pane(&app), DetailsPane::Placeholder);
    assert_eq!(
        text_of(&details_placeholder_lines()),
        "No data collected yet. Press 'r' to refresh."
    );
    app.view_mode = ViewMode::Routes;
    assert_eq!(details_pane(&app), DetailsPane::RouteInspector);
    app.view_mode = ViewMode::Interface;
    app.navigation_items.push(NavigationItem::Interface {
        name: "en0".to_string(),
        associated_ip: None,
    });
    assert_eq!(details_pane(&app), DetailsPane::Selected(0));
}
