use std::time::SystemTime;

use lazyifconfig::app::App;
use lazyifconfig::collector::routes::{merge_additional_route_output, parse_routes};
use lazyifconfig::command::{
    ip_rule_command_spec_for_os, ipv6_route_table_command_spec_for_os, route_path_command_spec_for_os,
};
use lazyifconfig::model::{
    CommandOutput, CommandSourceId, EventSeverity, NetworkEventKind, PublicIpInfo, RoutePathResult,
};
use lazyifconfig::update::{AvailableUpdate, CheckOutcome, UpdateMessage, UpdateStatus};

fn output(command: &str) -> CommandOutput {
    CommandOutput {
        command: command.to_string(),
        stdout: String::new(),
        stderr: String::new(),
        executed_at: SystemTime::now(),
        exit_code: Some(0),
    }
}

#[test]
fn route_path_lookup_requires_destination() {
    let mut app = App::default();
    app.route_inspector.destination_input = "   ".to_string();
    app.route_inspector.latest_path_result = Some(RoutePathResult {
        destination: "8.8.8.8".to_string(),
        ..Default::default()
    });

    assert!(app.begin_route_path_lookup().is_none());

    assert!(app.route_inspector.latest_path_result.is_none());
    assert_eq!(
        app.route_inspector.latest_path_error.as_deref(),
        Some("Enter a destination first.")
    );
}

#[test]
fn route_path_lookup_trims_the_destination() {
    let mut app = App::default();
    app.route_inspector.destination_input = "  1.1.1.1 ".to_string();
    assert_eq!(app.begin_route_path_lookup().as_deref(), Some("1.1.1.1"));
    assert!(app.route_inspector.latest_path_error.is_none());
}

#[test]
fn route_path_outcomes_are_recorded() {
    let mut app = App::default();
    app.record_route_path(
        "linux",
        "8.8.8.8",
        Ok("8.8.8.8 via 10.8.0.1 dev utun4 src 10.8.0.2 uid 501\n    cache".to_string()),
    );
    let result = app.route_inspector.latest_path_result.clone().unwrap();
    assert_eq!(result.interface.as_deref(), Some("utun4"));
    assert!(result.is_vpn);
    assert!(app.route_inspector.latest_path_error.is_none());

    app.record_route_path("linux", "x", Ok("not a route".to_string()));
    assert!(app.route_inspector.latest_path_result.is_none());
    assert!(app.route_inspector.latest_path_error.is_some());

    app.record_route_path("macos", "8.8.8.8", Err("lookup failed".to_string()));
    assert!(app.route_inspector.latest_path_result.is_none());
    assert_eq!(
        app.route_inspector.latest_path_error.as_deref(),
        Some("destination could not be resolved by route command: lookup failed")
    );
}

#[test]
fn routes_raw_sources_include_available_optional_outputs_in_order() {
    let mut app = App::default();
    app.command_outputs.insert(CommandSourceId::RoutePath, output("ip route get 8.8.8.8"));
    app.command_outputs.insert(CommandSourceId::Ipv6Routes, output("ip -6 route show"));

    assert_eq!(
        app.routes_raw_sources(),
        vec![
            CommandSourceId::NetstatRoutes,
            CommandSourceId::DefaultRoute,
            CommandSourceId::Ipv6Routes,
            CommandSourceId::RoutePath,
        ]
    );
}

#[test]
fn raw_viewer_command_to_copy_prefers_captured_command_and_falls_back_to_source_label() {
    let mut app = App::default();
    app.command_outputs.insert(CommandSourceId::RoutePath, output("ip route get 8.8.8.8"));

    assert_eq!(
        app.raw_viewer_command_to_copy(CommandSourceId::RoutePath, "macos"),
        "ip route get 8.8.8.8"
    );
    assert_eq!(
        app.raw_viewer_command_to_copy(CommandSourceId::Ifconfig, "macos"),
        CommandSourceId::Ifconfig.as_str("macos")
    );
}

#[test]
fn command_outputs_replace_earlier_outputs_of_a_source() {
    let mut app = App::default();
    assert!(app.command_outputs.insert(CommandSourceId::Arp, output("arp -a")).is_none());
    let previous = app.command_outputs.insert(CommandSourceId::Arp, output("arp -an"));
    assert_eq!(previous.map(|o| o.command), Some("arp -a".to_string()));
    assert_eq!(app.command_outputs.get(&CommandSourceId::Arp).unwrap().command, "arp -an");
    assert!(app.command_outputs.get(&CommandSourceId::Ifconfig).is_none());
}

#[test]
fn additional_linux_ipv6_route_output_is_merged_into_snapshot_routes() {
    let routes = parse_routes("default via 172.17.0.1 dev eth0 proto static metric 100");

    let merged = merge_additional_route_output(
        routes,
        Some("default via fe80::1 dev eth0 proto ra metric 100\n2001:db8::/64 dev eth0 proto kernel metric 256"),
    );

    assert!(merged
        .iter()
        .any(|route| route.family == lazyifconfig::model::RouteFamily::Ipv6));
    assert_eq!(merged.len(), 3);
}

#[test]
fn route_lookup_commands_follow_the_platform() {
    let linux = route_path_command_spec_for_os("linux", "8.8.8.8");
    assert_eq!(linux.display, "ip route get 8.8.8.8");
    assert_eq!(linux.program, "ip");
    assert_eq!(linux.args, vec!["route", "get", "8.8.8.8"]);

    let mac = route_path_command_spec_for_os("macos", "8.8.8.8");
    assert_eq!(mac.display, "route -n get 8.8.8.8");
    assert_eq!(mac.program, "route");
    assert_eq!(mac.args, vec!["-n", "get", "8.8.8.8"]);

    assert_eq!(ipv6_route_table_command_spec_for_os("linux").unwrap().display, "ip -6 route show");
    assert!(ipv6_route_table_command_spec_for_os("macos").is_none());
    assert_eq!(ip_rule_command_spec_for_os("linux").unwrap().args, vec!["rule"]);
    assert!(ip_rule_command_spec_for_os("windows").is_none());
}

#[test]
fn public_ip_changes_are_put_on_the_timeline() {
    let mut app = App::default();
    let first = PublicIpInfo {
        ip: "1.2.3.4".to_string(),
        provider: Some("AS1 Example".to_string()),
        country: Some("KR".to_string()),
    };
    app.observe_public_ip(&first);
    assert!(app.recent_events.is_empty());
    assert_eq!(app.current_public_ip_info.as_ref().unwrap().ip, "1.2.3.4");

    app.observe_public_ip(&first);
    assert!(app.recent_events.is_empty());

    let second = PublicIpInfo { ip: "5.6.7.8".to_string(), provider: None, country: None };
    app.observe_public_ip(&second);
    assert_eq!(app.recent_events.len(), 2);
    assert_eq!(app.recent_events[0].kind, NetworkEventKind::PublicIpChanged);
    assert_eq!(app.recent_events[0].message, "Public IP Changed: 1.2.3.4 -> 5.6.7.8");
    assert_eq!(app.recent_events[1].kind, NetworkEventKind::ProviderChanged);
    assert_eq!(app.recent_events[1].message, "Provider Changed: AS1 Example -> Unknown");
    assert_eq!(app.current_public_ip_info.as_ref().unwrap().ip, "5.6.7.8");
}

fn update(version: &str) -> AvailableUpdate {
    AvailableUpdate {
        current_version: "0.1.0".to_string(),
        target_version: version.to_string(),
        release_url: String::new(),
        asset_name: String::new(),
        download_url: String::new(),
        release_notes: "notes".to_string(),
        release_date: String::new(),
    }
}

#[test]
fn finished_checks_and_installs_update_the_application() {
    let mut app = App::default();
    app.apply_update_message(UpdateMessage::CheckFinished {
        manual: true,
        result: Ok(CheckOutcome::Available(update("0.2.0"))),
    });
    assert!(matches!(&app.update_status, UpdateStatus::Available { version } if version == "0.2.0"));
    assert_eq!(app.pending_update.as_ref().unwrap().target_version, "0.2.0");
    assert_eq!(app.recent_events.len(), 1);
    assert_eq!(app.recent_events[0].message, "Update available: v0.2.0. Starting install.");
    assert!(app.should_start_auto_install());

    let started = app.start_update_install(false).unwrap();
    assert_eq!(started.target_version, "0.2.0");
    assert_eq!(app.attempted_update_version.as_deref(), Some("0.2.0"));
    assert!(matches!(&app.update_status, UpdateStatus::Installing { version, manual: false } if version == "0.2.0"));
    assert!(app.start_update_install(true).is_none());
    assert!(app.start_update_check(true).is_none());

    app.apply_update_message(UpdateMessage::InstallFinished {
        manual: false,
        version: "0.2.0".to_string(),
        result: Err("disk full".to_string()),
    });
    assert!(matches!(&app.update_status, UpdateStatus::Error { message } if message == "disk full"));
    assert_eq!(app.recent_events.last().unwrap().message, "Update install failed for v0.2.0: disk full");
    assert_eq!(app.recent_events.last().unwrap().severity, EventSeverity::Error);
    assert!(!app.should_start_auto_install());
}

#[test]
fn a_manual_install_without_an_update_leaves_a_note() {
    let mut app = App::default();
    assert!(app.start_update_install(true).is_none());
    assert_eq!(app.recent_events.len(), 1);
    assert_eq!(app.recent_events[0].message, "No pending update found. Press 'u' to check now.");
    assert!(app.start_update_install(false).is_none());
    assert_eq!(app.recent_events.len(), 1);
}

#[test]
fn a_check_starts_with_the_release_url() {
    let mut app = App::default();
    let url = app.start_update_check(true).unwrap();
    assert_eq!(url, "https://api.github.com/repos/choihunchul/lazyifconfig/releases/latest");
    assert!(matches!(app.update_status, UpdateStatus::Checking { manual: true }));
    assert!(app.start_update_check(false).is_none());
}
