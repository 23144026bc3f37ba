use lazyifconfig::command::{
    command_output, default_route_command_spec_for_os, interface_command_spec_for_os,
    kill_output, listening_output, route_table_command_spec_for_os, whois_output, CommandResult,
};

#[test]
fn interface_command_uses_ip_on_linux() {
    let command = interface_command_spec_for_os("linux");

    assert_eq!(command.display, "ip -details -statistics address show");
    assert_eq!(command.program, "ip");
    assert_eq!(command.args, &["-details", "-statistics", "address", "show"]);
}

#[test]
fn interface_command_uses_ifconfig_on_non_linux() {
    let command = interface_command_spec_for_os("macos");

    assert_eq!(command.display, "ifconfig");
    assert_eq!(command.program, "ifconfig");
    assert!(command.args.is_empty());
}

#[test]
fn route_commands_use_ip_on_linux() {
    let routes = route_table_command_spec_for_os("linux");
    let default_route = default_route_command_spec_for_os("linux");

    assert_eq!(routes.display, "ip route show");
    assert_eq!(routes.program, "ip");
    assert_eq!(routes.args, &["route", "show"]);
    assert_eq!(default_route.display, "ip route show default");
    assert_eq!(default_route.program, "ip");
    assert_eq!(default_route.args, &["route", "show", "default"]);
}

#[test]
fn route_commands_use_legacy_tools_on_non_linux() {
    let routes = route_table_command_spec_for_os("macos");
    let default_route = default_route_command_spec_for_os("macos");

    assert_eq!(routes.display, "netstat -rn");
    assert_eq!(routes.program, "netstat");
    assert_eq!(routes.args, &["-rn"]);
    assert_eq!(default_route.display, "route -n get default");
    assert_eq!(default_route.program, "route");
    assert_eq!(default_route.args, &["-n", "get", "default"]);
}

fn result(stdout: &str, stderr: &str, exit_code: Option<i32>) -> CommandResult {
    CommandResult {
        stdout: stdout.to_string(),
        stderr: stderr.to_string(),
        exit_code,
    }
}

#[test]
fn clean_run_gives_output_and_failed_run_gives_error() {
    assert_eq!(command_output(result("out", "err", Some(0))), Ok("out".to_string()));
    assert_eq!(command_output(result("out", "err", Some(1))), Err("err".to_string()));
    assert_eq!(command_output(result("out", "err", None)), Err("err".to_string()));
}

#[test]
fn lsof_without_listeners_is_not_an_error() {
    assert_eq!(listening_output(result("", "  \n", Some(1))), Ok(String::new()));
    assert_eq!(
        listening_output(result("", "lsof: denied", Some(1))),
        Err("lsof: denied".to_string())
    );
    assert_eq!(listening_output(result("rows", "", Some(0))), Ok("rows".to_string()));
}

#[test]
fn whois_keeps_records_printed_by_a_failed_run() {
    assert_eq!(
        whois_output(result("Registrar: X", "warn", Some(2))),
        Ok("Registrar: X".to_string())
    );
    assert_eq!(whois_output(result(" \n", "no match", Some(1))), Err("no match".to_string()));
}

#[test]
fn kill_reports_trimmed_error() {
    assert_eq!(kill_output(result("", "", Some(0))), Ok(()));
    assert_eq!(
        kill_output(result("", "  kill: no such process\n", Some(1))),
        Err("kill: no such process".to_string())
    );
}

#[test]
fn windows_commands_use_native_tools() {
    let interfaces = interface_command_spec_for_os("windows");
    assert_eq!(interfaces.display, "ipconfig /all");
    assert_eq!(interfaces.program, "ipconfig");
    assert_eq!(interfaces.args, &["/all"]);

    let routes = route_table_command_spec_for_os("windows");
    assert_eq!(routes.display, "route PRINT");
    assert_eq!(routes.program, "route");
    assert_eq!(routes.args, &["PRINT"]);

    let default_route = default_route_command_spec_for_os("windows");
    assert_eq!(default_route.display, "route PRINT 0.0.0.0");
    assert_eq!(default_route.args, &["PRINT", "0.0.0.0"]);

    let ports = lazyifconfig::command::listening_ports_command_spec_for_os("windows");
    assert_eq!(ports.display, "netstat -ano -p tcp");
    assert_eq!(ports.args, &["-ano", "-p", "tcp"]);
    assert_eq!(
        lazyifconfig::command::listening_ports_command_spec_for_os("linux").display,
        "ss -H -ltnp"
    );
    assert_eq!(
        lazyifconfig::command::listening_ports_command_spec_for_os("macos").args,
        &["-iTCP", "-sTCP:LISTEN", "-P", "-n"]
    );
    assert_eq!(
        lazyifconfig::view::get_active_command(lazyifconfig::app::ViewMode::Interface, "windows"),
        "ipconfig /all"
    );
}

#[test]
fn raw_output_labels_name_the_command_that_runs_on_each_system() {
    use_labels_for("linux");
    use_labels_for("macos");
    use_labels_for("windows");
    assert_eq!(
        lazyifconfig::model::CommandSourceId::Ifconfig.as_str("windows"),
        "ipconfig /all"
    );
    assert_eq!(
        lazyifconfig::model::CommandSourceId::NetstatRoutes.as_str("windows"),
        "route PRINT"
    );
    assert_eq!(
        lazyifconfig::model::CommandSourceId::DefaultRoute.as_str("windows"),
        "route PRINT 0.0.0.0"
    );
}

fn use_labels_for(os: &str) {
    assert_eq!(
        lazyifconfig::model::CommandSourceId::Ifconfig.as_str(os),
        interface_command_spec_for_os(os).display
    );
    assert_eq!(
        lazyifconfig::model::CommandSourceId::NetstatRoutes.as_str(os),
        route_table_command_spec_for_os(os).display
    );
    assert_eq!(
        lazyifconfig::model::CommandSourceId::DefaultRoute.as_str(os),
        default_route_command_spec_for_os(os).display
    );
    assert_eq!(
        lazyifconfig::model::CommandSourceId::LsofPorts.as_str(os),
        lazyifconfig::command::listening_ports_command_spec_for_os(os).display
    );
}

#[test]
fn windows_route_lookup_uses_route_print() {
    let command = lazyifconfig::command::route_path_command_spec_for_os("windows", "8.8.8.8");
    assert_eq!(command.display, "route PRINT 8.8.8.8");
    assert_eq!(command.program, "route");
    assert_eq!(command.args, vec!["PRINT".to_string(), "8.8.8.8".to_string()]);
}
