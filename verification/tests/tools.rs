use lazyifconfig::tools::dns::{
    command_candidates, dns_lookup_result, parse_dns_output, DnsParseResult, DnsStatus,
};
use lazyifconfig::tools::ip_info::{parse_reverse_dns_output, reverse_dns_command_candidates};
use lazyifconfig::tools::ping::{command_spec_for_os as ping_command_for_os, ping_result};
use lazyifconfig::tools::tls::{command_spec as tls_command_spec, parse_target};
use lazyifconfig::tools::traceroute::{command_spec_for_os as traceroute_command_for_os, parse_hops};
use lazyifconfig::tools::whois::{
    collect_fields, command_spec as whois_command_spec, first_field, parse_rdap_output,
    parse_whois_output, RdapEntity, RdapEvent, RdapRecord,
};
use lazyifconfig::tools::{
    format_tool_result_plaintext, tool_cli_name, tool_id_from_cli_name, tool_input_from_cli_args,
    tools_cli_usage, validate_tool_input, ToolAvailability, ToolId, ToolInput, ToolRegistry,
    ToolResult, ToolResultSection,
};

#[test]
fn registry_lists_first_slice_tools_in_ui_order() {
    let registry = ToolRegistry::default();
    let ids: Vec<ToolId> = registry.definitions().iter().map(|tool| tool.id).collect();

    assert_eq!(
        ids,
        vec![
            ToolId::DnsLookup,
            ToolId::WhoisLookup,
            ToolId::IpInformation,
            ToolId::PortCheck,
            ToolId::TlsInspector,
            ToolId::Ping,
            ToolId::Traceroute,
        ]
    );
}

#[test]
fn registry_marks_all_tools_runnable() {
    let registry = ToolRegistry::default();

    assert_eq!(
        registry.definition(ToolId::DnsLookup).unwrap().availability,
        ToolAvailability::Runnable
    );
    assert_eq!(
        registry.definition(ToolId::PortCheck).unwrap().availability,
        ToolAvailability::Runnable
    );
    assert_eq!(
        registry.definition(ToolId::Ping).unwrap().availability,
        ToolAvailability::Runnable
    );
    assert_eq!(
        registry
            .definition(ToolId::WhoisLookup)
            .unwrap()
            .availability,
        ToolAvailability::Runnable
    );
    assert_eq!(
        registry
            .definition(ToolId::IpInformation)
            .unwrap()
            .availability,
        ToolAvailability::Runnable
    );
    assert_eq!(
        registry
            .definition(ToolId::TlsInspector)
            .unwrap()
            .availability,
        ToolAvailability::Runnable
    );
    assert_eq!(
        registry
            .definition(ToolId::Traceroute)
            .unwrap()
            .availability,
        ToolAvailability::Runnable
    );
}

#[test]
fn dns_command_candidates_prefer_dig() {
    let candidates = command_candidates("example.com");

    assert_eq!(candidates[0].program, "dig");
    assert_eq!(candidates[0].args, vec!["example.com"]);
    assert_eq!(candidates[1].program, "host");
    assert_eq!(candidates[2].program, "nslookup");
}

#[test]
fn ping_command_uses_small_count_per_platform() {
    let mac = ping_command_for_os("macos", "8.8.8.8");
    let linux = ping_command_for_os("linux", "8.8.8.8");
    let windows = ping_command_for_os("windows", "8.8.8.8");

    assert_eq!(mac.program, "ping");
    assert_eq!(mac.args, vec!["-c", "4", "8.8.8.8"]);
    assert_eq!(linux.program, "ping");
    assert_eq!(linux.args, vec!["-c", "4", "8.8.8.8"]);
    assert_eq!(windows.program, "ping");
    assert_eq!(windows.args, vec!["-n", "4", "8.8.8.8"]);
}

#[test]
fn whois_command_uses_standard_target_lookup() {
    let spec = whois_command_spec("github.com");

    assert_eq!(spec.program, "whois");
    assert_eq!(spec.args, vec!["github.com"]);
}

#[test]
fn ip_info_reverse_dns_candidates_prefer_dig_ptr() {
    let candidates = reverse_dns_command_candidates("8.8.8.8");

    assert_eq!(candidates[0].program, "dig");
    assert_eq!(candidates[0].args, vec!["-x", "8.8.8.8", "+short"]);
    assert_eq!(candidates[1].program, "host");
}

#[test]
fn tls_command_uses_sni_for_host_and_port() {
    let spec = tls_command_spec("github.com", 443);

    assert_eq!(spec.program, "openssl");
    assert_eq!(
        spec.args,
        vec![
            "s_client",
            "-connect",
            "github.com:443",
            "-servername",
            "github.com",
            "-showcerts",
        ]
    );
}

#[test]
fn traceroute_command_uses_platform_specific_flags() {
    let mac = traceroute_command_for_os("macos", "8.8.8.8");
    let linux = traceroute_command_for_os("linux", "8.8.8.8");
    let windows = traceroute_command_for_os("windows", "8.8.8.8");

    assert_eq!(mac.program, "traceroute");
    assert_eq!(mac.args, vec!["-m", "8", "8.8.8.8"]);
    assert_eq!(linux.program, "traceroute");
    assert_eq!(linux.args, vec!["-m", "8", "-w", "1", "8.8.8.8"]);
    assert_eq!(windows.program, "tracert");
    assert_eq!(windows.args, vec!["-h", "8", "8.8.8.8"]);
}

#[test]
fn cli_tool_ids_cover_all_runnable_tools() {
    assert_eq!(tool_id_from_cli_name("dns"), Some(ToolId::DnsLookup));
    assert_eq!(tool_id_from_cli_name("whois"), Some(ToolId::WhoisLookup));
    assert_eq!(tool_id_from_cli_name("ip-info"), Some(ToolId::IpInformation));
    assert_eq!(tool_id_from_cli_name("port-check"), Some(ToolId::PortCheck));
    assert_eq!(tool_id_from_cli_name("tls"), Some(ToolId::TlsInspector));
    assert_eq!(tool_id_from_cli_name("ping"), Some(ToolId::Ping));
    assert_eq!(tool_id_from_cli_name("traceroute"), Some(ToolId::Traceroute));
    assert_eq!(tool_id_from_cli_name("unknown"), None);
}

#[test]
fn cli_names_round_trip_and_long_names_are_accepted() {
    for id in [
        ToolId::DnsLookup,
        ToolId::WhoisLookup,
        ToolId::IpInformation,
        ToolId::PortCheck,
        ToolId::TlsInspector,
        ToolId::Ping,
        ToolId::Traceroute,
    ] {
        assert_eq!(tool_id_from_cli_name(tool_cli_name(id)), Some(id));
    }
    assert_eq!(tool_id_from_cli_name("dns-lookup"), Some(ToolId::DnsLookup));
    assert_eq!(tool_id_from_cli_name("ip-information"), Some(ToolId::IpInformation));
    assert_eq!(tool_id_from_cli_name("tls-inspector"), Some(ToolId::TlsInspector));
}

#[test]
fn cli_argument_mapping_matches_tool_fields() {
    let dns = tool_input_from_cli_args(ToolId::DnsLookup, &["example.com"]).unwrap();
    assert_eq!(dns.get("target"), Some("example.com"));

    let port = tool_input_from_cli_args(ToolId::PortCheck, &["github.com", "443"]).unwrap();
    assert_eq!(port.get("host"), Some("github.com"));
    assert_eq!(port.get("port"), Some("443"));

    let tls = tool_input_from_cli_args(ToolId::TlsInspector, &["github.com:443"]).unwrap();
    assert_eq!(tls.get("target"), Some("github.com:443"));
}

#[test]
fn cli_argument_mapping_rejects_wrong_arity() {
    let err = tool_input_from_cli_args(ToolId::PortCheck, &["github.com"]).unwrap_err();
    assert!(err.contains("Usage"));
    assert!(err.contains("port-check <host> <port>"));
    assert_eq!(err, "Usage: lazyifconfig tools port-check <host> <port>");
}

#[test]
fn cli_arguments_are_validated() {
    assert_eq!(
        tool_input_from_cli_args(ToolId::PortCheck, &[" ", "0"]).unwrap_err(),
        "Host is required. Port must be a number from 1 to 65535."
    );
    assert_eq!(
        tool_input_from_cli_args(ToolId::IpInformation, &["999.1.1.1"]).unwrap_err(),
        "IP must be a valid IPv4 or IPv6 address."
    );
    assert!(tool_input_from_cli_args(ToolId::IpInformation, &["2001:db8::1"]).is_ok());
    assert_eq!(
        tool_input_from_cli_args(ToolId::TlsInspector, &[":443"]).unwrap_err(),
        "Target must look like host:port or host."
    );
    assert_eq!(
        tool_input_from_cli_args(ToolId::Ping, &["   "]).unwrap_err(),
        "Target is required."
    );
    assert!(tool_input_from_cli_args(ToolId::PortCheck, &["localhost", "+80"]).is_ok());
}

#[test]
fn tool_input_insert_replaces_and_validation_reads_fields() {
    let mut input = ToolInput::new();
    input.insert("target".to_string(), "one".to_string());
    input.insert("target".to_string(), "example.com:8443".to_string());
    assert_eq!(input.values.len(), 1);
    assert_eq!(input.get("target"), Some("example.com:8443"));
    assert_eq!(input.get("port"), None);
    assert!(validate_tool_input(ToolId::TlsInspector, &input).is_empty());
    assert_eq!(validate_tool_input(ToolId::PortCheck, &input), vec!["Host is required.", "Port is required."]);
}

#[test]
fn plain_text_formatter_includes_sections_and_raw_output() {
    let rendered = format_tool_result_plaintext(&ToolResult {
        title: "Ping".to_string(),
        sections: vec![
            ToolResultSection {
                label: "Summary".to_string(),
                lines: vec!["Target: 8.8.8.8".to_string()],
            },
            ToolResultSection {
                label: "Diagnostics".to_string(),
                lines: vec!["ok".to_string()],
            },
        ],
        raw_output: "$ ping -c 4 8.8.8.8\n...".to_string(),
    });

    assert!(rendered.contains("Ping"));
    assert!(rendered.contains("[Summary]"));
    assert!(rendered.contains("Target: 8.8.8.8"));
    assert!(rendered.contains("[Raw Output]"));
    assert_eq!(
        rendered,
        "Ping\n\n[Summary]\nTarget: 8.8.8.8\n\n[Diagnostics]\nok\n\n[Raw Output]\n$ ping -c 4 8.8.8.8\n..."
    );
}

#[test]
fn plain_text_formatter_omits_blank_raw_output() {
    let rendered = format_tool_result_plaintext(&ToolResult {
        title: "T".to_string(),
        sections: vec![],
        raw_output: " \n ".to_string(),
    });
    assert_eq!(rendered, "T");
}

#[test]
fn cli_usage_lists_every_tool() {
    let usage = tools_cli_usage();
    let lines: Vec<&str> = usage.lines().collect();
    assert_eq!(lines[0], "Usage: lazyifconfig tools <tool> [args]");
    assert_eq!(lines[1], "");
    assert_eq!(lines[2], "Available tools:");
    assert_eq!(lines[3], "  dns          <target> Resolve DNS records for a domain or IP.");
    assert_eq!(lines[6], "  port-check   <host> <port> Check TCP connectivity to a host and port.");
    assert_eq!(lines.len(), 10);
}

#[test]
fn parses_dig_output_summary() {
    let output = "\
;; ->>HEADER<<- opcode: QUERY, status: NOERROR, id: 12345
;; ANSWER SECTION:
tameuscc.co.kr. 579 IN A 112.133.7.34
;; Query time: 85 msec
;; SERVER: 100.100.100.100#53(100.100.100.100)
";

    let result = parse_dns_output("tameuscc.co.kr", output, "", Some(0), Some(85));
    assert_eq!(result.status, DnsStatus::Success);
    assert_eq!(result.response_time_ms, Some(85));
    assert_eq!(result.dns_server.as_deref(), Some("100.100.100.100"));
    assert_eq!(result.a_records.len(), 1);
    assert_eq!(result.a_records[0].value, "112.133.7.34");
    assert_eq!(result.a_records[0].ttl, Some(579));
    assert_eq!(result.provider, Some("Tailscale MagicDNS"));
}

#[test]
fn parses_nxdomain_output() {
    let output = ";; ->>HEADER<<- opcode: QUERY, status: NXDOMAIN, id: 1\n";
    let result = parse_dns_output("missing.example", output, "", Some(0), Some(20));
    assert_eq!(result.status, DnsStatus::NotFound);
    assert_eq!(result.a_records.len(), 0);
}

#[test]
fn parses_host_and_nslookup_style_output() {
    let output = "\
Server:\t\t8.8.8.8
Address:\t8.8.8.8#53

www.example.com is an alias for example.com.
example.com has address 93.184.216.34
example.com has IPv6 address 2606:2800:0220:0001:0248:1893:25c8:1946
example.com mail is handled by 10 mx.example.com.
example.com MX 20 backup.example.com.
example.com MX 5 primary.example.com.
";
    let result = parse_dns_output("www.example.com", output, "", Some(0), None);
    assert_eq!(result.status, DnsStatus::Success);
    assert_eq!(result.dns_server.as_deref(), Some("8.8.8.8"));
    assert_eq!(result.provider, Some("Google Public DNS"));
    assert_eq!(result.cname_records, vec![("www.example.com".to_string(), "example.com".to_string())]);
    assert_eq!(result.a_records[0].host, "example.com");
    assert_eq!(result.a_records[0].value, "93.184.216.34");
    assert_eq!(result.aaaa_records[0].value, "2606:2800:220:1:248:1893:25c8:1946");
    let priorities: Vec<u64> = result.mx_records.iter().map(|m| m.priority).collect();
    assert_eq!(priorities, vec![5, 20]);
    assert_eq!(result.mx_records[0].host, "primary.example.com");
}

#[test]
fn dns_sections_and_statuses() {
    let result = parse_dns_output("x.example", "", ";; connection timed out; no servers could be reached\n", Some(9), None);
    assert_eq!(result.status, DnsStatus::Timeout);
    let result = parse_dns_output("x.example", "status: SERVFAIL\n", "", Some(0), None);
    assert_eq!(result.status, DnsStatus::ServerFailure);
    let result = parse_dns_output("x.example", "nothing here\n", "", Some(0), None);
    assert_eq!(result.status, DnsStatus::NoRecords);
    assert_eq!(result.health_label(), "Check");
    let result = parse_dns_output("x.example", "", "", Some(1), None);
    assert_eq!(result.status, DnsStatus::Failed);

    let tool = dns_lookup_result(
        "tameuscc.co.kr",
        "dig tameuscc.co.kr",
        "tameuscc.co.kr. 579 IN A 112.133.7.34\n;; Query time: 8 msec\n",
        "",
        Some(0),
        Some(3),
    );
    assert_eq!(tool.title, "DNS Lookup");
    assert_eq!(tool.sections[0].label, "Summary");
    assert_eq!(
        tool.sections[0].lines,
        vec![
            "Query: tameuscc.co.kr",
            "Status: ✓ Success",
            "Response Time: 8 ms",
            "Health: ✓ Excellent",
            "Records: 1",
        ]
    );
    assert_eq!(tool.sections[1].label, "A Records");
    assert_eq!(
        tool.sections[1].lines,
        vec!["Host: tameuscc.co.kr", "IPv4 Address: 112.133.7.34", "TTL: 579 sec"]
    );
    assert_eq!(tool.sections[2].label, "DNS Flow");
    assert_eq!(
        tool.sections[2].lines,
        vec!["tameuscc.co.kr", "        │", "        ▼", "112.133.7.34"]
    );
    assert_eq!(tool.sections[3].label, "Diagnostics");
    assert_eq!(tool.sections[3].lines, vec!["✓ DNS resolution successful"]);
    assert_eq!(tool.raw_output, "$ dig tameuscc.co.kr\ntameuscc.co.kr. 579 IN A 112.133.7.34\n;; Query time: 8 msec\n");
}

#[test]
fn dns_failure_adds_command_section() {
    let tool = dns_lookup_result("a.example", "host a.example", "", "boom", Some(2), None);
    let last = tool.sections.last().unwrap();
    assert_eq!(last.label, "Command");
    assert_eq!(last.lines, vec!["Command exited with status Some(2)."]);
    let parsed: DnsParseResult = parse_dns_output("a.example", "", "boom", Some(2), None);
    assert_eq!(parsed.total_record_count(), 0);
}

#[test]
fn whois_fields_are_read_without_regard_to_case() {
    let text = "REGISTRAR: Example Registrar, Inc.\nregistrar: later\nName Server: NS1.EXAMPLE.COM\nnserver= ns2.example.com\nName Server: NS1.EXAMPLE.COM\n";
    assert_eq!(first_field(text, &["Registrar"]), Some("Example Registrar, Inc.".to_string()));
    assert_eq!(
        collect_fields(text, &["Name Server", "nserver"]),
        vec!["NS1.EXAMPLE.COM".to_string(), "ns2.example.com".to_string()]
    );
    assert_eq!(first_field("Registrar:\nOrgName: X\n", &["Registrar", "OrgName"]), Some("X".to_string()));
}

#[test]
fn whois_output_is_summarised() {
    let stdout = "Domain Name: EXAMPLE.COM\nRegistrar: RESERVED-Internet Assigned Numbers Authority\nCreation Date: 1995-08-14T04:00:00Z\nName Server: A.IANA-SERVERS.NET\n";
    let sections = parse_whois_output("example.com", stdout, "", Some(0));
    assert_eq!(sections[0].lines, vec![
        "Target: example.com",
        "Status: Lookup completed",
        "Registrar: RESERVED-Internet Assigned Numbers Authority",
    ]);
    assert_eq!(sections[1].label, "Dates");
    assert_eq!(sections[1].lines, vec!["Created: 1995-08-14T04:00:00Z"]);
    assert_eq!(sections[2].label, "Name Servers");
    assert_eq!(sections[3].label, "Diagnostics");
    assert_eq!(sections[3].lines, vec!["Whois lookup returned structured ownership details."]);

    let sections = parse_whois_output("x", "", " no match \n", Some(1));
    assert_eq!(sections[0].lines[1], "Status: Command exited with status Some(1)");
    assert_eq!(sections.last().unwrap().lines, vec![
        "Parsed metadata was limited; inspect raw output for full details.",
        "no match",
    ]);
}

#[test]
fn parses_rdap_domain_output() {
    let record = RdapRecord {
        handle: Some("2336799_DOMAIN_COM-VRSN".to_string()),
        name: None,
        ldh_name: Some("EXAMPLE.COM".to_string()),
        country: None,
        start_address: None,
        end_address: None,
        events: vec![RdapEvent {
            action: Some("registration".to_string()),
            date: Some("1995-08-14T04:00:00Z".to_string()),
        }],
        entities: vec![RdapEntity {
            roles: Some(vec!["registrar".to_string()]),
            vcard_fields: vec![(Some("fn".to_string()), Some("Example Registrar".to_string()))],
        }],
    };

    let sections = parse_rdap_output("example.com", &record, Some(0));

    assert!(sections[0]
        .lines
        .contains(&"Status: RDAP lookup completed".to_string()));
    assert!(sections[0].lines.contains(&"Name: EXAMPLE.COM".to_string()));
    assert!(sections.iter().any(|section| section.label == "Entities"
        && section
            .lines
            .contains(&"Example Registrar (registrar)".to_string())));
}

#[test]
fn reverse_dns_answers_are_recognised() {
    assert_eq!(
        parse_reverse_dns_output("8.8.8.8.in-addr.arpa domain name pointer dns.google.\n"),
        Some("dns.google".to_string())
    );
    assert_eq!(parse_reverse_dns_output("dns.google.\n"), Some("dns.google".to_string()));
    assert_eq!(parse_reverse_dns_output("\n;; no answer\n"), None);
}

#[test]
fn parses_host_port_targets() {
    assert_eq!(
        parse_target("example.com").unwrap(),
        ("example.com".to_string(), 443)
    );
    assert_eq!(
        parse_target("example.com:8443").unwrap(),
        ("example.com".to_string(), 8443)
    );
}

#[test]
fn tls_targets_are_rejected_with_reasons() {
    assert_eq!(parse_target("example.com:x").unwrap_err(), "Port must be a number from 1 to 65535.");
    assert_eq!(parse_target(" :443").unwrap_err(), "Target must look like host:port.");
    assert_eq!(parse_target("example.com:0").unwrap_err(), "Target must look like host:port.");
}

#[test]
fn traceroute_hops_are_numbered_lines() {
    let out = "traceroute to 8.8.8.8, 8 hops max\n 1  192.168.0.1  1.2 ms\n 2  * * *\nnot a hop\n";
    assert_eq!(parse_hops(out), vec!["1  192.168.0.1  1.2 ms".to_string(), "2  * * *".to_string()]);
}

#[test]
fn ping_result_keeps_the_tail_of_the_output() {
    let out = "a\nb\n\n--- stats ---\n4 packets transmitted\n";
    let r = ping_result("ping -c 4 h", out, "", Some(0));
    assert_eq!(r.sections[0].lines, vec![
        "Ping completed successfully.",
        "b",
        "--- stats ---",
        "4 packets transmitted",
    ]);
    let r = ping_result("ping -c 4 h", "", "", Some(-1));
    assert_eq!(r.sections[0].lines, vec!["Ping exited with status Some(-1)."]);
}

#[test]
fn ip_info_accepts_only_ip_addresses() {
    assert!(lazyifconfig::tools::ip_info::check_ip_input("8.8.8.8").is_ok());
    assert!(lazyifconfig::tools::ip_info::check_ip_input("2001:4860:4860::8888").is_ok());
    assert_eq!(
        lazyifconfig::tools::ip_info::check_ip_input("example.com"),
        Err("IP must be a valid IPv4 or IPv6 address.".to_string())
    );
    assert!(lazyifconfig::tools::ip_info::check_ip_input("256.1.1.1").is_err());
}

#[test]
fn whois_goes_to_rdap_directly_only_on_windows() {
    assert!(lazyifconfig::tools::whois::uses_rdap_directly("windows"));
    assert!(!lazyifconfig::tools::whois::uses_rdap_directly("macos"));
    assert!(!lazyifconfig::tools::whois::uses_rdap_directly("linux"));
}
