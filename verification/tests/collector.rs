use lazyifconfig::collector::interface::{merge_gateways, parse_interfaces};
use lazyifconfig::collector::ports::parse_listening_ports;
use lazyifconfig::collector::routes::parse_routes;
use lazyifconfig::collector::stats::merge_stats;
use lazyifconfig::collector::system::{
    calculate_cpu_usage_percent, cpu_counters_fit_check, cpu_usage_fits_check,
    linux_system_metrics, macos_memory, macos_memory_fits_check, meminfo_fits_check,
    parse_linux_cpu_sample, parse_linux_memory,
};
use lazyifconfig::model::{
    CpuSample, InterfaceAddress, InterfaceStats, InterfaceStatus, InterfaceType, NetworkEvent,
    NetworkInterface, NetworkKind, NetworkSnapshot, RouteFamily,
};

#[test]
    fn parses_windows_ipconfig_output() {
        let input = "\
Windows IP Configuration

Ethernet adapter Ethernet:

   Connection-specific DNS Suffix  . : lan
   Physical Address. . . . . . . . . : AA-BB-CC-DD-EE-FF
   DHCP Enabled. . . . . . . . . . . : Yes
   IPv6 Address. . . . . . . . . . . : 2001:4860::8888(Preferred)
   Link-local IPv6 Address . . . . . : fe80::abcd:1%12(Preferred)
   IPv4 Address. . . . . . . . . . . : 192.168.1.42(Preferred)
   Subnet Mask . . . . . . . . . . . : 255.255.255.0
   Default Gateway . . . . . . . . . : 192.168.1.1

Wireless LAN adapter Wi-Fi:

   Media State . . . . . . . . . . . : Media disconnected
   Physical Address. . . . . . . . . : 11-22-33-44-55-66
";

        let interfaces = parse_interfaces(input);

        assert_eq!(interfaces.len(), 2);
        assert_eq!(interfaces[0].name, "Ethernet");
        assert_eq!(interfaces[0].status, InterfaceStatus::Up);
        assert_eq!(
            interfaces[0].mac_address.as_deref(),
            Some("aa:bb:cc:dd:ee:ff")
        );
        assert_eq!(interfaces[0].ipv4[0].value, "192.168.1.42");
        assert_eq!(interfaces[0].ipv4[0].prefix_len, Some(24));
        assert_eq!(
            interfaces[0].ipv4[0].gateway.as_deref(),
            Some("192.168.1.1")
        );
        assert_eq!(interfaces[0].ipv6[0].value, "2001:4860::8888");
        assert_eq!(interfaces[0].ipv6[1].value, "fe80::abcd:1");
        assert_eq!(interfaces[0].network_kind, NetworkKind::LinkLocal);

        assert_eq!(interfaces[1].name, "Wi-Fi");
        assert_eq!(interfaces[1].status, InterfaceStatus::Down);
        assert_eq!(
            interfaces[1].mac_address.as_deref(),
            Some("11:22:33:44:55:66")
        );
    }

#[test]
    fn parses_lsof_listening_tcp_rows() {
        let input = "\
COMMAND   PID USER   FD   TYPE             DEVICE SIZE/OFF NODE NAME
node    12345 user   21u  IPv6 0x123456789abcdef0      0t0  TCP *:3000 (LISTEN)
Python  23456 user    5u  IPv4 0xabcdef0123456789      0t0  TCP 127.0.0.1:8000 (LISTEN)
";

        let ports = parse_listening_ports(input);

        assert_eq!(ports.len(), 2);
        assert_eq!(ports[0].proto, "tcp");
        assert_eq!(ports[0].local_ip, "*");
        assert_eq!(ports[0].local_port, "3000");
        assert_eq!(ports[0].pid, "12345");
        assert_eq!(ports[0].command, "node");
        assert_eq!(ports[0].user, "user");

        assert_eq!(ports[1].proto, "tcp");
        assert_eq!(ports[1].local_ip, "127.0.0.1");
        assert_eq!(ports[1].local_port, "8000");
    }

#[test]
    fn parses_ss_listening_tcp_rows() {
        let input = "\
tcp LISTEN 0 4096 127.0.0.53%lo:53 0.0.0.0:* users:((\"systemd-resolve\",pid=579,fd=14))
tcp LISTEN 0 128 0.0.0.0:22 0.0.0.0:* users:((\"sshd\",pid=123,fd=3))
tcp LISTEN 0 511 [::]:8080 [::]:* users:((\"nginx\",pid=987,fd=6))
";

        let ports = parse_listening_ports(input);

        assert_eq!(ports.len(), 3);
        assert_eq!(ports[0].proto, "tcp");
        assert_eq!(ports[0].local_ip, "127.0.0.53%lo");
        assert_eq!(ports[0].local_port, "53");
        assert_eq!(ports[0].command, "systemd-resolve");
        assert_eq!(ports[0].pid, "579");
        assert_eq!(ports[0].user, "-");

        assert_eq!(ports[1].local_ip, "0.0.0.0");
        assert_eq!(ports[1].local_port, "22");
        assert_eq!(ports[1].command, "sshd");
        assert_eq!(ports[1].pid, "123");

        assert_eq!(ports[2].local_ip, "::");
        assert_eq!(ports[2].local_port, "8080");
        assert_eq!(ports[2].command, "nginx");
        assert_eq!(ports[2].pid, "987");
    }

#[test]
    fn parses_headerless_ss_ltnp_rows() {
        let input = "\
LISTEN 0 4096 127.0.0.53%lo:53 0.0.0.0:* users:((\"systemd-resolve\",pid=579,fd=14))
LISTEN 0 128 0.0.0.0:22 0.0.0.0:* users:((\"sshd\",pid=123,fd=3))
LISTEN 0 511 [::]:8080 [::]:* users:((\"nginx\",pid=987,fd=6))
";

        let ports = parse_listening_ports(input);

        assert_eq!(ports.len(), 3);
        assert_eq!(ports[0].proto, "tcp");
        assert_eq!(ports[0].local_ip, "127.0.0.53%lo");
        assert_eq!(ports[0].local_port, "53");
        assert_eq!(ports[0].command, "systemd-resolve");
        assert_eq!(ports[0].pid, "579");

        assert_eq!(ports[1].local_ip, "0.0.0.0");
        assert_eq!(ports[1].local_port, "22");
        assert_eq!(ports[1].command, "sshd");
        assert_eq!(ports[1].pid, "123");

        assert_eq!(ports[2].local_ip, "::");
        assert_eq!(ports[2].local_port, "8080");
        assert_eq!(ports[2].command, "nginx");
        assert_eq!(ports[2].pid, "987");
    }

#[test]
    fn parses_windows_netstat_listening_tcp_rows() {
        let input = "\
Active Connections

  Proto  Local Address          Foreign Address        State           PID
  TCP    0.0.0.0:135            0.0.0.0:0              LISTENING       980
  TCP    127.0.0.1:3000         0.0.0.0:0              LISTENING       12345
  TCP    192.168.1.42:50000     93.184.216.34:443      ESTABLISHED     2222
  TCP    [::]:8080              [::]:0                 LISTENING       777
";

        let ports = parse_listening_ports(input);

        assert_eq!(ports.len(), 3);
        assert_eq!(ports[0].proto, "tcp");
        assert_eq!(ports[0].local_ip, "0.0.0.0");
        assert_eq!(ports[0].local_port, "135");
        assert_eq!(ports[0].pid, "980");
        assert_eq!(ports[0].command, "pid:980");
        assert_eq!(ports[0].user, "-");

        assert_eq!(ports[1].local_ip, "127.0.0.1");
        assert_eq!(ports[1].local_port, "3000");
        assert_eq!(ports[2].local_ip, "::");
        assert_eq!(ports[2].local_port, "8080");
    }

#[test]
    fn test_parse_linux_ip_routes() {
        let sample = "\
default via 172.17.0.1 dev eth0 proto static
172.17.0.0/16 dev eth0 proto kernel scope link src 172.17.0.2
10.8.0.0/24 via 10.8.0.1 dev tun0
";
        let routes = parse_routes(sample);

        assert_eq!(routes.len(), 3);
        assert_eq!(routes[0].destination, "default");
        assert_eq!(routes[0].gateway, "172.17.0.1");
        assert_eq!(routes[0].interface, "eth0");

        assert_eq!(routes[1].destination, "172.17.0.0/16");
        assert_eq!(routes[1].gateway, "link");
        assert_eq!(routes[1].interface, "eth0");

        assert_eq!(routes[2].destination, "10.8.0.0/24");
        assert_eq!(routes[2].gateway, "10.8.0.1");
        assert_eq!(routes[2].interface, "tun0");
    }

#[test]
fn parses_linux_ipv4_routes_with_metric_and_protocol() {
    let sample = "\
default via 172.17.0.1 dev eth0 proto static metric 100
172.17.0.0/16 dev eth0 proto kernel scope link src 172.17.0.2
10.8.0.0/24 via 10.8.0.1 dev tun0 metric 50
";

    let routes = parse_routes(sample);

    assert_eq!(routes.len(), 3);
    assert_eq!(routes[0].destination, "default");
    assert_eq!(routes[0].gateway, "172.17.0.1");
    assert_eq!(routes[0].interface, "eth0");
    assert_eq!(routes[0].protocol.as_deref(), Some("static"));
    assert_eq!(routes[0].metric, Some(100));
    assert_eq!(routes[0].family, RouteFamily::Ipv4);

    assert_eq!(routes[2].destination, "10.8.0.0/24");
    assert_eq!(routes[2].gateway, "10.8.0.1");
    assert_eq!(routes[2].interface, "tun0");
    assert_eq!(routes[2].metric, Some(50));
}

#[test]
fn parses_linux_ipv6_routes() {
    let sample = "\
default via fe80::1 dev eth0 proto ra metric 1024
fe80::/64 dev eth0 proto kernel metric 256
";

    let routes = parse_routes(sample);

    assert_eq!(routes.len(), 2);
    assert_eq!(routes[0].family, RouteFamily::Ipv6);
    assert_eq!(routes[0].gateway, "fe80::1");
    assert_eq!(routes[0].metric, Some(1024));
}

#[test]
fn linux_memory_uses_mem_available_as_free_memory() {
    let meminfo = "\
MemTotal:       16384000 kB
MemFree:         1000000 kB
MemAvailable:    4096000 kB
Buffers:          200000 kB
";

    let metrics = parse_linux_memory(meminfo).unwrap();

    assert_eq!(metrics.memory_total_bytes, Some(16_384_000 * 1024));
    assert_eq!(metrics.memory_used_bytes, Some(12_288_000 * 1024));
}

#[test]
fn linux_cpu_usage_is_calculated_from_consecutive_samples() {
    let previous = CpuSample {
        idle_ticks: 100,
        total_ticks: 1_000,
    };
    let current = CpuSample {
        idle_ticks: 150,
        total_ticks: 1_200,
    };

    assert_eq!(calculate_cpu_usage_percent(previous, current), Some(75));
}

#[test]
fn linux_cpu_sample_reads_idle_and_total_ticks() {
    let stat = "cpu  4705 0 2253 136239 124 0 235 0 0 0\ncpu0 100 0 50 3000\n";

    let sample = parse_linux_cpu_sample(stat).unwrap();

    assert_eq!(sample.idle_ticks, 136_363);
    assert_eq!(sample.total_ticks, 143_556);
}

#[test]
fn parses_linux_ip_addr_output() {
    let input = "\
1: lo: <LOOPBACK,UP,LOWER_UP> mtu 65536 qdisc noqueue state UNKNOWN group default qlen 1000
    link/loopback 00:00:00:00:00:00 brd 00:00:00:00:00:00
    inet 127.0.0.1/8 scope host lo
       valid_lft forever preferred_lft forever
    inet6 ::1/128 scope host noprefixroute
       valid_lft forever preferred_lft forever
2: eth0@if3: <BROADCAST,MULTICAST,UP,LOWER_UP> mtu 1500 qdisc noqueue state UP group default
    link/ether 02:42:ac:11:00:02 brd ff:ff:ff:ff:ff:ff link-netnsid 0
    inet 172.17.0.2/16 brd 172.17.255.255 scope global eth0
       valid_lft forever preferred_lft forever
    inet6 fe80::42:acff:fe11:2/64 scope link
       valid_lft forever preferred_lft forever
";

    let interfaces = parse_interfaces(input);
    let lo = interfaces.iter().find(|item| item.name == "lo").unwrap();
    let eth0 = interfaces.iter().find(|item| item.name == "eth0").unwrap();

    assert_eq!(lo.interface_type, InterfaceType::Loopback);
    assert_eq!(lo.status, InterfaceStatus::Up);
    assert_eq!(lo.ipv4[0].value, "127.0.0.1");
    assert_eq!(lo.ipv4[0].prefix_len, Some(8));
    assert_eq!(lo.ipv6[0].value, "::1");
    assert_eq!(lo.ipv6[0].prefix_len, Some(128));

    assert_eq!(eth0.status, InterfaceStatus::Up);
    assert_eq!(eth0.mac_address.as_deref(), Some("02:42:ac:11:00:02"));
    assert_eq!(eth0.mtu, Some(1500));
    assert_eq!(eth0.ipv4[0].value, "172.17.0.2");
    assert_eq!(eth0.ipv4[0].prefix_len, Some(16));
    assert_eq!(eth0.ipv6[0].value, "fe80::42:acff:fe11:2");
    assert_eq!(eth0.ipv6[0].prefix_len, Some(64));
}

#[test]
fn test_network_classification_priority() {
    // utun은 사설 IP가 있어도 VPN으로 분류되어야 함
    let input = "utun4: flags=8051<UP,POINTOPOINT,RUNNING,MULTICAST> mtu 1500\n\tinet 10.8.0.2 netmask 0xffffff00";
    let parsed = parse_interfaces(input);
    assert_eq!(parsed[0].network_kind, lazyifconfig::model::NetworkKind::Vpn);

    // en0에 사설 IP가 있으면 LAN
    let input2 = "en0: flags=8863<UP,BROADCAST,SMART,RUNNING,SIMPLEX,MULTICAST> mtu 1500\n\tinet 192.168.0.15 netmask 0xffffff00";
    let parsed2 = parse_interfaces(input2);
    assert_eq!(parsed2[0].network_kind, lazyifconfig::model::NetworkKind::Lan);
}

#[test]
fn test_gateway_parsing() {
    let input = "utun4: flags=8051<UP,POINTOPOINT,RUNNING,MULTICAST> mtu 1380\n\tinet 10.10.0.2 --> 10.10.0.1 netmask 0xffffffff";
    let interfaces = parse_interfaces(input);
    assert_eq!(interfaces[0].ipv4[0].gateway, Some("10.10.0.1".to_string()));

    let netstat_input = "Routing tables\n\nInternet:\nDestination        Gateway            Flags               Netif\ndefault            192.168.0.1        UGScg                 en0";
    let en0 = lazyifconfig::model::NetworkInterface {
        name: "en0".to_string(),
        network_kind: lazyifconfig::model::NetworkKind::Lan,
        interface_type: lazyifconfig::model::InterfaceType::WifiOrEthernet,
        status: lazyifconfig::model::InterfaceStatus::Up,
        ipv4: vec![lazyifconfig::model::InterfaceAddress {
            value: "192.168.0.15".to_string(),
            prefix_len: Some(24),
            gateway: None,
        }],
        ipv6: vec![],
        mac_address: None,
        mtu: None,
        stats: None,
    };
    let mut interfaces2 = vec![en0];
    merge_gateways(&mut interfaces2, netstat_input);
    assert_eq!(interfaces2[0].ipv4[0].gateway, Some("192.168.0.1".to_string()));
}

#[test]
fn merges_linux_ip_route_default_gateway() {
    let mut interfaces = vec![lazyifconfig::model::NetworkInterface {
        name: "eth0".to_string(),
        network_kind: lazyifconfig::model::NetworkKind::Lan,
        interface_type: lazyifconfig::model::InterfaceType::WifiOrEthernet,
        status: lazyifconfig::model::InterfaceStatus::Up,
        ipv4: vec![lazyifconfig::model::InterfaceAddress {
            value: "172.17.0.2".to_string(),
            prefix_len: Some(16),
            gateway: None,
        }],
        ipv6: vec![],
        mac_address: None,
        mtu: None,
        stats: None,
    }];

    merge_gateways(
        &mut interfaces,
        "default via 172.17.0.1 dev eth0 proto static",
    );

    assert_eq!(interfaces[0].ipv4[0].gateway, Some("172.17.0.1".to_string()));
}

#[test]
fn test_merge_stats_from_netstat_ib() {
    let netstat_input = "\
Name       Mtu   Network       Address            Ipkts Ierrs     Ibytes    Opkts Oerrs     Obytes  Coll
lo0        16384 <Link#1>                       2457315     0 1256093331  2457315     0 1256093331     0
en0        1500  <Link#14>   32:f7:1c:75:c4:c5 11885040     0 9178588284  9544740     0 4905232533     0
gif0*      1280  <Link#2>                             0     0          0        0     0          0     0
";
    let en0 = lazyifconfig::model::NetworkInterface {
        name: "en0".to_string(),
        network_kind: lazyifconfig::model::NetworkKind::Lan,
        interface_type: lazyifconfig::model::InterfaceType::WifiOrEthernet,
        status: lazyifconfig::model::InterfaceStatus::Up,
        ipv4: vec![],
        ipv6: vec![],
        mac_address: None,
        mtu: None,
        stats: None,
    };
    let interfaces = vec![en0];
    let merged = merge_stats(netstat_input, interfaces);
    let en0_res = &merged[0];
    assert!(en0_res.stats.is_some());
    let stats = en0_res.stats.as_ref().unwrap();
    assert_eq!(stats.rx_packets, 11885040);
    assert_eq!(stats.rx_bytes, 9178588284);
    assert_eq!(stats.tx_packets, 9544740);
    assert_eq!(stats.tx_bytes, 4905232533);
}

#[test]
fn snapshot_can_hold_interfaces_and_events() {
    let interface = NetworkInterface {
        name: "en0".to_string(),
        network_kind: lazyifconfig::model::NetworkKind::Unknown,
        interface_type: InterfaceType::WifiOrEthernet,
        status: InterfaceStatus::Up,
        ipv4: vec![InterfaceAddress::new("192.168.0.10")],
        ipv6: vec![],
        mac_address: Some("aa:bb:cc:dd:ee:ff".to_string()),
        mtu: Some(1500),
        stats: Some(InterfaceStats {
            rx_bytes: 100,
            tx_bytes: 50,
            rx_packets: 10,
            tx_packets: 5,
        }),
    };

    let event = NetworkEvent::new(
        lazyifconfig::model::NetworkEventKind::InterfaceAppeared,
        lazyifconfig::model::EventSeverity::Info,
        "en0 appeared".to_string(),
    );

    let snapshot = NetworkSnapshot {
        interfaces: vec![interface],
        connections: vec![],
        listening_ports: vec![],
        routes: vec![],
        captured_at_secs: 10,
    };

    assert_eq!(snapshot.interfaces.len(), 1);
    assert_eq!(snapshot.interfaces[0].stats.as_ref().unwrap().rx_bytes, 100);
    assert_eq!(event.message, "en0 appeared");
}

#[test]
fn linux_reading_combines_cpu_and_memory() {
    let stat1 = "cpu  100 0 100 700 100 0 0 0 0 0\ncpu0 1 2 3 4\n";
    let stat2 = "cpu  150 0 150 750 150 0 0 0 0 0\n";
    let meminfo = "MemTotal:       16000 kB\nMemFree: 1000 kB\nMemAvailable:   4000 kB\n";
    assert!(cpu_counters_fit_check(stat1));
    assert!(meminfo_fits_check(meminfo));

    let (first, sample) = linux_system_metrics(Some(stat1), Some(meminfo), None);
    assert_eq!(first.cpu_usage_percent, None);
    assert_eq!(first.memory_total_bytes, Some(16000 * 1024));
    assert_eq!(first.memory_used_bytes, Some(12000 * 1024));
    assert_eq!(sample, Some(CpuSample { idle_ticks: 800, total_ticks: 1000 }));

    let (second, sample2) = linux_system_metrics(Some(stat2), None, sample);
    assert_eq!(sample2, Some(CpuSample { idle_ticks: 900, total_ticks: 1200 }));
    assert_eq!(second.cpu_usage_percent, Some(50));
    assert_eq!(second.memory_total_bytes, None);
}

#[test]
fn oversized_counters_are_detected() {
    assert!(!cpu_counters_fit_check("cpu 18446744073709551615 1 0 0\n"));
    assert!(cpu_counters_fit_check("no cpu line here\n"));
    assert!(!meminfo_fits_check("MemTotal: 18446744073709551615 kB\n"));
    assert!(meminfo_fits_check("MemFree: 1 kB\n"));
    assert!(!cpu_usage_fits_check(
        CpuSample { idle_ticks: 0, total_ticks: 0 },
        CpuSample { idle_ticks: 0, total_ticks: u64::MAX },
    ));
    assert!(cpu_usage_fits_check(
        CpuSample { idle_ticks: 0, total_ticks: 10 },
        CpuSample { idle_ticks: 0, total_ticks: 5 },
    ));
}

#[test]
fn macos_memory_caps_used_at_total() {
    let vm_stat = "Mach Virtual Memory Statistics: (page size of 4096 bytes)\nPages active:  1000.\nPages wired down: 500.\nPages occupied by compressor: 100.\n";
    assert!(macos_memory_fits_check(vm_stat));
    let m = macos_memory(" 17179869184\n", vm_stat).unwrap();
    assert_eq!(m.memory_total_bytes, Some(17179869184));
    assert_eq!(m.memory_used_bytes, Some(1600 * 4096));
    let capped = macos_memory("4096", vm_stat).unwrap();
    assert_eq!(capped.memory_used_bytes, Some(4096));
    assert!(macos_memory("not a number", vm_stat).is_none());
}

#[test]
fn test_parse_connections() {
    let input = "
Active Internet connections (including servers)
Proto Recv-Q Send-Q  Local Address          Foreign Address        (state)
tcp4       0      0  192.168.0.193.56780    211.242.12.227.995     ESTABLISHED
tcp6       0      0  *.56642                *.*                    LISTEN
udp4       0      0  *.5353                 *.*
";
    let connections = lazyifconfig::collector::connections::parse_connections(input);
    assert_eq!(connections.len(), 3);

    let c0 = &connections[0];
    assert_eq!(c0.proto, "tcp4");
    assert_eq!(c0.local_ip, "192.168.0.193");
    assert_eq!(c0.local_port, "56780");
    assert_eq!(c0.foreign_ip, "211.242.12.227");
    assert_eq!(c0.foreign_port, "995");
    assert_eq!(c0.state, Some("ESTABLISHED".to_string()));

    let c1 = &connections[1];
    assert_eq!(c1.proto, "tcp6");
    assert_eq!(c1.local_ip, "*");
    assert_eq!(c1.local_port, "56642");
    assert_eq!(c1.state, Some("LISTEN".to_string()));

    let c2 = &connections[2];
    assert_eq!(c2.proto, "udp4");
    assert_eq!(c2.local_ip, "*");
    assert_eq!(c2.local_port, "5353");
    assert_eq!(c2.foreign_ip, "*");
    assert_eq!(c2.foreign_port, "*");
    assert_eq!(c2.state, None);
}

#[test]
fn connection_endpoints_without_a_dot_keep_the_text_as_address() {
    let connections = lazyifconfig::collector::connections::parse_connections(
        "tcp 0 0 localhost peer SYN_SENT\nraw 0 0 a.1 b.2\ntcp 0 0 a.1\n",
    );
    assert_eq!(connections.len(), 1);
    assert_eq!(connections[0].local_ip, "localhost");
    assert_eq!(connections[0].local_port, "*");
    assert_eq!(connections[0].foreign_ip, "peer");
    assert_eq!(connections[0].state, Some("SYN_SENT".to_string()));
}

#[test]
fn assembles_a_snapshot_from_one_round_of_outputs() {
    let ifconfig = "en0: flags=8863<UP,BROADCAST,SMART,RUNNING,SIMPLEX,MULTICAST> mtu 1500\n\tinet 192.168.0.15 netmask 0xffffff00 broadcast 192.168.0.255\n";
    let netstat = "Routing tables\n\nInternet:\nDestination        Gateway            Flags               Netif\ndefault            192.168.0.1        UGScg                 en0";
    let stats = "\
Name       Mtu   Network       Address            Ipkts Ierrs     Ibytes    Opkts Oerrs     Obytes  Coll
en0        1500  <Link#14>   32:f7:1c:75:c4:c5 11885040     0 9178588284  9544740     0 4905232533     0
";
    let snapshot = lazyifconfig::collector::snapshot::assemble_snapshot(
        ifconfig,
        Some(netstat),
        None,
        Some(stats),
        None,
        None,
        42,
    );
    assert_eq!(snapshot.captured_at_secs, 42);
    assert_eq!(snapshot.interfaces.len(), 1);
    assert_eq!(snapshot.interfaces[0].name, "en0");
    assert_eq!(
        snapshot.interfaces[0].ipv4[0].gateway,
        Some("192.168.0.1".to_string())
    );
    assert_eq!(snapshot.interfaces[0].stats.as_ref().unwrap().rx_packets, 11885040);
    assert_eq!(snapshot.routes.len(), 1);
    assert_eq!(snapshot.routes[0].gateway, "192.168.0.1");
    assert!(snapshot.connections.is_empty());
    assert!(snapshot.listening_ports.is_empty());

    // Without a routing table the gateways stay unknown and no route is kept.
    let without_routes = lazyifconfig::collector::snapshot::assemble_snapshot(
        ifconfig, None, None, Some(stats), None, None, 7,
    );
    assert_eq!(without_routes.interfaces[0].ipv4[0].gateway, None);
    assert!(without_routes.routes.is_empty());
}

#[test]
fn interface_types_follow_the_first_matching_name_rule() {
    let input = "\
utun3: flags=8051<UP,POINTOPOINT,RUNNING,MULTICAST> mtu 1380
lo0: flags=8049<UP,LOOPBACK,RUNNING,MULTICAST> mtu 16384
\tinet 127.0.0.1 netmask 0xff000000
bridge100: flags=8863<UP,BROADCAST,SMART,RUNNING,SIMPLEX,MULTICAST> mtu 1500
awdl0: flags=8943<UP,BROADCAST,RUNNING,PROMISC,SIMPLEX,MULTICAST> mtu 1500
en0: flags=8863<UP,BROADCAST,SMART,RUNNING,SIMPLEX,MULTICAST> mtu 1500
\tinet 8.8.4.4 netmask 0xffffff00
mystery0: flags=8863<UP,BROADCAST,SMART,RUNNING,SIMPLEX,MULTICAST> mtu 1500
\tinet 169.254.3.4 netmask 0xffff0000
";
    let parsed = parse_interfaces(input);
    let types: Vec<InterfaceType> = parsed.iter().map(|i| i.interface_type).collect();
    assert_eq!(
        types,
        vec![
            InterfaceType::Vpn,
            InterfaceType::Loopback,
            InterfaceType::Bridge,
            InterfaceType::AirDrop,
            InterfaceType::WifiOrEthernet,
            InterfaceType::Unknown,
        ]
    );
    let kinds: Vec<NetworkKind> = parsed.iter().map(|i| i.network_kind).collect();
    assert_eq!(
        kinds,
        vec![
            NetworkKind::Vpn,
            NetworkKind::Loopback,
            NetworkKind::Container,
            NetworkKind::Unknown,
            NetworkKind::Public,
            NetworkKind::LinkLocal,
        ]
    );
}

#[test]
fn merging_gateways_keeps_known_gateways_and_fills_the_rest() {
    let netstat_input = "Routing tables\n\nInternet:\nDestination        Gateway            Flags               Netif\ndefault            192.168.0.1        UGScg                 en0";
    let mut interfaces = vec![lazyifconfig::model::NetworkInterface {
        name: "en0".to_string(),
        network_kind: lazyifconfig::model::NetworkKind::Lan,
        interface_type: lazyifconfig::model::InterfaceType::WifiOrEthernet,
        status: lazyifconfig::model::InterfaceStatus::Up,
        ipv4: vec![
            lazyifconfig::model::InterfaceAddress {
                value: "192.168.0.15".to_string(),
                prefix_len: Some(24),
                gateway: Some("192.168.0.254".to_string()),
            },
            lazyifconfig::model::InterfaceAddress {
                value: "192.168.0.16".to_string(),
                prefix_len: Some(24),
                gateway: None,
            },
        ],
        ipv6: vec![lazyifconfig::model::InterfaceAddress {
            value: "fe80::1".to_string(),
            prefix_len: Some(64),
            gateway: None,
        }],
        mac_address: None,
        mtu: None,
        stats: None,
    }];
    merge_gateways(&mut interfaces, netstat_input);
    assert_eq!(interfaces.len(), 1);
    assert_eq!(interfaces[0].ipv4[0].gateway, Some("192.168.0.254".to_string()));
    assert_eq!(interfaces[0].ipv4[1].gateway, Some("192.168.0.1".to_string()));
    assert_eq!(interfaces[0].ipv6[0].gateway, None);
}
