//! The data that the collectors produce and the views read.
use vstd::prelude::*;

use crate::text::owned;
use crate::command::{
    default_route_command, default_route_command_spec_for_os, interface_command,
    interface_command_spec_for_os, listening_ports_command, listening_ports_command_spec_for_os,
    route_table_command, route_table_command_spec_for_os,
};

verus! {

/// `std::time::SystemTime`, carried through events and command outputs.
#[verifier::external_type_specification]
#[verifier::external_body]
pub struct ExSystemTime(std::time::SystemTime);

/// `SystemTime::clone`: `SystemTime` is `Copy`, so a clone is the same value.
pub assume_specification[ <std::time::SystemTime as Clone>::clone ](t: &std::time::SystemTime) -> (r: std::time::SystemTime)
    ensures
        r == *t,
;

/// The character sequence held by an optional string.
pub open spec fn opt_chars(o: Option<String>) -> Option<Seq<char>> {
    match o {
        Some(s) => Some(s@),
        None => None,
    }
}

/// A copy of an optional string.
pub fn copy_opt(o: &Option<String>) -> (r: Option<String>)
    ensures
        opt_chars(r) == opt_chars(*o),
{
    match o {
        Some(s) => Some(s.clone()),
        None => None,
    }
}

#[derive(Clone, Copy, Debug, PartialEq, Eq, Structural)]
pub enum NetworkKind {
    Loopback,
    Lan,
    Vpn,
    Container,
    LinkLocal,
    Public,
    Unknown,
}

impl NetworkKind {
    pub open spec fn label(self) -> Seq<char> {
        match self {
            NetworkKind::Loopback => "LOOPBACK"@,
            NetworkKind::Lan => "LAN"@,
            NetworkKind::Vpn => "VPN"@,
            NetworkKind::Container => "CONTAINER"@,
            NetworkKind::LinkLocal => "LINK LOCAL"@,
            NetworkKind::Public => "PUBLIC"@,
            NetworkKind::Unknown => "UNKNOWN"@,
        }
    }

    pub fn as_str(&self) -> (r: &'static str)
        ensures
            r@ == self.label(),
    {
        match self {
            NetworkKind::Loopback => "LOOPBACK",
            NetworkKind::Lan => "LAN",
            NetworkKind::Vpn => "VPN",
            NetworkKind::Container => "CONTAINER",
            NetworkKind::LinkLocal => "LINK LOCAL",
            NetworkKind::Public => "PUBLIC",
            NetworkKind::Unknown => "UNKNOWN",
        }
    }
}

#[derive(Clone, Copy, Debug, PartialEq, Eq, Structural)]
pub enum InterfaceType {
    Vpn,
    Loopback,
    Bridge,
    AirDrop,
    WifiOrEthernet,
    Unknown,
}

#[derive(Clone, Copy, Debug, PartialEq, Eq, Structural)]
pub enum InterfaceStatus {
    Up,
    Down,
}

#[derive(Clone, Debug, PartialEq, Eq)]
pub struct InterfaceAddress {
    pub value: String,
    pub prefix_len: Option<u8>,
    pub gateway: Option<String>,
}

/// An address as plain values.
pub struct AddressView {
    pub value: Seq<char>,
    pub prefix_len: Option<u8>,
    pub gateway: Option<Seq<char>>,
}

impl View for InterfaceAddress {
    type V = AddressView;

    open spec fn view(&self) -> AddressView {
        AddressView {
            value: self.value@,
            prefix_len: self.prefix_len,
            gateway: opt_chars(self.gateway),
        }
    }
}

/// The views of a vector of addresses.
pub open spec fn address_views(v: Seq<InterfaceAddress>) -> Seq<AddressView> {
    v.map_values(|a: InterfaceAddress| a@)
}

impl InterfaceAddress {
    pub fn new(value: &str) -> (r: Self)
        ensures
            r.value@ == value@,
            r.prefix_len is None,
            r.gateway is None,
    {
        InterfaceAddress { value: owned(value), prefix_len: None, gateway: None }
    }
}

#[derive(Clone, Copy, Debug, Default, PartialEq, Eq, Structural)]
pub struct InterfaceStats {
    pub rx_bytes: u64,
    pub tx_bytes: u64,
    pub rx_packets: u64,
    pub tx_packets: u64,
}

#[derive(Clone, Debug, PartialEq, Eq)]
pub struct NetworkInterface {
    pub name: String,
    pub network_kind: NetworkKind,
    pub interface_type: InterfaceType,
    pub status: InterfaceStatus,
    pub ipv4: Vec<InterfaceAddress>,
    pub ipv6: Vec<InterfaceAddress>,
    pub mac_address: Option<String>,
    pub mtu: Option<u32>,
    pub stats: Option<InterfaceStats>,
}

/// An interface as plain values.
pub struct InterfaceView {
    pub name: Seq<char>,
    pub network_kind: NetworkKind,
    pub interface_type: InterfaceType,
    pub status: InterfaceStatus,
    pub ipv4: Seq<AddressView>,
    pub ipv6: Seq<AddressView>,
    pub mac_address: Option<Seq<char>>,
    pub mtu: Option<u32>,
    pub stats: Option<InterfaceStats>,
}

impl View for NetworkInterface {
    type V = InterfaceView;

    open spec fn view(&self) -> InterfaceView {
        InterfaceView {
            name: self.name@,
            network_kind: self.network_kind,
            interface_type: self.interface_type,
            status: self.status,
            ipv4: address_views(self.ipv4@),
            ipv6: address_views(self.ipv6@),
            mac_address: opt_chars(self.mac_address),
            mtu: self.mtu,
            stats: self.stats,
        }
    }
}

/// The views of a vector of interfaces.
pub open spec fn interface_views(v: Seq<NetworkInterface>) -> Seq<InterfaceView> {
    v.map_values(|i: NetworkInterface| i@)
}

#[derive(Clone, Debug, PartialEq, Eq)]
pub struct ActiveConnection {
    pub proto: String,
    pub local_ip: String,
    pub local_port: String,
    pub foreign_ip: String,
    pub foreign_port: String,
    pub state: Option<String>,
}

/// A connection as plain values.
pub struct ConnectionView {
    pub proto: Seq<char>,
    pub local_ip: Seq<char>,
    pub local_port: Seq<char>,
    pub foreign_ip: Seq<char>,
    pub foreign_port: Seq<char>,
    pub state: Option<Seq<char>>,
}

impl View for ActiveConnection {
    type V = ConnectionView;

    open spec fn view(&self) -> ConnectionView {
        ConnectionView {
            proto: self.proto@,
            local_ip: self.local_ip@,
            local_port: self.local_port@,
            foreign_ip: self.foreign_ip@,
            foreign_port: self.foreign_port@,
            state: opt_chars(self.state),
        }
    }
}

pub open spec fn connection_views(v: Seq<ActiveConnection>) -> Seq<ConnectionView> {
    v.map_values(|c: ActiveConnection| c@)
}

#[derive(Clone, Debug, PartialEq, Eq)]
pub struct ListeningPort {
    pub proto: String,
    pub local_ip: String,
    pub local_port: String,
    pub pid: String,
    pub command: String,
    pub user: String,
}

/// A listening port as plain values.
pub struct PortView {
    pub proto: Seq<char>,
    pub local_ip: Seq<char>,
    pub local_port: Seq<char>,
    pub pid: Seq<char>,
    pub command: Seq<char>,
    pub user: Seq<char>,
}

impl View for ListeningPort {
    type V = PortView;

    open spec fn view(&self) -> PortView {
        PortView {
            proto: self.proto@,
            local_ip: self.local_ip@,
            local_port: self.local_port@,
            pid: self.pid@,
            command: self.command@,
            user: self.user@,
        }
    }
}

pub open spec fn port_views(v: Seq<ListeningPort>) -> Seq<PortView> {
    v.map_values(|p: ListeningPort| p@)
}

#[derive(Clone, Copy, Debug, PartialEq, Eq, Structural)]
pub enum RouteFamily {
    Ipv4,
    Ipv6,
    Unknown,
}

#[derive(Clone, Debug, PartialEq, Eq)]
pub struct RouteEntry {
    pub destination: String,
    pub gateway: String,
    pub interface: String,
    pub metric: Option<u32>,
    pub protocol: Option<String>,
    pub flags: Option<String>,
    pub family: RouteFamily,
}

/// A route as plain values.
pub struct RouteView {
    pub destination: Seq<char>,
    pub gateway: Seq<char>,
    pub interface: Seq<char>,
    pub metric: Option<u32>,
    pub protocol: Option<Seq<char>>,
    pub flags: Option<Seq<char>>,
    pub family: RouteFamily,
}

impl View for RouteEntry {
    type V = RouteView;

    open spec fn view(&self) -> RouteView {
        RouteView {
            destination: self.destination@,
            gateway: self.gateway@,
            interface: self.interface@,
            metric: self.metric,
            protocol: opt_chars(self.protocol),
            flags: opt_chars(self.flags),
            family: self.family,
        }
    }
}

impl RouteEntry {
    /// A route with only its destination, gateway and interface known.
    pub fn new(destination: &str, gateway: &str, interface: &str) -> (r: Self)
        ensures
            r.destination@ == destination@,
            r.gateway@ == gateway@,
            r.interface@ == interface@,
            r.metric is None,
            r.protocol is None,
            r.flags is None,
            r.family == RouteFamily::Unknown,
    {
        RouteEntry {
            destination: owned(destination),
            gateway: owned(gateway),
            interface: owned(interface),
            metric: None,
            protocol: None,
            flags: None,
            family: RouteFamily::Unknown,
        }
    }
}

pub open spec fn route_views(v: Seq<RouteEntry>) -> Seq<RouteView> {
    v.map_values(|r: RouteEntry| r@)
}

pub fn clone_route(r: &RouteEntry) -> (c: RouteEntry)
    ensures
        c@ == r@,
{
    RouteEntry {
        destination: r.destination.clone(),
        gateway: r.gateway.clone(),
        interface: r.interface.clone(),
        metric: r.metric,
        protocol: match &r.protocol {
            Some(p) => Some(p.clone()),
            None => None,
        },
        flags: match &r.flags {
            Some(f) => Some(f.clone()),
            None => None,
        },
        family: r.family,
    }
}

#[derive(Clone, Debug, PartialEq, Eq)]
pub struct PublicIpInfo {
    pub ip: String,
    pub provider: Option<String>,
    pub country: Option<String>,
}

#[derive(Clone, Debug, Default, PartialEq, Eq)]
pub struct NetworkSnapshot {
    pub interfaces: Vec<NetworkInterface>,
    pub connections: Vec<ActiveConnection>,
    pub listening_ports: Vec<ListeningPort>,
    pub routes: Vec<RouteEntry>,
    pub captured_at_secs: u64,
}

#[derive(Clone, Copy, Debug, PartialEq, Eq, Structural)]
pub enum EventSeverity {
    Info,
    Warning,
    Error,
}

impl EventSeverity {
    pub open spec fn label(self) -> Seq<char> {
        match self {
            EventSeverity::Info => "INFO"@,
            EventSeverity::Warning => "WARNING"@,
            EventSeverity::Error => "ERROR"@,
        }
    }

    pub fn as_str(&self) -> (r: &'static str)
        ensures
            r@ == self.label(),
    {
        match self {
            EventSeverity::Info => "INFO",
            EventSeverity::Warning => "WARNING",
            EventSeverity::Error => "ERROR",
        }
    }
}

#[derive(Clone, Copy, Debug, PartialEq, Eq, Hash, Structural)]
pub enum NetworkEventKind {
    InterfaceAppeared,
    InterfaceRemoved,
    InterfaceUp,
    InterfaceDown,
    Ipv4Added,
    Ipv4Removed,
    Ipv4Changed,
    Ipv6Added,
    Ipv6Removed,
    Ipv6Changed,
    VpnConnected,
    VpnDisconnected,
    ContainerNetworkAppeared,
    ContainerNetworkRemoved,
    ProcessKilled,
    ActionCopied,
    ActionWhois,
    SystemError,
    PublicIpChanged,
    ProviderChanged,
    UpdateAvailable,
    UpdateInstalled,
    UpdateCheckFailed,
}

impl NetworkEventKind {
    pub open spec fn label(self) -> Seq<char> {
        match self {
            NetworkEventKind::InterfaceAppeared => "Interface Appeared"@,
            NetworkEventKind::InterfaceRemoved => "Interface Removed"@,
            NetworkEventKind::InterfaceUp => "Interface Up"@,
            NetworkEventKind::InterfaceDown => "Interface Down"@,
            NetworkEventKind::Ipv4Added => "IPv4 Added"@,
            NetworkEventKind::Ipv4Removed => "IPv4 Removed"@,
            NetworkEventKind::Ipv4Changed => "IPv4 Changed"@,
            NetworkEventKind::Ipv6Added => "IPv6 Added"@,
            NetworkEventKind::Ipv6Removed => "IPv6 Removed"@,
            NetworkEventKind::Ipv6Changed => "IPv6 Changed"@,
            NetworkEventKind::VpnConnected => "VPN Connected"@,
            NetworkEventKind::VpnDisconnected => "VPN Disconnected"@,
            NetworkEventKind::ContainerNetworkAppeared => "Container Network Appeared"@,
            NetworkEventKind::ContainerNetworkRemoved => "Container Network Removed"@,
            NetworkEventKind::ProcessKilled => "Process Killed"@,
            NetworkEventKind::ActionCopied => "Copied to Clipboard"@,
            NetworkEventKind::ActionWhois => "WHOIS Lookup"@,
            NetworkEventKind::SystemError => "System Error"@,
            NetworkEventKind::PublicIpChanged => "Public IP Changed"@,
            NetworkEventKind::ProviderChanged => "Provider Changed"@,
            NetworkEventKind::UpdateAvailable => "Update Available"@,
            NetworkEventKind::UpdateInstalled => "Update Installed"@,
            NetworkEventKind::UpdateCheckFailed => "Update Check Failed"@,
        }
    }

    pub fn as_str(&self) -> (r: &'static str)
        ensures
            r@ == self.label(),
    {
        match self {
            NetworkEventKind::InterfaceAppeared => "Interface Appeared",
            NetworkEventKind::InterfaceRemoved => "Interface Removed",
            NetworkEventKind::InterfaceUp => "Interface Up",
            NetworkEventKind::InterfaceDown => "Interface Down",
            NetworkEventKind::Ipv4Added => "IPv4 Added",
            NetworkEventKind::Ipv4Removed => "IPv4 Removed",
            NetworkEventKind::Ipv4Changed => "IPv4 Changed",
            NetworkEventKind::Ipv6Added => "IPv6 Added",
            NetworkEventKind::Ipv6Removed => "IPv6 Removed",
            NetworkEventKind::Ipv6Changed => "IPv6 Changed",
            NetworkEventKind::VpnConnected => "VPN Connected",
            NetworkEventKind::VpnDisconnected => "VPN Disconnected",
            NetworkEventKind::ContainerNetworkAppeared => "Container Network Appeared",
            NetworkEventKind::ContainerNetworkRemoved => "Container Network Removed",
            NetworkEventKind::ProcessKilled => "Process Killed",
            NetworkEventKind::ActionCopied => "Copied to Clipboard",
            NetworkEventKind::ActionWhois => "WHOIS Lookup",
            NetworkEventKind::SystemError => "System Error",
            NetworkEventKind::PublicIpChanged => "Public IP Changed",
            NetworkEventKind::ProviderChanged => "Provider Changed",
            NetworkEventKind::UpdateAvailable => "Update Available",
            NetworkEventKind::UpdateInstalled => "Update Installed",
            NetworkEventKind::UpdateCheckFailed => "Update Check Failed",
        }
    }
}

#[derive(Clone, Debug, PartialEq, Eq)]
pub struct NetworkEvent {
    pub timestamp: std::time::SystemTime,
    pub severity: EventSeverity,
    pub kind: NetworkEventKind,
    pub message: String,
}

/// `SystemTime::now`: the current time of the machine; nothing is promised
/// of the value.
#[verifier::external_body]
fn system_time_now() -> std::time::SystemTime {
    std::time::SystemTime::now()
}

impl NetworkEvent {
    pub fn new(kind: NetworkEventKind, severity: EventSeverity, message: String) -> (r: Self)
        ensures
            r.kind == kind,
            r.severity == severity,
            r.message == message,
    {
        NetworkEvent { timestamp: system_time_now(), severity, kind, message }
    }
}

#[derive(Clone, Copy, Debug, PartialEq, Eq, Hash, Structural)]
pub enum CommandSourceId {
    Ifconfig,
    NetstatRoutes,
    DefaultRoute,
    NetstatConnections,
    LsofPorts,
    PublicIp,
    GitHubRelease,
    Arp,
    Ipv6Routes,
    IpRules,
    RoutePath,
}

impl CommandSourceId {
    /// The command line shown for a source on a machine whose operating
    /// system is called `os`: for the sources collected on every refresh,
    /// the display of the command that runs there.
    pub open spec fn label(self, os: Seq<char>) -> Seq<char> {
        match self {
            CommandSourceId::Ifconfig => interface_command(os).0,
            CommandSourceId::NetstatRoutes => route_table_command(os).0,
            CommandSourceId::DefaultRoute => default_route_command(os).0,
            CommandSourceId::NetstatConnections => "netstat -an"@,
            CommandSourceId::LsofPorts => listening_ports_command(os).0,
            CommandSourceId::PublicIp => "curl -s -m 5 https://ipinfo.io/json"@,
            CommandSourceId::GitHubRelease =>
                "curl -s -L https://api.github.com/repos/<owner>/<repo>/releases/latest"@,
            CommandSourceId::Arp => "arp -a"@,
            CommandSourceId::Ipv6Routes => "ip -6 route show"@,
            CommandSourceId::IpRules => "ip rule"@,
            CommandSourceId::RoutePath => "route path lookup"@,
        }
    }

    /// The command line of this source; `os` is the name of the operating
    /// system (`std::env::consts::OS`).
    pub fn as_str(&self, os: &str) -> (r: &'static str)
        ensures
            r@ == self.label(os@),
    {
        match self {
            CommandSourceId::Ifconfig => interface_command_spec_for_os(os).display,
            CommandSourceId::NetstatRoutes => route_table_command_spec_for_os(os).display,
            CommandSourceId::DefaultRoute => default_route_command_spec_for_os(os).display,
            CommandSourceId::NetstatConnections => "netstat -an",
            CommandSourceId::LsofPorts => listening_ports_command_spec_for_os(os).display,
            CommandSourceId::PublicIp => "curl -s -m 5 https://ipinfo.io/json",
            CommandSourceId::GitHubRelease =>
                "curl -s -L https://api.github.com/repos/<owner>/<repo>/releases/latest",
            CommandSourceId::Arp => "arp -a",
            CommandSourceId::Ipv6Routes => "ip -6 route show",
            CommandSourceId::IpRules => "ip rule",
            CommandSourceId::RoutePath => "route path lookup",
        }
    }
}

/// The raw-output label of each source collected on every refresh names
/// the command that runs for it, on every operating system.
pub proof fn lemma_source_labels_name_the_commands(os: Seq<char>)
    ensures
        CommandSourceId::Ifconfig.label(os) == interface_command(os).0,
        CommandSourceId::NetstatRoutes.label(os) == route_table_command(os).0,
        CommandSourceId::DefaultRoute.label(os) == default_route_command(os).0,
        CommandSourceId::LsofPorts.label(os) == listening_ports_command(os).0,
{
}

#[derive(Clone, Debug)]
pub struct CommandOutput {
    pub command: String,
    pub stdout: String,
    pub stderr: String,
    pub executed_at: std::time::SystemTime,
    pub exit_code: Option<i32>,
}

#[derive(Clone, Copy, Debug, PartialEq, Eq, Structural)]
pub enum RouteDiagnosticSeverity {
    Info,
    Warning,
    Error,
}

#[derive(Clone, Debug, PartialEq, Eq)]
pub struct RouteDiagnostic {
    pub severity: RouteDiagnosticSeverity,
    pub title: String,
    pub description: String,
    pub affected_route: Option<RouteEntry>,
    pub recommendation: String,
}

/// The outcome of asking the system how a destination is routed.
#[derive(Clone, Debug, Default, PartialEq, Eq)]
pub struct RoutePathResult {
    pub destination: String,
    pub resolved_destination: Option<String>,
    pub source_ip: Option<String>,
    pub interface: Option<String>,
    pub gateway: Option<String>,
    pub is_vpn: bool,
    pub raw_output: String,
}

#[derive(Clone, Copy, Debug, PartialEq, Eq, Structural)]
pub enum RouteGraphNodeKind {
    Host,
    Interface,
    Gateway,
    VpnTunnel,
    Internet,
    Destination,
}

#[derive(Clone, Debug, PartialEq, Eq)]
pub struct RouteGraphNode {
    pub kind: RouteGraphNodeKind,
    pub label: String,
    pub detail: Option<String>,
}

#[derive(Clone, Debug, PartialEq, Eq)]
pub struct RouteGraph {
    pub nodes: Vec<RouteGraphNode>,
}

/// A network that the network view groups addresses by: its address with
/// the host bits cleared (an IPv4 address as its 32-bit value, an IPv6
/// address as its 128-bit value) and its prefix length, or no network.
#[derive(Clone, Copy, Debug, PartialEq, Eq, Structural)]
pub enum Subnet {
    Ipv4 { network: u32, prefix_len: u8 },
    Ipv6 { network: u128, prefix_len: u8 },
    Unassigned,
}

/// The order of subnets: IPv4 networks first, then IPv6 networks, each by
/// address and then by prefix length, and the unassigned group last.
pub open spec fn subnet_before(a: Subnet, b: Subnet) -> bool {
    match (a, b) {
        (Subnet::Ipv4 { network: n1, prefix_len: p1 }, Subnet::Ipv4 { network: n2, prefix_len: p2 }) => n1 < n2
            || (n1 == n2 && p1 < p2),
        (Subnet::Ipv6 { network: n1, prefix_len: p1 }, Subnet::Ipv6 { network: n2, prefix_len: p2 }) => n1 < n2
            || (n1 == n2 && p1 < p2),
        (Subnet::Ipv4 { .. }, Subnet::Ipv4 { .. }) => false,
        (Subnet::Ipv4 { .. }, _) => true,
        (Subnet::Ipv6 { .. }, Subnet::Unassigned) => true,
        _ => false,
    }
}

impl Subnet {
    /// Whether `self` comes strictly before `other` in the order of subnets.
    pub fn precedes(&self, other: &Subnet) -> (r: bool)
        ensures
            r == subnet_before(*self, *other),
    {
        match (self, other) {
            (Subnet::Ipv4 { network: n1, prefix_len: p1 }, Subnet::Ipv4 { network: n2, prefix_len: p2 }) => *n1
                < *n2 || (*n1 == *n2 && *p1 < *p2),
            (Subnet::Ipv6 { network: n1, prefix_len: p1 }, Subnet::Ipv6 { network: n2, prefix_len: p2 }) => *n1
                < *n2 || (*n1 == *n2 && *p1 < *p2),
            (Subnet::Ipv4 { .. }, _) => true,
            (Subnet::Ipv6 { .. }, Subnet::Unassigned) => true,
            _ => false,
        }
    }
}

/// The order of subnets is a strict total order.
pub proof fn lemma_subnet_order(a: Subnet, b: Subnet, c: Subnet)
    ensures
        !subnet_before(a, a),
        subnet_before(a, b) ==> !subnet_before(b, a),
        subnet_before(a, b) && subnet_before(b, c) ==> subnet_before(a, c),
        a != b ==> subnet_before(a, b) || subnet_before(b, a),
{
}

#[derive(Clone, Copy, Debug, PartialEq, Eq, Structural)]
pub enum RouteInspectorSection {
    Summary,
    PathViewer,
    RouteTable,
    VpnRoutes,
    Diagnostics,
}

#[derive(Clone, Copy, Debug, PartialEq, Eq, Structural)]
pub enum RouteSortColumn {
    Destination,
    Gateway,
    Interface,
    Metric,
}

/// Cumulative CPU tick counters at one moment.
#[derive(Clone, Copy, Debug, PartialEq, Eq, Structural)]
pub struct CpuSample {
    pub idle_ticks: u64,
    pub total_ticks: u64,
}

#[derive(Clone, Copy, Debug, PartialEq, Eq, Structural)]
pub struct SystemMetrics {
    pub cpu_usage_percent: Option<u8>,
    pub memory_used_bytes: Option<u64>,
    pub memory_total_bytes: Option<u64>,
}

impl Default for SystemMetrics {
    fn default() -> (r: Self)
        ensures
            r.cpu_usage_percent is None,
            r.memory_used_bytes is None,
            r.memory_total_bytes is None,
    {
        SystemMetrics { cpu_usage_percent: None, memory_used_bytes: None, memory_total_bytes: None }
    }
}

} // verus!
