//! The text of the list rows and of the details pane: what a row of each
//! kind reads, and the details of a subnet, an interface, a connection, a
//! listening port or an event.  The terminal front end draws these lines.
use vstd::prelude::*;

use crate::app::{App, GroupEntry, ViewMode, v4_entries, v6_entries};
use crate::model::{
    AddressView, EventSeverity, InterfaceAddress, InterfaceStatus, InterfaceView, NetworkEventKind,
    NetworkInterface, NetworkKind, Subnet, opt_chars,
};
use crate::net::{v4_text, v6_text, v4_text_exec, v6_text_exec};
use crate::text::{
    chars_of, concat2, concat3, contains, contains_str, decimal, decimal_string, lemma_split_scan_nonempty,
    lines, lines_of, lowercase, owned, pad_right, pad_right_str, push_str, split_by_char, split_char,
    str_to_uppercase, string_of, to_lowercase_spec, to_uppercase_spec, views,
};
use crate::screen::{TextSpan, TextStyle, Tint, bold, line_views, plain, span_views, tinted, tinted_bold};
use crate::view::{ipv4_mask, octets_of, prefix_len_to_ipv4_mask};

verus! {

// ---------------------------------------------------------------------------
// Addresses as text
// ---------------------------------------------------------------------------
/// The eight 16-bit groups of a 128-bit number, most significant first.
pub open spec fn groups_of(n: u128) -> Seq<u16> {
    seq![
        (n / 0x1_0000_0000_0000_0000_0000_0000_0000) as u16,
        ((n / 0x1_0000_0000_0000_0000_0000_0000) % 0x1_0000) as u16,
        ((n / 0x1_0000_0000_0000_0000_0000) % 0x1_0000) as u16,
        ((n / 0x1_0000_0000_0000_0000) % 0x1_0000) as u16,
        ((n / 0x1_0000_0000_0000) % 0x1_0000) as u16,
        ((n / 0x1_0000_0000) % 0x1_0000) as u16,
        ((n / 0x1_0000) % 0x1_0000) as u16,
        (n % 0x1_0000) as u16,
    ]
}

/// How a subnet heads its group: `▼ network/prefix`, or the group of
/// interfaces without an address.
pub open spec fn subnet_heading(s: Subnet) -> Seq<char> {
    match s {
        Subnet::Ipv4 { network, prefix_len } => "▼ "@ + v4_text(octets_of(network)) + "/"@ + decimal(
            prefix_len as nat,
        ),
        Subnet::Ipv6 { network, prefix_len } => "▼ "@ + v6_text(groups_of(network)) + "/"@ + decimal(
            prefix_len as nat,
        ),
        Subnet::Unassigned => "▼ Unassigned / No IP"@,
    }
}

/// The dotted text of a 32-bit address.
fn ipv4_text(n: u32) -> (r: String)
    ensures
        r@ == v4_text(octets_of(n)),
{
    let o = [(n / 0x100_0000) as u8, ((n / 0x1_0000) % 256) as u8, ((n / 256) % 256) as u8, (n % 256) as u8];
    assert(o@ =~= octets_of(n));
    string_of(&v4_text_exec(&o))
}

/// The text of a 128-bit address as `Ipv6Addr` writes it.
fn ipv6_text(n: u128) -> (r: String)
    ensures
        r@ == v6_text(groups_of(n)),
{
    let g: [u16; 8] = [
        (n / 0x1_0000_0000_0000_0000_0000_0000_0000) as u16,
        ((n / 0x1_0000_0000_0000_0000_0000_0000) % 0x1_0000) as u16,
        ((n / 0x1_0000_0000_0000_0000_0000) % 0x1_0000) as u16,
        ((n / 0x1_0000_0000_0000_0000) % 0x1_0000) as u16,
        ((n / 0x1_0000_0000_0000) % 0x1_0000) as u16,
        ((n / 0x1_0000_0000) % 0x1_0000) as u16,
        ((n / 0x1_0000) % 0x1_0000) as u16,
        (n % 0x1_0000) as u16,
    ];
    assert(g@ =~= groups_of(n));
    string_of(&v6_text_exec(&g))
}

pub fn subnet_label(s: &Subnet) -> (r: String)
    ensures
        r@ == subnet_heading(*s),
{
    match s {
        Subnet::Ipv4 { network, prefix_len } => {
            let mut r = concat2("▼ ", ipv4_text(*network).as_str());
            push_str(&mut r, "/");
            push_str(&mut r, decimal_string(*prefix_len as u64).as_str());
            r
        },
        Subnet::Ipv6 { network, prefix_len } => {
            let mut r = concat2("▼ ", ipv6_text(*network).as_str());
            push_str(&mut r, "/");
            push_str(&mut r, decimal_string(*prefix_len as u64).as_str());
            r
        },
        Subnet::Unassigned => owned("▼ Unassigned / No IP"),
    }
}

// ---------------------------------------------------------------------------
// List rows
// ---------------------------------------------------------------------------
/// The first interface of `ifaces` with this name.
pub open spec fn first_named(ifaces: Seq<NetworkInterface>, name: Seq<char>) -> Option<NetworkInterface>
    decreases ifaces.len(),
{
    if ifaces.len() == 0 {
        None
    } else if ifaces[0].name@ == name {
        Some(ifaces[0])
    } else {
        first_named(ifaces.drop_first(), name)
    }
}

/// The interface of the current snapshot that a row of this name shows.
pub open spec fn shown_interface(app: App, name: Seq<char>) -> Option<NetworkInterface> {
    match app.current_snapshot {
        Some(s) => first_named(s.interfaces@, name),
        None => None,
    }
}

pub open spec fn deref(o: Option<&NetworkInterface>) -> Option<NetworkInterface> {
    match o {
        Some(i) => Some(*i),
        None => None,
    }
}

fn find_first_named<'a>(ifaces: &'a Vec<NetworkInterface>, name: &str) -> (r: Option<&'a NetworkInterface>)
    ensures
        deref(r) == first_named(ifaces@, name@),
{
    let mut i: usize = 0;
    assert(ifaces@.skip(0) =~= ifaces@);
    while i < ifaces.len()
        invariant
            i <= ifaces.len(),
            first_named(ifaces@, name@) == first_named(ifaces@.skip(i as int), name@),
        decreases ifaces.len() - i,
    {
        assert(ifaces@.skip(i as int)[0] == ifaces@[i as int]);
        if crate::text::str_eq(ifaces[i].name.as_str(), name) {
            return Some(&ifaces[i]);
        }
        assert(ifaces@.skip(i as int).drop_first() =~= ifaces@.skip(i + 1));
        i = i + 1;
    }
    assert(ifaces@.skip(i as int).len() == 0);
    None
}

fn snapshot_interface<'a>(app: &'a App, name: &str) -> (r: Option<&'a NetworkInterface>)
    ensures
        deref(r) == shown_interface(*app, name@),
{
    match &app.current_snapshot {
        Some(s) => find_first_named(&s.interfaces, name),
        None => None,
    }
}

pub open spec fn is_up(found: Option<NetworkInterface>) -> bool {
    found matches Some(i) && i.status == InterfaceStatus::Up
}

pub open spec fn shown_kind(found: Option<NetworkInterface>) -> NetworkKind {
    match found {
        Some(i) => i.network_kind,
        None => NetworkKind::Unknown,
    }
}

/// An interface row: indented in the network view, a filled or hollow
/// dot for up or down, the name and the address shown with it, padded to
/// 35 characters and followed by the interface's classification.
pub open spec fn interface_row_text(app: App, name: Seq<char>, ip: Option<Seq<char>>) -> Seq<char> {
    let found = shown_interface(app, name);
    pad_right(
        (if app.view_mode == ViewMode::Network {
            "  "@
        } else {
            ""@
        }) + (if is_up(found) {
            "●"@
        } else {
            "○"@
        }) + " "@ + name + " ("@ + (match ip {
            Some(x) => x,
            None => "no IP"@,
        }) + ")"@,
        35,
    ) + shown_kind(found).label()
}

/// The text of an interface row and whether the interface is up.
pub fn interface_row(app: &App, name: &str, associated_ip: &Option<String>) -> (r: (String, bool))
    ensures
        r.0@ == interface_row_text(*app, name@, opt_chars(*associated_ip)),
        r.1 == is_up(shown_interface(*app, name@)),
{
    let found = snapshot_interface(app, name);
    let up = match found {
        Some(i) => i.status == InterfaceStatus::Up,
        None => false,
    };
    let kind = match found {
        Some(i) => i.network_kind,
        None => NetworkKind::Unknown,
    };
    let mut text = if app.view_mode == ViewMode::Network {
        owned("  ")
    } else {
        String::new()
    };
    push_str(&mut text, if up {
        "●"
    } else {
        "○"
    });
    push_str(&mut text, " ");
    push_str(&mut text, name);
    push_str(&mut text, " (");
    match associated_ip {
        Some(ip) => push_str(&mut text, ip.as_str()),
        None => push_str(&mut text, "no IP"),
    }
    push_str(&mut text, ")");
    let mut row = pad_right_str(text.as_str(), 35);
    push_str(&mut row, kind.as_str());
    proof {
        reveal_strlit("  ");
        reveal_strlit("");
    }
    (row, up)
}

/// A connection row: `[PROTO] local -> foreign` and the state in
/// parentheses when there is one.
pub open spec fn connection_row_text(
    proto: Seq<char>,
    local: Seq<char>,
    foreign: Seq<char>,
    state: Option<Seq<char>>,
) -> Seq<char> {
    "["@ + to_uppercase_spec(proto) + "] "@ + local + " -> "@ + foreign + match state {
        Some(s) => " ("@ + s + ")"@,
        None => ""@,
    }
}

pub fn connection_row(proto: &str, local: &str, foreign: &str, state: &Option<String>) -> (r: String)
    ensures
        r@ == connection_row_text(proto@, local@, foreign@, opt_chars(*state)),
{
    let mut r = concat3("[", str_to_uppercase(proto).as_str(), "] ");
    push_str(&mut r, local);
    push_str(&mut r, " -> ");
    push_str(&mut r, foreign);
    if let Some(s) = state {
        push_str(&mut r, " (");
        push_str(&mut r, s.as_str());
        push_str(&mut r, ")");
    }
    proof {
        reveal_strlit("");
    }
    r
}

/// A listening-port row: `[PROTO] :port` (padded to six characters), the
/// command and its process id.
pub open spec fn port_row_text(proto: Seq<char>, port: Seq<char>, command: Seq<char>, pid: Seq<char>) -> Seq<char> {
    "["@ + to_uppercase_spec(proto) + "] :"@ + pad_right(port, 6) + " "@ + command + " (PID: "@ + pid + ")"@
}

pub fn port_row(proto: &str, port: &str, command: &str, pid: &str) -> (r: String)
    ensures
        r@ == port_row_text(proto@, port@, command@, pid@),
{
    let mut r = concat3("[", str_to_uppercase(proto).as_str(), "] :");
    push_str(&mut r, pad_right_str(port, 6).as_str());
    push_str(&mut r, " ");
    push_str(&mut r, command);
    push_str(&mut r, " (PID: ");
    push_str(&mut r, pid);
    push_str(&mut r, ")");
    r
}

/// A route row: destination and gateway in columns of 18 and 16
/// characters, then the interface.
pub open spec fn route_row_text(destination: Seq<char>, gateway: Seq<char>, interface: Seq<char>) -> Seq<char> {
    pad_right(destination, 18) + " "@ + pad_right(gateway, 16) + " "@ + interface
}

pub fn route_row(destination: &str, gateway: &str, interface: &str) -> (r: String)
    ensures
        r@ == route_row_text(destination@, gateway@, interface@),
{
    let mut r = pad_right_str(destination, 18);
    push_str(&mut r, " ");
    push_str(&mut r, pad_right_str(gateway, 16).as_str());
    push_str(&mut r, " ");
    push_str(&mut r, interface);
    r
}

/// A timeline row: the time of day, the kind of event and its message.
pub open spec fn event_row_text(time: Seq<char>, kind: NetworkEventKind, message: Seq<char>) -> Seq<char> {
    time + " ["@ + kind.label() + "] "@ + message
}

pub fn event_row(time: &str, kind: NetworkEventKind, message: &str) -> (r: String)
    ensures
        r@ == event_row_text(time@, kind, message@),
{
    let mut r = concat3(time, " [", kind.as_str());
    push_str(&mut r, "] ");
    push_str(&mut r, message);
    r
}

// ---------------------------------------------------------------------------
// Subnet details
// ---------------------------------------------------------------------------
/// The protocol, network, prefix and mask lines of a subnet, each ending
/// in a newline.
pub open spec fn subnet_info(s: Subnet) -> Seq<char> {
    match s {
        Subnet::Ipv4 { network, prefix_len } => "Protocol:       IPv4\n"@ + "Network Addr:   "@ + v4_text(
            octets_of(network),
        ) + "\n"@ + "Prefix Length:  "@ + decimal(prefix_len as nat) + "\n"@ + "Subnet Mask:    "@ + v4_text(
            octets_of(ipv4_mask(prefix_len)),
        ) + "\n"@,
        Subnet::Ipv6 { network, prefix_len } => "Protocol:       IPv6\n"@ + "Network Addr:   "@ + v6_text(
            groups_of(network),
        ) + "\n"@ + "Prefix Length:  "@ + decimal(prefix_len as nat) + "\n"@,
        Subnet::Unassigned => "Protocol:       N/A\n"@
            + "Description:    Interfaces without an IP Address assigned.\n"@,
    }
}

/// The address of the first entry that falls in subnet `g`.
pub open spec fn first_in_group(entries: Seq<GroupEntry>, g: Subnet) -> Option<Seq<char>>
    decreases entries.len(),
{
    if entries.len() == 0 {
        None
    } else if entries[0].0 == g {
        entries[0].2
    } else {
        first_in_group(entries.drop_first(), g)
    }
}

/// Some address has a prefix length.
pub open spec fn has_prefixed(addrs: Seq<AddressView>) -> bool {
    exists|k: int| 0 <= k < addrs.len() && (#[trigger] addrs[k]).prefix_len is Some
}

/// The address by which an interface belongs to subnet `g`: its first
/// address in that subnet; for the unassigned group, "no IP" when no
/// address has a prefix length.
pub open spec fn member_address(i: InterfaceView, g: Subnet) -> Option<Seq<char>> {
    match g {
        Subnet::Ipv4 { .. } => first_in_group(v4_entries(i.name, i.ipv4), g),
        Subnet::Ipv6 { .. } => first_in_group(v6_entries(i.name, i.ipv6), g),
        Subnet::Unassigned => if has_prefixed(i.ipv4) || has_prefixed(i.ipv6) {
            None
        } else {
            Some("no IP"@)
        },
    }
}

/// One line for each interface in subnet `g`: its name and the address.
pub open spec fn member_text(ifaces: Seq<InterfaceView>, g: Subnet) -> Seq<char>
    decreases ifaces.len(),
{
    if ifaces.len() == 0 {
        Seq::empty()
    } else {
        member_text(ifaces.drop_last(), g) + match member_address(ifaces.last(), g) {
            Some(a) => "  - "@ + ifaces.last().name + " ("@ + a + ")\n"@,
            None => Seq::empty(),
        }
    }
}

/// The details of a subnet: what it is, and its member interfaces in the
/// current snapshot.
pub open spec fn subnet_details_text(app: App, s: Subnet) -> Seq<char> {
    "=== Subnet Information ===\n\n"@ + subnet_info(s) + "\nMember Interfaces:\n"@ + match app.current_snapshot {
        Some(snap) => member_text(crate::model::interface_views(snap.interfaces@), s),
        None => Seq::empty(),
    }
}

fn first_in_group_exec(entries: &Vec<crate::app::ExecEntry>, g: &Subnet) -> (r: Option<String>)
    ensures
        opt_chars(r) == first_in_group(crate::app::entry_views(entries@), *g),
{
    let ghost ev = crate::app::entry_views(entries@);
    let mut i: usize = 0;
    assert(ev.skip(0) =~= ev);
    while i < entries.len()
        invariant
            i <= entries.len(),
            ev == crate::app::entry_views(entries@),
            first_in_group(ev, *g) == first_in_group(ev.skip(i as int), *g),
        decreases entries.len() - i,
    {
        assert(ev.skip(i as int)[0] == ev[i as int]);
        if entries[i].0 == *g {
            return crate::model::copy_opt(&entries[i].2);
        }
        assert(ev.skip(i as int).drop_first() =~= ev.skip(i + 1));
        i = i + 1;
    }
    assert(ev.skip(i as int).len() == 0);
    None
}

fn any_prefixed(addrs: &Vec<InterfaceAddress>) -> (r: bool)
    ensures
        r == has_prefixed(crate::model::address_views(addrs@)),
{
    let ghost av = crate::model::address_views(addrs@);
    for k in 0..addrs.len()
        invariant
            av == crate::model::address_views(addrs@),
            forall|j: int| 0 <= j < k ==> av[j].prefix_len is None,
    {
        assert(av[k as int] == addrs@[k as int]@);
        if addrs[k].prefix_len.is_some() {
            return true;
        }
    }
    false
}

fn member_of(i: &NetworkInterface, g: &Subnet) -> (r: Option<String>)
    ensures
        opt_chars(r) == member_address(i@, *g),
{
    match g {
        Subnet::Ipv4 { .. } => {
            let e = crate::app::address_entries(&i.name, &i.ipv4, false);
            first_in_group_exec(&e, g)
        },
        Subnet::Ipv6 { .. } => {
            let e = crate::app::address_entries(&i.name, &i.ipv6, true);
            first_in_group_exec(&e, g)
        },
        Subnet::Unassigned => {
            if any_prefixed(&i.ipv4) || any_prefixed(&i.ipv6) {
                None
            } else {
                Some(owned("no IP"))
            }
        },
    }
}

/// The details text of a subnet, as the details pane shows it.
pub fn subnet_details(app: &App, s: &Subnet) -> (r: String)
    ensures
        r@ == subnet_details_text(*app, *s),
{
    let mut r = owned("=== Subnet Information ===\n\n");
    match s {
        Subnet::Ipv4 { network, prefix_len } => {
            push_str(&mut r, "Protocol:       IPv4\n");
            push_str(&mut r, "Network Addr:   ");
            push_str(&mut r, ipv4_text(*network).as_str());
            push_str(&mut r, "\n");
            push_str(&mut r, "Prefix Length:  ");
            push_str(&mut r, decimal_string(*prefix_len as u64).as_str());
            push_str(&mut r, "\n");
            push_str(&mut r, "Subnet Mask:    ");
            push_str(&mut r, prefix_len_to_ipv4_mask(*prefix_len).as_str());
            push_str(&mut r, "\n");
        },
        Subnet::Ipv6 { network, prefix_len } => {
            push_str(&mut r, "Protocol:       IPv6\n");
            push_str(&mut r, "Network Addr:   ");
            push_str(&mut r, ipv6_text(*network).as_str());
            push_str(&mut r, "\n");
            push_str(&mut r, "Prefix Length:  ");
            push_str(&mut r, decimal_string(*prefix_len as u64).as_str());
            push_str(&mut r, "\n");
        },
        Subnet::Unassigned => {
            push_str(&mut r, "Protocol:       N/A\n");
            push_str(&mut r, "Description:    Interfaces without an IP Address assigned.\n");
        },
    }
    push_str(&mut r, "\nMember Interfaces:\n");
    let ghost head = r@;
    assert(head == "=== Subnet Information ===\n\n"@ + subnet_info(*s) + "\nMember Interfaces:\n"@);
    if let Some(snap) = &app.current_snapshot {
        let ifaces = &snap.interfaces;
        let ghost iv = crate::model::interface_views(ifaces@);
        for k in 0..ifaces.len()
            invariant
                iv == crate::model::interface_views(ifaces@),
                r@ == head + member_text(iv.take(k as int), *s),
        {
            assert(iv.take(k + 1).drop_last() =~= iv.take(k as int));
            assert(iv.take(k + 1).last() == ifaces@[k as int]@);
            let i = &ifaces[k];
            if let Some(a) = member_of(i, s) {
                push_str(&mut r, "  - ");
                push_str(&mut r, i.name.as_str());
                push_str(&mut r, " (");
                push_str(&mut r, a.as_str());
                push_str(&mut r, ")\n");
            }
            assert(r@ =~= head + member_text(iv.take(k + 1), *s));
        }
        assert(iv.take(ifaces.len() as int) =~= iv);
    } else {
        assert(r@ =~= head + Seq::<char>::empty());
    }
    r
}

// ---------------------------------------------------------------------------
// Interface details
// ---------------------------------------------------------------------------
/// One address line: the address, its prefix length (`?` when unknown)
/// and its gateway when there is one.
pub open spec fn address_line(a: AddressView) -> Seq<char> {
    "  - "@ + a.value + " / "@ + (match a.prefix_len {
        Some(p) => decimal(p as nat),
        None => "?"@,
    }) + (match a.gateway {
        Some(g) => " (Gateway: "@ + g + ")"@,
        None => ""@,
    }) + "\n"@
}

pub open spec fn address_text(addrs: Seq<AddressView>) -> Seq<char>
    decreases addrs.len(),
{
    if addrs.len() == 0 {
        Seq::empty()
    } else {
        address_text(addrs.drop_last()) + address_line(addrs.last())
    }
}

/// The first lines of the interface details: name, classification,
/// state, MAC address and MTU.
pub open spec fn interface_head(i: InterfaceView) -> Seq<char> {
    "Name:           "@ + i.name + "\n"@ + "Classification: "@ + i.network_kind.label() + "\n"@
        + "Status:         "@ + (if i.status == InterfaceStatus::Up {
        "Active / Up"@
    } else {
        "Inactive / Down"@
    }) + "\n"@ + "MAC Address:    "@ + (match i.mac_address {
        Some(m) => m,
        None => "N/A"@,
    }) + "\n"@ + "MTU:            "@ + (match i.mtu {
        Some(m) => decimal(m as nat),
        None => "N/A"@,
    }) + "\n"@
}

/// The cumulative traffic counters, or a note that there are none.
pub open spec fn stats_text(stats: Option<crate::model::InterfaceStats>) -> Seq<char> {
    match stats {
        Some(st) => "  Packets: RX "@ + decimal(st.rx_packets as nat) + " / TX "@ + decimal(
            st.tx_packets as nat,
        ) + "\n"@ + "  Bytes:   RX "@ + decimal(st.rx_bytes as nat) + " / TX "@ + decimal(
            st.tx_bytes as nat,
        ) + "\n"@,
        None => "  No stats available\n"@,
    }
}

/// The details of an interface: its name, classification, state, MAC
/// address and MTU, its addresses, and its cumulative traffic counters.
pub open spec fn interface_details_text(i: InterfaceView) -> Seq<char> {
    interface_head(i) + "\nIPv4 Addresses:\n"@ + address_text(i.ipv4) + "IPv6 Addresses:\n"@
        + address_text(i.ipv6) + "\nTraffic Cumulative Stats:\n"@ + stats_text(i.stats)
}

fn address_line_exec(a: &InterfaceAddress) -> (r: String)
    ensures
        r@ == address_line(a@),
{
    let mut r = concat3("  - ", a.value.as_str(), " / ");
    match a.prefix_len {
        Some(p) => push_str(&mut r, decimal_string(p as u64).as_str()),
        None => push_str(&mut r, "?"),
    }
    if let Some(g) = &a.gateway {
        push_str(&mut r, " (Gateway: ");
        push_str(&mut r, g.as_str());
        push_str(&mut r, ")");
    }
    push_str(&mut r, "\n");
    proof {
        reveal_strlit("");
    }
    r
}

fn push_addresses(r: &mut String, addrs: &Vec<InterfaceAddress>)
    ensures
        final(r)@ == old(r)@ + address_text(crate::model::address_views(addrs@)),
{
    let ghost start = r@;
    let ghost av = crate::model::address_views(addrs@);
    for k in 0..addrs.len()
        invariant
            av == crate::model::address_views(addrs@),
            r@ == start + address_text(av.take(k as int)),
    {
        assert(av.take(k + 1).drop_last() =~= av.take(k as int));
        assert(av.take(k + 1).last() == addrs@[k as int]@);
        let line = address_line_exec(&addrs[k]);
        push_str(r, line.as_str());
        assert(r@ =~= start + address_text(av.take(k + 1)));
    }
    assert(av.take(addrs.len() as int) =~= av);
}

fn interface_head_exec(i: &NetworkInterface) -> (r: String)
    ensures
        r@ == interface_head(i@),
{
    let mut r = concat3("Name:           ", i.name.as_str(), "\n");
    push_str(&mut r, "Classification: ");
    push_str(&mut r, i.network_kind.as_str());
    push_str(&mut r, "\n");
    push_str(&mut r, "Status:         ");
    push_str(&mut r, if i.status == InterfaceStatus::Up {
        "Active / Up"
    } else {
        "Inactive / Down"
    });
    push_str(&mut r, "\n");
    push_str(&mut r, "MAC Address:    ");
    match &i.mac_address {
        Some(m) => push_str(&mut r, m.as_str()),
        None => push_str(&mut r, "N/A"),
    }
    push_str(&mut r, "\n");
    push_str(&mut r, "MTU:            ");
    match i.mtu {
        Some(m) => push_str(&mut r, decimal_string(m as u64).as_str()),
        None => push_str(&mut r, "N/A"),
    }
    push_str(&mut r, "\n");
    r
}

fn stats_exec(stats: &Option<crate::model::InterfaceStats>) -> (r: String)
    ensures
        r@ == stats_text(*stats),
{
    match stats {
        Some(st) => {
            let mut r = concat2("  Packets: RX ", decimal_string(st.rx_packets).as_str());
            push_str(&mut r, " / TX ");
            push_str(&mut r, decimal_string(st.tx_packets).as_str());
            push_str(&mut r, "\n");
            push_str(&mut r, "  Bytes:   RX ");
            push_str(&mut r, decimal_string(st.rx_bytes).as_str());
            push_str(&mut r, " / TX ");
            push_str(&mut r, decimal_string(st.tx_bytes).as_str());
            push_str(&mut r, "\n");
            r
        },
        None => owned("  No stats available\n"),
    }
}

/// The details text of an interface, as the details pane shows it.
pub fn interface_details(i: &NetworkInterface) -> (r: String)
    ensures
        r@ == interface_details_text(i@),
{
    let mut r = interface_head_exec(i);
    push_str(&mut r, "\nIPv4 Addresses:\n");
    push_addresses(&mut r, &i.ipv4);
    push_str(&mut r, "IPv6 Addresses:\n");
    push_addresses(&mut r, &i.ipv6);
    push_str(&mut r, "\nTraffic Cumulative Stats:\n");
    push_str(&mut r, stats_exec(&i.stats).as_str());
    r
}

// ---------------------------------------------------------------------------
// Connection details
// ---------------------------------------------------------------------------
/// The address part of `address:port` text: what comes before the first
/// colon.
pub open spec fn address_part(s: Seq<char>) -> Seq<char> {
    split_char(s, ':')[0]
}

/// The port part: what lies between the first and the second colon, or
/// `*` when there is no colon.
pub open spec fn port_part(s: Seq<char>) -> Seq<char> {
    let p = split_char(s, ':');
    if p.len() > 1 {
        p[1]
    } else {
        "*"@
    }
}

/// The address and port parts of a connection endpoint.
pub fn endpoint_parts(s: &str) -> (r: (String, String))
    ensures
        r.0@ == address_part(s@),
        r.1@ == port_part(s@),
{
    let c = chars_of(s);
    let parts = split_by_char(&c, ':');
    proof {
        lemma_split_scan_nonempty(c@, ':', seq![], seq![]);
    }
    assert(views(parts@)[0] == parts@[0]@);
    let address = string_of(&parts[0]);
    let port = if parts.len() > 1 {
        assert(views(parts@)[1] == parts@[1]@);
        string_of(&parts[1])
    } else {
        owned("*")
    };
    (address, port)
}

pub open spec fn has_address(addrs: Seq<AddressView>, ip: Seq<char>) -> bool {
    exists|k: int| 0 <= k < addrs.len() && (#[trigger] addrs[k]).value == ip
}

/// The first interface that holds address `ip`.
pub open spec fn owner_of(ifaces: Seq<InterfaceView>, ip: Seq<char>) -> Option<InterfaceView>
    decreases ifaces.len(),
{
    if ifaces.len() == 0 {
        None
    } else if has_address(ifaces[0].ipv4, ip) || has_address(ifaces[0].ipv6, ip) {
        Some(ifaces[0])
    } else {
        owner_of(ifaces.drop_first(), ip)
    }
}

/// The interface a local address belongs to, as the details name it.
pub open spec fn associated_interface(app: App, ip: Seq<char>) -> Seq<char> {
    if ip == "127.0.0.1"@ || ip == "::1"@ || ip == "fe80::1%lo0"@ {
        "lo0 (LOOPBACK)"@
    } else if ip == "*"@ || ip == "::"@ || ip == "0.0.0.0"@ {
        "All Interfaces (Wildcard)"@
    } else {
        match match app.current_snapshot {
            Some(snap) => owner_of(crate::model::interface_views(snap.interfaces@), ip),
            None => None,
        } {
            Some(i) => i.name + " ("@ + i.network_kind.label() + ")"@,
            None => "N/A (External/Wildcard)"@,
        }
    }
}

/// A remote address that can be copied and looked up: not a wildcard.
pub open spec fn is_remote(ip: Seq<char>) -> bool {
    !(ip == "*"@ || ip == "::"@ || ip == "0.0.0.0"@ || ip == "*.*"@)
}

/// The details of a connection, given the WHOIS answer known for its
/// remote address: protocol, both endpoints, state, the local interface,
/// and for a remote address the key hints and the answer (or how to get
/// one).
pub open spec fn connection_details_text(
    app: App,
    proto: Seq<char>,
    local: Seq<char>,
    foreign: Seq<char>,
    state: Option<Seq<char>>,
    whois: Option<Seq<char>>,
) -> Seq<char> {
    "=== Active Connection Details ===\n\n"@ + "Protocol:             "@ + to_uppercase_spec(proto) + "\n"@
        + "Local IP Address:     "@ + address_part(local) + "\n"@ + "Local Port:           "@ + port_part(
        local,
    ) + "\n"@ + "Foreign IP Address:   "@ + address_part(foreign) + "\n"@ + "Foreign Port:         "@
        + port_part(foreign) + "\n"@ + (match state {
        Some(s) => "TCP State:            "@ + s + "\n"@,
        None => ""@,
    }) + "Associated Interface: "@ + associated_interface(app, address_part(local)) + "\n"@ + (if is_remote(
        address_part(foreign),
    ) {
        "\n[c: Copy IP | w: WHOIS Query]\n"@ + match whois {
            Some(w) => "\n=== Whois Information ===\n"@ + w,
            None => "\nPress 'w' to fetch WHOIS information.\n"@,
        }
    } else {
        ""@
    })
}

/// Line `k` comes at or after the start of the WHOIS answer.
pub open spec fn in_whois_section(ls: Seq<Seq<char>>, k: int) -> bool {
    exists|j: int| 0 <= j <= k && contains(#[trigger] ls[j], "=== Whois Information ==="@)
}

/// A line of the WHOIS answer that names the origin or the organisation
/// is highlighted.
pub open spec fn highlighted(ls: Seq<Seq<char>>, k: int) -> bool {
    in_whois_section(ls, k) && (contains(to_lowercase_spec(ls[k]), "origin"@) || contains(
        to_lowercase_spec(ls[k]),
        "org"@,
    ))
}

fn holds_address(addrs: &Vec<InterfaceAddress>, ip: &str) -> (r: bool)
    ensures
        r == has_address(crate::model::address_views(addrs@), ip@),
{
    let ghost av = crate::model::address_views(addrs@);
    for k in 0..addrs.len()
        invariant
            av == crate::model::address_views(addrs@),
            forall|j: int| 0 <= j < k ==> av[j].value != ip@,
    {
        assert(av[k as int] == addrs@[k as int]@);
        if crate::text::str_eq(addrs[k].value.as_str(), ip) {
            return true;
        }
    }
    false
}

fn associated_exec(app: &App, ip: &str) -> (r: String)
    ensures
        r@ == associated_interface(*app, ip@),
{
    if crate::text::str_eq(ip, "127.0.0.1") || crate::text::str_eq(ip, "::1") || crate::text::str_eq(
        ip,
        "fe80::1%lo0",
    ) {
        return owned("lo0 (LOOPBACK)");
    }
    if crate::text::str_eq(ip, "*") || crate::text::str_eq(ip, "::") || crate::text::str_eq(ip, "0.0.0.0") {
        return owned("All Interfaces (Wildcard)");
    }
    if let Some(snap) = &app.current_snapshot {
        let ifaces = &snap.interfaces;
        let ghost iv = crate::model::interface_views(ifaces@);
        let mut i: usize = 0;
        assert(iv.skip(0) =~= iv);
        while i < ifaces.len()
            invariant
                i <= ifaces.len(),
                iv == crate::model::interface_views(ifaces@),
                app.current_snapshot == Some(*snap),
                ifaces == &snap.interfaces,
                !(ip@ == "127.0.0.1"@ || ip@ == "::1"@ || ip@ == "fe80::1%lo0"@),
                !(ip@ == "*"@ || ip@ == "::"@ || ip@ == "0.0.0.0"@),
                owner_of(iv, ip@) == owner_of(iv.skip(i as int), ip@),
            decreases ifaces.len() - i,
        {
            assert(iv.skip(i as int)[0] == ifaces@[i as int]@);
            let it = &ifaces[i];
            if holds_address(&it.ipv4, ip) || holds_address(&it.ipv6, ip) {
                assert(owner_of(iv.skip(i as int), ip@) == Some(iv[i as int]));
                let mut r = concat3(it.name.as_str(), " (", it.network_kind.as_str());
                push_str(&mut r, ")");
                return r;
            }
            assert(iv.skip(i as int).drop_first() =~= iv.skip(i + 1));
            i = i + 1;
        }
        assert(iv.skip(i as int).len() == 0);
    }
    owned("N/A (External/Wildcard)")
}

fn is_remote_exec(ip: &str) -> (r: bool)
    ensures
        r == is_remote(ip@),
{
    !(crate::text::str_eq(ip, "*") || crate::text::str_eq(ip, "::") || crate::text::str_eq(ip, "0.0.0.0")
        || crate::text::str_eq(ip, "*.*"))
}

fn connection_details_string(
    app: &App,
    proto: &str,
    local: &str,
    foreign: &str,
    state: &Option<String>,
    whois: Option<&str>,
) -> (r: String)
    ensures
        r@ == connection_details_text(
            *app,
            proto@,
            local@,
            foreign@,
            opt_chars(*state),
            match whois {
                Some(w) => Some(w@),
                None => None,
            },
        ),
{
    let (local_ip, local_port) = endpoint_parts(local);
    let (foreign_ip, foreign_port) = endpoint_parts(foreign);
    let mut r = owned("=== Active Connection Details ===\n\n");
    push_str(&mut r, "Protocol:             ");
    push_str(&mut r, str_to_uppercase(proto).as_str());
    push_str(&mut r, "\n");
    push_str(&mut r, "Local IP Address:     ");
    push_str(&mut r, local_ip.as_str());
    push_str(&mut r, "\n");
    push_str(&mut r, "Local Port:           ");
    push_str(&mut r, local_port.as_str());
    push_str(&mut r, "\n");
    push_str(&mut r, "Foreign IP Address:   ");
    push_str(&mut r, foreign_ip.as_str());
    push_str(&mut r, "\n");
    push_str(&mut r, "Foreign Port:         ");
    push_str(&mut r, foreign_port.as_str());
    push_str(&mut r, "\n");
    if let Some(s) = state {
        push_str(&mut r, "TCP State:            ");
        push_str(&mut r, s.as_str());
        push_str(&mut r, "\n");
    }
    push_str(&mut r, "Associated Interface: ");
    push_str(&mut r, associated_exec(app, local_ip.as_str()).as_str());
    push_str(&mut r, "\n");
    if is_remote_exec(foreign_ip.as_str()) {
        push_str(&mut r, "\n[c: Copy IP | w: WHOIS Query]\n");
        match whois {
            Some(w) => {
                push_str(&mut r, "\n=== Whois Information ===\n");
                push_str(&mut r, w);
            },
            None => push_str(&mut r, "\nPress 'w' to fetch WHOIS information.\n"),
        }
    }
    proof {
        reveal_strlit("");
    }
    r
}

/// The lines of a connection's details, each with whether it is
/// highlighted; `whois` is the answer known for the remote address (see
/// `endpoint_parts`).
pub fn connection_detail_lines(
    app: &App,
    proto: &str,
    local: &str,
    foreign: &str,
    state: &Option<String>,
    whois: Option<&str>,
) -> (r: Vec<(String, bool)>)
    ensures
        ({
            let ls = lines(
                connection_details_text(
                    *app,
                    proto@,
                    local@,
                    foreign@,
                    opt_chars(*state),
                    match whois {
                        Some(w) => Some(w@),
                        None => None,
                    },
                ),
            );
            &&& r@.len() == ls.len()
            &&& forall|k: int| 0 <= k < ls.len() ==> (#[trigger] r@[k]).0@ == ls[k] && r@[k].1 == highlighted(ls, k)
        }),
{
    let text = connection_details_string(app, proto, local, foreign, state, whois);
    let c = chars_of(text.as_str());
    let ls = lines_of(&c);
    let ghost lv = views(ls@);
    let mut r: Vec<(String, bool)> = Vec::new();
    let mut seen = false;
    for k in 0..ls.len()
        invariant
            lv == views(ls@),
            r@.len() == k,
            seen == (exists|j: int| 0 <= j < k && contains(#[trigger] lv[j], "=== Whois Information ==="@)),
            forall|m: int| 0 <= m < k ==> (#[trigger] r@[m]).0@ == lv[m] && r@[m].1 == highlighted(lv, m),
    {
        assert(lv[k as int] == ls@[k as int]@);
        if contains_str(&ls[k], "=== Whois Information ===") {
            seen = true;
        }
        assert(seen == in_whois_section(lv, k as int));
        let lower = lowercase(&ls[k]);
        let hl = seen && (contains_str(&lower, "origin") || contains_str(&lower, "org"));
        r.push((string_of(&ls[k]), hl));
    }
    r
}

// ---------------------------------------------------------------------------
// Port and event details
// ---------------------------------------------------------------------------
pub type Piece = (Seq<char>, TextStyle);

/// A heading line of the details pane.
pub open spec fn heading(t: Seq<char>) -> Seq<Piece> {
    seq![(t, tinted_bold(Tint::Cyan))]
}

/// A bold label followed by its value.
pub open spec fn labelled(label: Seq<char>, value: Piece) -> Seq<Piece> {
    seq![(label, bold()), value]
}

/// The details of a listening port: protocol and port, then the process.
pub open spec fn port_details_view(
    proto: Seq<char>,
    port: Seq<char>,
    command: Seq<char>,
    pid: Seq<char>,
    user: Seq<char>,
) -> Seq<Seq<Piece>> {
    seq![
        heading("=== Listening Port Details ==="@),
        Seq::empty(),
        labelled("Protocol:   "@, (to_uppercase_spec(proto), plain())),
        labelled("Port:       "@, (port, tinted_bold(Tint::Yellow))),
        Seq::empty(),
        heading("=== Process Information ==="@),
        Seq::empty(),
        labelled("Command:    "@, (command, tinted(Tint::Green))),
        labelled("PID:        "@, (pid, plain())),
        labelled("User:       "@, (user, plain())),
    ]
}

fn piece(text: String, style: TextStyle) -> (r: TextSpan)
    ensures
        r.text@ == text@,
        r.style == style,
{
    TextSpan { text, style }
}

fn heading_line(t: &str) -> (r: Vec<TextSpan>)
    ensures
        span_views(r@) == heading(t@),
{
    let r = vec![piece(owned(t), TextStyle { fg: Some(Tint::Cyan), bg: None, bold: true, blink: false })];
    assert(span_views(r@) =~= heading(t@));
    r
}

fn labelled_line(label: &str, value: TextSpan) -> (r: Vec<TextSpan>)
    ensures
        span_views(r@) == labelled(label@, (value.text@, value.style)),
{
    let r = vec![piece(owned(label), TextStyle { fg: None, bg: None, bold: true, blink: false }), value];
    assert(span_views(r@) =~= labelled(label@, (r@[1].text@, r@[1].style)));
    r
}

pub fn port_detail_lines(proto: &str, port: &str, command: &str, pid: &str, user: &str) -> (r: Vec<Vec<TextSpan>>)
    ensures
        line_views(r@) == port_details_view(proto@, port@, command@, pid@, user@),
{
    let plain_style = TextStyle { fg: None, bg: None, bold: false, blink: false };
    let r = vec![
        heading_line("=== Listening Port Details ==="),
        Vec::new(),
        labelled_line("Protocol:   ", piece(str_to_uppercase(proto), plain_style)),
        labelled_line("Port:       ", piece(owned(port), TextStyle { fg: Some(Tint::Yellow), bg: None, bold: true, blink: false })),
        Vec::new(),
        heading_line("=== Process Information ==="),
        Vec::new(),
        labelled_line("Command:    ", piece(owned(command), TextStyle { fg: Some(Tint::Green), bg: None, bold: false, blink: false })),
        labelled_line("PID:        ", piece(owned(pid), plain_style)),
        labelled_line("User:       ", piece(owned(user), plain_style)),
    ];
    assert(line_views(r@) =~= port_details_view(proto@, port@, command@, pid@, user@)) by {
        assert(span_views(r@[1]@) =~= Seq::<Piece>::empty());
        assert(span_views(r@[4]@) =~= Seq::<Piece>::empty());
        assert(span_views(r@[6]@) =~= Seq::<Piece>::empty());
    }
    r
}

/// What an event of each kind means for the user.
pub open spec fn impact(kind: NetworkEventKind) -> Seq<char> {
    match kind {
        NetworkEventKind::VpnConnected => "Traffic may be routed through VPN. Default routes might change."@,
        NetworkEventKind::VpnDisconnected => "VPN connection lost. Traffic will not be routed through VPN."@,
        NetworkEventKind::ContainerNetworkAppeared => "Local container networking active. Container services might be reachable."@,
        NetworkEventKind::ContainerNetworkRemoved => "Local container networking inactive."@,
        NetworkEventKind::InterfaceAppeared => "New network interface is discovered and registered."@,
        NetworkEventKind::InterfaceRemoved => "Interface has been removed or disabled."@,
        NetworkEventKind::InterfaceUp => "Network interface is now active and up."@,
        NetworkEventKind::InterfaceDown => "Network interface is inactive. No traffic can flow."@,
        NetworkEventKind::Ipv4Added | NetworkEventKind::Ipv6Added => "IP address assigned. Communications on this subnet are now enabled."@,
        NetworkEventKind::Ipv4Removed | NetworkEventKind::Ipv6Removed => "IP address unassigned. Host loses addressability on this subnet."@,
        NetworkEventKind::Ipv4Changed | NetworkEventKind::Ipv6Changed => "IP address has changed. Active sockets on this interface might drop."@,
        NetworkEventKind::ProcessKilled => "The process holding the listening port has been terminated. Port is now free."@,
        NetworkEventKind::ActionCopied => "An IP address has been successfully copied to your system clipboard."@,
        NetworkEventKind::ActionWhois => "WHOIS query initiated to fetch metadata for the foreign IP address."@,
        NetworkEventKind::SystemError => "A command or system level call returned an error status."@,
        NetworkEventKind::PublicIpChanged => "Your public IP address has changed. Network route or VPN activation might have occurred."@,
        NetworkEventKind::ProviderChanged => "Your ISP or network provider has changed. Active routing paths updated."@,
        NetworkEventKind::UpdateAvailable => "A newer GitHub release was found and is ready to install."@,
        NetworkEventKind::UpdateInstalled => "A new binary has been installed. Restart the app to run the updated version."@,
        NetworkEventKind::UpdateCheckFailed => "The GitHub release check or install step failed."@,
    }
}

pub fn event_impact(kind: NetworkEventKind) -> (r: &'static str)
    ensures
        r@ == impact(kind),
{
    match kind {
        NetworkEventKind::VpnConnected => "Traffic may be routed through VPN. Default routes might change.",
        NetworkEventKind::VpnDisconnected => "VPN connection lost. Traffic will not be routed through VPN.",
        NetworkEventKind::ContainerNetworkAppeared => "Local container networking active. Container services might be reachable.",
        NetworkEventKind::ContainerNetworkRemoved => "Local container networking inactive.",
        NetworkEventKind::InterfaceAppeared => "New network interface is discovered and registered.",
        NetworkEventKind::InterfaceRemoved => "Interface has been removed or disabled.",
        NetworkEventKind::InterfaceUp => "Network interface is now active and up.",
        NetworkEventKind::InterfaceDown => "Network interface is inactive. No traffic can flow.",
        NetworkEventKind::Ipv4Added | NetworkEventKind::Ipv6Added => "IP address assigned. Communications on this subnet are now enabled.",
        NetworkEventKind::Ipv4Removed | NetworkEventKind::Ipv6Removed => "IP address unassigned. Host loses addressability on this subnet.",
        NetworkEventKind::Ipv4Changed | NetworkEventKind::Ipv6Changed => "IP address has changed. Active sockets on this interface might drop.",
        NetworkEventKind::ProcessKilled => "The process holding the listening port has been terminated. Port is now free.",
        NetworkEventKind::ActionCopied => "An IP address has been successfully copied to your system clipboard.",
        NetworkEventKind::ActionWhois => "WHOIS query initiated to fetch metadata for the foreign IP address.",
        NetworkEventKind::SystemError => "A command or system level call returned an error status.",
        NetworkEventKind::PublicIpChanged => "Your public IP address has changed. Network route or VPN activation might have occurred.",
        NetworkEventKind::ProviderChanged => "Your ISP or network provider has changed. Active routing paths updated.",
        NetworkEventKind::UpdateAvailable => "A newer GitHub release was found and is ready to install.",
        NetworkEventKind::UpdateInstalled => "A new binary has been installed. Restart the app to run the updated version.",
        NetworkEventKind::UpdateCheckFailed => "The GitHub release check or install step failed.",
    }
}

/// The severity an event row shows: that of the timeline event it points
/// to, or informational when there is none.
pub open spec fn shown_severity(app: App, index: int) -> EventSeverity {
    if 0 <= index < app.recent_events@.len() {
        app.recent_events@[index].severity
    } else {
        EventSeverity::Info
    }
}

pub open spec fn severity_tint(s: EventSeverity) -> Tint {
    match s {
        EventSeverity::Warning => Tint::Yellow,
        EventSeverity::Error => Tint::Red,
        EventSeverity::Info => Tint::Green,
    }
}

/// The details of a timeline event whose time reads `time`: kind, time,
/// severity and message, then what it means.
pub open spec fn event_details_view(
    app: App,
    index: int,
    kind: NetworkEventKind,
    time: Seq<char>,
    message: Seq<char>,
) -> Seq<Seq<Piece>> {
    let sev = shown_severity(app, index);
    seq![
        heading("=== Event Details ==="@),
        Seq::empty(),
        labelled("Type:        "@, (kind.label(), tinted_bold(Tint::Yellow))),
        labelled("Time:        "@, (time, plain())),
        labelled("Severity:    "@, (sev.label(), tinted_bold(severity_tint(sev)))),
        Seq::empty(),
        labelled("Description: "@, (message, plain())),
        Seq::empty(),
        heading("=== Expected Impact ==="@),
        Seq::empty(),
        seq![(impact(kind), plain())],
    ]
}

pub fn event_detail_lines(app: &App, index: usize, kind: NetworkEventKind, time: &str, message: &str) -> (r: Vec<
    Vec<TextSpan>,
>)
    ensures
        line_views(r@) == event_details_view(*app, index as int, kind, time@, message@),
{
    let sev = if index < app.recent_events.len() {
        app.recent_events[index].severity
    } else {
        EventSeverity::Info
    };
    let tint = match sev {
        EventSeverity::Warning => Tint::Yellow,
        EventSeverity::Error => Tint::Red,
        EventSeverity::Info => Tint::Green,
    };
    let plain_style = TextStyle { fg: None, bg: None, bold: false, blink: false };
    let r = vec![
        heading_line("=== Event Details ==="),
        Vec::new(),
        labelled_line("Type:        ", piece(owned(kind.as_str()), TextStyle { fg: Some(Tint::Yellow), bg: None, bold: true, blink: false })),
        labelled_line("Time:        ", piece(owned(time), plain_style)),
        labelled_line("Severity:    ", piece(owned(sev.as_str()), TextStyle { fg: Some(tint), bg: None, bold: true, blink: false })),
        Vec::new(),
        labelled_line("Description: ", piece(owned(message), plain_style)),
        Vec::new(),
        heading_line("=== Expected Impact ==="),
        Vec::new(),
        vec![piece(owned(event_impact(kind)), plain_style)],
    ];
    assert(line_views(r@) =~= event_details_view(*app, index as int, kind, time@, message@)) by {
        assert(span_views(r@[1]@) =~= Seq::<Piece>::empty());
        assert(span_views(r@[5]@) =~= Seq::<Piece>::empty());
        assert(span_views(r@[7]@) =~= Seq::<Piece>::empty());
        assert(span_views(r@[9]@) =~= Seq::<Piece>::empty());
        assert(span_views(r@[10]@) =~= seq![(impact(kind), plain())]);
    }
    r
}

// ---------------------------------------------------------------------------
// Header, help and release notes
// ---------------------------------------------------------------------------
/// The top line: the application's name and the operating system's label.
pub open spec fn header_view(os_label: Seq<char>) -> Seq<Piece> {
    seq![
        ("🦥 Lazyifconfig"@, tinted_bold(Tint::Yellow)),
        (" - "@, tinted(Tint::DarkGray)),
        (os_label, tinted(Tint::White)),
    ]
}

pub fn header_spans(os_label: &str) -> (r: Vec<TextSpan>)
    ensures
        span_views(r@) == header_view(os_label@),
{
    let r = vec![
        piece(owned("🦥 Lazyifconfig"), TextStyle { fg: Some(Tint::Yellow), bg: None, bold: true, blink: false }),
        piece(owned(" - "), TextStyle { fg: Some(Tint::DarkGray), bg: None, bold: false, blink: false }),
        piece(owned(os_label), TextStyle { fg: Some(Tint::White), bg: None, bold: false, blink: false }),
    ];
    assert(span_views(r@) =~= header_view(os_label@));
    r
}

/// The lines of the help pop-up.
pub open spec fn help_text() -> Seq<Seq<char>> {
    seq![
        "q quit    r refresh    a all interfaces"@,
        "i interface  n network  c connections"@,
        "p ports      e timeline g routes"@,
        "u check updates   U apply update"@,
        "R release notes    Esc close popup"@,
        "o raw output ? help     Esc close"@,
        "j/k or arrows move      [/]: details scroll"@,
    ]
}

pub fn help_lines() -> (r: Vec<&'static str>)
    ensures
        r@.map_values(|l: &'static str| l@) == help_text(),
{
    let r = vec![
        "q quit    r refresh    a all interfaces",
        "i interface  n network  c connections",
        "p ports      e timeline g routes",
        "u check updates   U apply update",
        "R release notes    Esc close popup",
        "o raw output ? help     Esc close",
        "j/k or arrows move      [/]: details scroll",
    ];
    assert(r@.map_values(|l: &'static str| l@) =~= help_text());
    r
}

/// The head of the release notes pop-up: the version and the release page.
pub open spec fn release_header_view(version: Seq<char>, url: Seq<char>) -> Seq<Seq<Piece>> {
    seq![
        seq![("Version: "@, tinted_bold(Tint::Yellow)), ("v"@ + version, tinted_bold(Tint::White))],
        seq![("Release: "@, tinted_bold(Tint::Yellow)), (url, plain())],
    ]
}

pub fn release_header_lines(update: &crate::update::AvailableUpdate) -> (r: Vec<Vec<TextSpan>>)
    ensures
        line_views(r@) == release_header_view(update.target_version@, update.release_url@),
{
    let label = TextStyle { fg: Some(Tint::Yellow), bg: None, bold: true, blink: false };
    let first = vec![
        piece(owned("Version: "), label),
        piece(concat2("v", update.target_version.as_str()), TextStyle { fg: Some(Tint::White), bg: None, bold: true, blink: false }),
    ];
    let second = vec![
        piece(owned("Release: "), label),
        piece(update.release_url.clone(), TextStyle { fg: None, bg: None, bold: false, blink: false }),
    ];
    assert(span_views(first@) =~= release_header_view(update.target_version@, update.release_url@)[0]);
    assert(span_views(second@) =~= release_header_view(update.target_version@, update.release_url@)[1]);
    let r = vec![first, second];
    assert(line_views(r@) =~= release_header_view(update.target_version@, update.release_url@));
    r
}

} // verus!
