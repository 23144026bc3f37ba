//! Network interfaces from `ifconfig`, `ip address show` and Windows
//! `ipconfig /all` output, and default gateways from routing tables.
use vstd::prelude::*;

use crate::model::{
    address_views, interface_views, AddressView, InterfaceAddress, InterfaceStatus, InterfaceType,
    InterfaceView, NetworkInterface, NetworkKind,
};
use crate::net::{
    ipv4_octets_spec, ipv6_octets_spec, is_v4_link_local, is_v4_loopback, is_v4_private,
    is_v6_link_local, is_v6_loopback, is_v6_unique_local, is_v6_unspecified, parse_ipv4,
    parse_ipv6, v4_link_local, v4_loopback, v4_private, v6_link_local, v6_loopback,
    v6_unique_local, v6_unspecified,
};
use crate::text::{
    all_digits, chars_of, contains, contains_str, ends_with, is_ascii_digit, lines, lines_of,
    matches_at, strip_cr,
    lowercase, owned, parse_hex_u32, parse_hex_u32_spec, parse_u32, parse_u32_spec, parse_u8,
    parse_u8_spec, popcount, count_ones, slice_chars, split_once, split_once_char, split_whitespace,
    starts_with, starts_with_str, string_of, strip_prefix, strip_prefix_str, to_lowercase_spec,
    trim, trim_chars, trim_start, trim_start_chars, value_after, value_after_word, views, words,
};

verus! {

// ---------------------------------------------------------------------------
// Naming and classification rules
// ---------------------------------------------------------------------------
/// The interface type that a name suggests.
pub open spec fn interface_type_of(name: Seq<char>) -> InterfaceType {
    if starts_with(name, "utun"@) {
        InterfaceType::Vpn
    } else if name == "lo0"@ || name == "lo"@ {
        InterfaceType::Loopback
    } else if starts_with(name, "bridge"@) {
        InterfaceType::Bridge
    } else if starts_with(name, "awdl"@) {
        InterfaceType::AirDrop
    } else if starts_with(name, "en"@) || starts_with(name, "eth"@) || starts_with(name, "wlan"@) {
        InterfaceType::WifiOrEthernet
    } else {
        InterfaceType::Unknown
    }
}

fn infer_interface_type(name: &[char]) -> (r: InterfaceType)
    ensures
        r == interface_type_of(name@),
{
    if starts_with_str(name, "utun") {
        InterfaceType::Vpn
    } else if crate::text::eq_str(name, "lo0") || crate::text::eq_str(name, "lo") {
        InterfaceType::Loopback
    } else if starts_with_str(name, "bridge") {
        InterfaceType::Bridge
    } else if starts_with_str(name, "awdl") {
        InterfaceType::AirDrop
    } else if starts_with_str(name, "en") || starts_with_str(name, "eth") || starts_with_str(
        name,
        "wlan",
    ) {
        InterfaceType::WifiOrEthernet
    } else {
        InterfaceType::Unknown
    }
}

/// The text is an IPv4 address with property `p`.
pub open spec fn v4_has(s: Seq<char>, p: spec_fn(Seq<u8>) -> bool) -> bool {
    match ipv4_octets_spec(s) {
        Some(o) => p(o),
        None => false,
    }
}

/// The text is an IPv6 address with property `p`.
pub open spec fn v6_has(s: Seq<char>, p: spec_fn(Seq<u8>) -> bool) -> bool {
    match ipv6_octets_spec(s) {
        Some(o) => p(o),
        None => false,
    }
}

pub open spec fn any_v4(addrs: Seq<AddressView>, p: spec_fn(Seq<u8>) -> bool) -> bool {
    exists|i: int| 0 <= i < addrs.len() && #[trigger] v4_has(addrs[i].value, p)
}

pub open spec fn any_v6(addrs: Seq<AddressView>, p: spec_fn(Seq<u8>) -> bool) -> bool {
    exists|i: int| 0 <= i < addrs.len() && #[trigger] v6_has(addrs[i].value, p)
}

/// An IPv4 address that is neither private, loopback nor link-local.
pub open spec fn v4_public(o: Seq<u8>) -> bool {
    !v4_private(o) && !v4_loopback(o) && !v4_link_local(o)
}

/// An IPv6 address that is neither unique-local, loopback, link-local,
/// multicast nor unspecified.
pub open spec fn v6_public(o: Seq<u8>) -> bool {
    !v6_unique_local(o) && !v6_loopback(o) && !v6_link_local(o) && o[0] != 0xff
        && !v6_unspecified(o)
}

/// The kind of network an interface is on, in order of priority: loopback,
/// VPN by name, container by name, link-local, public, LAN.
pub open spec fn network_kind_of(
    name: Seq<char>,
    ipv4: Seq<AddressView>,
    ipv6: Seq<AddressView>,
) -> NetworkKind {
    if starts_with(name, "lo"@) || any_v4(ipv4, |o: Seq<u8>| v4_loopback(o)) || any_v6(
        ipv6,
        |o: Seq<u8>| v6_loopback(o),
    ) {
        NetworkKind::Loopback
    } else if starts_with(name, "utun"@) || starts_with(name, "tun"@) || starts_with(name, "tap"@)
        || starts_with(name, "wg"@) {
        NetworkKind::Vpn
    } else if starts_with(name, "docker"@) || starts_with(name, "bridge"@) || starts_with(
        name,
        "br-"@,
    ) {
        NetworkKind::Container
    } else if any_v4(ipv4, |o: Seq<u8>| v4_link_local(o)) || any_v6(
        ipv6,
        |o: Seq<u8>| v6_link_local(o),
    ) {
        NetworkKind::LinkLocal
    } else if any_v4(ipv4, |o: Seq<u8>| v4_public(o)) || any_v6(ipv6, |o: Seq<u8>| v6_public(o)) {
        NetworkKind::Public
    } else if any_v4(ipv4, |o: Seq<u8>| v4_private(o)) || any_v6(
        ipv6,
        |o: Seq<u8>| v6_unique_local(o),
    ) {
        NetworkKind::Lan
    } else {
        NetworkKind::Unknown
    }
}

/// Which property of an IPv4 address a scan looks for.
enum V4Test {
    Loopback,
    LinkLocal,
    Public,
    Private,
}

spec fn v4_test(t: V4Test) -> spec_fn(Seq<u8>) -> bool {
    match t {
        V4Test::Loopback => |o: Seq<u8>| v4_loopback(o),
        V4Test::LinkLocal => |o: Seq<u8>| v4_link_local(o),
        V4Test::Public => |o: Seq<u8>| v4_public(o),
        V4Test::Private => |o: Seq<u8>| v4_private(o),
    }
}

fn any_v4_exec(addrs: &Vec<InterfaceAddress>, t: V4Test) -> (r: bool)
    ensures
        r == any_v4(address_views(addrs@), v4_test(t)),
{
    let ghost av = address_views(addrs@);
    let ghost p = v4_test(t);
    for i in 0..addrs.len()
        invariant
            av == address_views(addrs@),
            p == v4_test(t),
            forall|j: int| 0 <= j < i ==> !#[trigger] v4_has(av[j].value, p),
    {
        assert(av[i as int].value == addrs@[i as int].value@);
        match parse_ipv4(addrs[i].value.as_str()) {
            Some(o) => {
                let hit = match t {
                    V4Test::Loopback => is_v4_loopback(&o),
                    V4Test::LinkLocal => is_v4_link_local(&o),
                    V4Test::Public => !is_v4_private(&o) && !is_v4_loopback(&o)
                        && !is_v4_link_local(&o),
                    V4Test::Private => is_v4_private(&o),
                };
                if hit {
                    assert(v4_has(av[i as int].value, p));
                    return true;
                }
            },
            None => {},
        }
    }
    false
}

/// Which property of an IPv6 address a scan looks for.
enum V6Test {
    Loopback,
    LinkLocal,
    Public,
    UniqueLocal,
}

spec fn v6_test(t: V6Test) -> spec_fn(Seq<u8>) -> bool {
    match t {
        V6Test::Loopback => |o: Seq<u8>| v6_loopback(o),
        V6Test::LinkLocal => |o: Seq<u8>| v6_link_local(o),
        V6Test::Public => |o: Seq<u8>| v6_public(o),
        V6Test::UniqueLocal => |o: Seq<u8>| v6_unique_local(o),
    }
}

fn any_v6_exec(addrs: &Vec<InterfaceAddress>, t: V6Test) -> (r: bool)
    ensures
        r == any_v6(address_views(addrs@), v6_test(t)),
{
    let ghost av = address_views(addrs@);
    let ghost p = v6_test(t);
    for i in 0..addrs.len()
        invariant
            av == address_views(addrs@),
            p == v6_test(t),
            forall|j: int| 0 <= j < i ==> !#[trigger] v6_has(av[j].value, p),
    {
        assert(av[i as int].value == addrs@[i as int].value@);
        match parse_ipv6(addrs[i].value.as_str()) {
            Some(o) => {
                let hit = match t {
                    V6Test::Loopback => is_v6_loopback(&o),
                    V6Test::LinkLocal => is_v6_link_local(&o),
                    V6Test::Public => !is_v6_unique_local(&o) && !is_v6_loopback(&o)
                        && !is_v6_link_local(&o) && o[0] != 0xff && !is_v6_unspecified(&o),
                    V6Test::UniqueLocal => is_v6_unique_local(&o),
                };
                if hit {
                    assert(v6_has(av[i as int].value, p));
                    return true;
                }
            },
            None => {},
        }
    }
    false
}

fn classify_interface(
    name: &String,
    ipv4: &Vec<InterfaceAddress>,
    ipv6: &Vec<InterfaceAddress>,
) -> (r: NetworkKind)
    ensures
        r == network_kind_of(name@, address_views(ipv4@), address_views(ipv6@)),
{
    let n = chars_of(name.as_str());
    let ghost v4 = address_views(ipv4@);
    let ghost v6 = address_views(ipv6@);
    assert(v4_test(V4Test::Loopback) == (|o: Seq<u8>| v4_loopback(o)));
    assert(v4_test(V4Test::LinkLocal) == (|o: Seq<u8>| v4_link_local(o)));
    assert(v4_test(V4Test::Public) == (|o: Seq<u8>| v4_public(o)));
    assert(v4_test(V4Test::Private) == (|o: Seq<u8>| v4_private(o)));
    assert(v6_test(V6Test::Loopback) == (|o: Seq<u8>| v6_loopback(o)));
    assert(v6_test(V6Test::LinkLocal) == (|o: Seq<u8>| v6_link_local(o)));
    assert(v6_test(V6Test::Public) == (|o: Seq<u8>| v6_public(o)));
    assert(v6_test(V6Test::UniqueLocal) == (|o: Seq<u8>| v6_unique_local(o)));
    if starts_with_str(&n, "lo") || any_v4_exec(ipv4, V4Test::Loopback) || any_v6_exec(
        ipv6,
        V6Test::Loopback,
    ) {
        return NetworkKind::Loopback;
    }
    if starts_with_str(&n, "utun") || starts_with_str(&n, "tun") || starts_with_str(&n, "tap")
        || starts_with_str(&n, "wg") {
        return NetworkKind::Vpn;
    }
    if starts_with_str(&n, "docker") || starts_with_str(&n, "bridge") || starts_with_str(
        &n,
        "br-",
    ) {
        return NetworkKind::Container;
    }
    if any_v4_exec(ipv4, V4Test::LinkLocal) || any_v6_exec(ipv6, V6Test::LinkLocal) {
        return NetworkKind::LinkLocal;
    }
    if any_v4_exec(ipv4, V4Test::Public) || any_v6_exec(ipv6, V6Test::Public) {
        return NetworkKind::Public;
    }
    if any_v4_exec(ipv4, V4Test::Private) || any_v6_exec(ipv6, V6Test::UniqueLocal) {
        return NetworkKind::Lan;
    }
    NetworkKind::Unknown
}

// ---------------------------------------------------------------------------
// `ifconfig` and `ip address show`
// ---------------------------------------------------------------------------
/// A name without surrounding whitespace and without what follows an `@`
/// (`eth0@if3` is `eth0`).
pub open spec fn clean_name(n: Seq<char>) -> Seq<char> {
    match split_once(trim(n), '@') {
        Some((a, _)) => a,
        None => trim(n),
    }
}

/// The interface name that starts a block: an unindented line with a `:`,
/// the text before it, or, after a numeric index (`2: eth0@if3: ...`), the
/// text before the next `:`.
pub open spec fn header_name(line: Seq<char>) -> Option<Seq<char>> {
    if line.len() > 0 && (line[0] == ' ' || line[0] == '\t') {
        None
    } else {
        match split_once(line, ':') {
            None => None,
            Some((first, rest)) => if all_digits(first) {
                match split_once(trim_start(rest), ':') {
                    Some((name, _)) => Some(clean_name(name)),
                    None => None,
                }
            } else {
                Some(clean_name(first))
            },
        }
    }
}

/// A header line says `UP` among its flags.
pub open spec fn header_status(line: Seq<char>) -> InterfaceStatus {
    if contains(line, "<UP"@) || contains(line, ",UP,"@) || contains(line, ",UP>"@) {
        InterfaceStatus::Up
    } else {
        InterfaceStatus::Down
    }
}

proof fn lemma_contains_at(s: Seq<char>, pre: Seq<char>, p: Seq<char>, rest: Seq<char>, q: Seq<char>)
    requires
        s == pre + p + rest,
        q.len() <= p.len(),
        p.subrange(0, q.len() as int) == q,
    ensures
        contains(s, q),
{
    assert(s.subrange(pre.len() as int, (pre.len() + q.len()) as int) =~= q) by {
        assert forall|k: int| 0 <= k < q.len() implies s.subrange(pre.len() as int, (pre.len() + q.len()) as int)[k]
            == q[k] by {
            assert(s[pre.len() + k] == p[k]);
            assert(p.subrange(0, q.len() as int)[k] == p[k]);
        }
    }
    assert(matches_at(s, q, pre.len() as int));
}

/// A header line whose flag list holds the flag `UP`, first (`<UP,`,
/// `<UP>`) or later (`,UP,`, `,UP>`), is an interface that is up, whatever
/// surrounds the list.
pub proof fn lemma_up_flag_means_up(pre: Seq<char>, rest: Seq<char>)
    ensures
        header_status(pre + "<UP,"@ + rest) == InterfaceStatus::Up,
        header_status(pre + "<UP>"@ + rest) == InterfaceStatus::Up,
        header_status(pre + ",UP,"@ + rest) == InterfaceStatus::Up,
        header_status(pre + ",UP>"@ + rest) == InterfaceStatus::Up,
{
    reveal_strlit("<UP,");
    reveal_strlit("<UP>");
    reveal_strlit(",UP,");
    reveal_strlit(",UP>");
    reveal_strlit("<UP");
    assert("<UP,"@.subrange(0, 3) =~= "<UP"@);
    assert("<UP>"@.subrange(0, 3) =~= "<UP"@);
    assert(",UP,"@.subrange(0, 4) =~= ",UP,"@);
    assert(",UP>"@.subrange(0, 4) =~= ",UP>"@);
    lemma_contains_at(pre + "<UP,"@ + rest, pre, "<UP,"@, rest, "<UP"@);
    lemma_contains_at(pre + "<UP>"@ + rest, pre, "<UP>"@, rest, "<UP"@);
    lemma_contains_at(pre + ",UP,"@ + rest, pre, ",UP,"@, rest, ",UP,"@);
    lemma_contains_at(pre + ",UP>"@ + rest, pre, ",UP>"@, rest, ",UP>"@);
}

/// A header line whose flag list holds no `UP` flag (neither `<UP` first
/// nor `,UP,` or `,UP>` later) is an interface that is down.
pub proof fn lemma_no_up_flag_means_down(line: Seq<char>)
    requires
        !contains(line, "<UP"@),
        !contains(line, ",UP,"@),
        !contains(line, ",UP>"@),
    ensures
        header_status(line) == InterfaceStatus::Down,
{
}

/// In particular a header line that does not say `UP` anywhere is an
/// interface that is down.
pub proof fn lemma_no_up_means_down(line: Seq<char>)
    requires
        !contains(line, "UP"@),
    ensures
        header_status(line) == InterfaceStatus::Down,
{
    reveal_strlit("UP");
    reveal_strlit("<UP");
    reveal_strlit(",UP,");
    reveal_strlit(",UP>");
    if contains(line, "<UP"@) {
        let i = choose|i: int| matches_at(line, "<UP"@, i);
        assert(line.subrange(i + 1, i + 3) =~= "UP"@) by {
            assert(line[i + 1] == line.subrange(i, i + 3)[1]);
            assert(line[i + 2] == line.subrange(i, i + 3)[2]);
        }
        assert(matches_at(line, "UP"@, i + 1));
    }
    if contains(line, ",UP,"@) {
        let i = choose|i: int| matches_at(line, ",UP,"@, i);
        assert(line.subrange(i + 1, i + 3) =~= "UP"@) by {
            assert(line[i + 1] == line.subrange(i, i + 4)[1]);
            assert(line[i + 2] == line.subrange(i, i + 4)[2]);
        }
        assert(matches_at(line, "UP"@, i + 1));
    }
    if contains(line, ",UP>"@) {
        let i = choose|i: int| matches_at(line, ",UP>"@, i);
        assert(line.subrange(i + 1, i + 3) =~= "UP"@) by {
            assert(line[i + 1] == line.subrange(i, i + 4)[1]);
            assert(line[i + 2] == line.subrange(i, i + 4)[2]);
        }
        assert(matches_at(line, "UP"@, i + 1));
    }
}

/// The number after the word `mtu`.
pub open spec fn header_mtu(line: Seq<char>) -> Option<u32> {
    match value_after(words(line), "mtu"@) {
        Some(v) => parse_u32_spec(v),
        None => None,
    }
}

/// An address and its prefix length written `address/prefix`.
pub open spec fn split_cidr(v: Seq<char>) -> (Seq<char>, Option<u8>) {
    match split_once(v, '/') {
        Some((a, p)) => (a, parse_u8_spec(p)),
        None => (v, None),
    }
}

/// The prefix length of a netmask written `0x` and hexadecimal digits.
pub open spec fn hex_netmask_prefix(v: Seq<char>) -> Option<u8> {
    match strip_prefix(v, "0x"@) {
        Some(h) => match parse_hex_u32_spec(h) {
            Some(n) => Some(popcount(n as nat) as u8),
            None => None,
        },
        None => None,
    }
}

/// An `inet` (`v6 == false`) or `inet6` line after the keyword: the address,
/// its prefix (from `/len`, then `netmask 0x...` or `prefixlen len`), and the
/// peer after `-->`.
pub open spec fn address_of_line(rest: Seq<char>, v6: bool) -> Option<AddressView> {
    let parts = words(rest);
    if parts.len() == 0 {
        None
    } else {
        let (address, prefix0) = split_cidr(parts[0]);
        let mask = if v6 {
            value_after(parts, "prefixlen"@)
        } else {
            value_after(parts, "netmask"@)
        };
        Some(
            AddressView {
                value: address,
                prefix_len: match mask {
                    Some(m) => if v6 {
                        parse_u8_spec(m)
                    } else {
                        hex_netmask_prefix(m)
                    },
                    None => prefix0,
                },
                gateway: value_after(parts, "-->"@),
            },
        )
    }
}

/// A new interface block.
pub open spec fn new_interface(
    name: Seq<char>,
    status: InterfaceStatus,
    mtu: Option<u32>,
) -> InterfaceView {
    InterfaceView {
        name,
        network_kind: NetworkKind::Unknown,
        interface_type: interface_type_of(name),
        status,
        ipv4: seq![],
        ipv6: seq![],
        mac_address: None,
        mtu,
        stats: None,
    }
}

/// An interface with its network kind set from its name and addresses.
pub open spec fn finalized(i: InterfaceView) -> InterfaceView {
    InterfaceView { network_kind: network_kind_of(i.name, i.ipv4, i.ipv6), ..i }
}

/// What one line inside an interface block changes.
pub open spec fn block_line(i: InterfaceView, line: Seq<char>) -> InterfaceView {
    let t = trim(line);
    if let Some(v) = strip_prefix(t, "ether "@) {
        InterfaceView { mac_address: Some(v), ..i }
    } else if let Some(v) = strip_prefix(t, "link/ether "@) {
        if words(v).len() > 0 {
            InterfaceView { mac_address: Some(words(v)[0]), ..i }
        } else {
            i
        }
    } else if let Some(v) = strip_prefix(t, "inet6 "@) {
        match address_of_line(v, true) {
            Some(a) => InterfaceView { ipv6: i.ipv6.push(a), ..i },
            None => i,
        }
    } else if let Some(v) = strip_prefix(t, "inet "@) {
        match address_of_line(v, false) {
            Some(a) => InterfaceView { ipv4: i.ipv4.push(a), ..i },
            None => i,
        }
    } else if t == "status: active"@ {
        InterfaceView { status: InterfaceStatus::Up, ..i }
    } else if t == "status: inactive"@ {
        InterfaceView { status: InterfaceStatus::Down, ..i }
    } else {
        i
    }
}

/// The finished interfaces and the open block after one more line.
#[verifier::opaque]
pub open spec fn unix_step(
    state: (Seq<InterfaceView>, Option<InterfaceView>),
    line: Seq<char>,
) -> (Seq<InterfaceView>, Option<InterfaceView>) {
    match header_name(line) {
        Some(name) => {
            let done = match state.1 {
                Some(i) => state.0.push(finalized(i)),
                None => state.0,
            };
            (done, Some(new_interface(name, header_status(line), header_mtu(line))))
        },
        None => match state.1 {
            Some(i) => (state.0, Some(block_line(i, line))),
            None => state,
        },
    }
}

pub open spec fn unix_scan(ls: Seq<Seq<char>>) -> (Seq<InterfaceView>, Option<InterfaceView>)
    decreases ls.len(),
{
    if ls.len() == 0 {
        (seq![], None)
    } else {
        unix_step(unix_scan(ls.drop_last()), ls.last())
    }
}

/// The interfaces of `ifconfig` or `ip address show` output.
pub open spec fn unix_interfaces(ls: Seq<Seq<char>>) -> Seq<InterfaceView> {
    let (done, open) = unix_scan(ls);
    match open {
        Some(i) => done.push(finalized(i)),
        None => done,
    }
}

fn clean_interface_name(n: &[char]) -> (r: Vec<char>)
    ensures
        r@ == clean_name(n@),
{
    let t = trim_chars(n);
    match split_once_char(&t, '@') {
        Some((a, _)) => a,
        None => t,
    }
}

fn all_ascii_digits(s: &[char]) -> (r: bool)
    ensures
        r == all_digits(s@),
{
    for i in 0..s.len()
        invariant
            forall|j: int| 0 <= j < i ==> crate::text::is_digit(s@[j]),
    {
        if !is_ascii_digit(s[i]) {
            return false;
        }
    }
    true
}

fn parse_interface_header_name(line: &[char]) -> (r: Option<Vec<char>>)
    ensures
        match r {
            Some(n) => header_name(line@) == Some(n@),
            None => header_name(line@) is None,
        },
{
    if line.len() > 0 && (line[0] == ' ' || line[0] == '\t') {
        return None;
    }
    let (first, rest) = split_once_char(line, ':')?;
    if all_ascii_digits(&first) {
        let r = trim_start_chars(&rest);
        let (name, _) = split_once_char(&r, ':')?;
        return Some(clean_interface_name(&name));
    }
    Some(clean_interface_name(&first))
}

fn parse_header_status(line: &[char]) -> (r: InterfaceStatus)
    ensures
        r == header_status(line@),
{
    if contains_str(line, "<UP") || contains_str(line, ",UP,") || contains_str(line, ",UP>") {
        InterfaceStatus::Up
    } else {
        InterfaceStatus::Down
    }
}

fn parse_mtu(line: &[char]) -> (r: Option<u32>)
    ensures
        r == header_mtu(line@),
{
    let parts = split_whitespace(line);
    match value_after_word(&parts, "mtu") {
        Some(v) => parse_u32(&v),
        None => None,
    }
}

fn split_cidr_address(v: &[char]) -> (r: (Vec<char>, Option<u8>))
    ensures
        (r.0@, r.1) == split_cidr(v@),
{
    match split_once_char(v, '/') {
        Some((a, p)) => (a, parse_u8(&p)),
        None => (slice_chars(v, 0, v.len()), None),
    }
}

fn parse_hex_netmask(v: &[char]) -> (r: Option<u8>)
    ensures
        r == hex_netmask_prefix(v@),
{
    let h = strip_prefix_str(v, "0x")?;
    let n = parse_hex_u32(&h)?;
    Some(count_ones(n) as u8)
}

fn opt_string(v: Option<Vec<char>>) -> (r: Option<String>)
    ensures
        crate::model::opt_chars(r) == (match v {
            Some(x) => Some(x@),
            None => None,
        }),
{
    match v {
        Some(x) => Some(string_of(&x)),
        None => None,
    }
}

fn parse_address_line(rest: &[char], v6: bool) -> (r: Option<InterfaceAddress>)
    ensures
        match r {
            Some(a) => address_of_line(rest@, v6) == Some(a@),
            None => address_of_line(rest@, v6) is None,
        },
{
    let parts = split_whitespace(rest);
    if parts.len() == 0 {
        return None;
    }
    let (address, prefix0) = split_cidr_address(&parts[0]);
    let mask = if v6 {
        value_after_word(&parts, "prefixlen")
    } else {
        value_after_word(&parts, "netmask")
    };
    let prefix_len = match mask {
        Some(m) => if v6 {
            parse_u8(&m)
        } else {
            parse_hex_netmask(&m)
        },
        None => prefix0,
    };
    let gateway = opt_string(value_after_word(&parts, "-->"));
    Some(InterfaceAddress { value: string_of(&address), prefix_len, gateway })
}

fn new_interface_exec(name: Vec<char>, line: &[char]) -> (r: NetworkInterface)
    ensures
        r@ == new_interface(name@, header_status(line@), header_mtu(line@)),
{
    let interface_type = infer_interface_type(&name);
    let status = parse_header_status(line);
    let mtu = parse_mtu(line);
    let r = NetworkInterface {
        name: string_of(&name),
        network_kind: NetworkKind::Unknown,
        interface_type,
        status,
        ipv4: Vec::new(),
        ipv6: Vec::new(),
        mac_address: None,
        mtu,
        stats: None,
    };
    assert(address_views(r.ipv4@) =~= Seq::<AddressView>::empty());
    assert(address_views(r.ipv6@) =~= Seq::<AddressView>::empty());
    r
}

fn finalize_interface(interface: NetworkInterface) -> (r: NetworkInterface)
    ensures
        r@ == finalized(interface@),
{
    let mut interface = interface;
    interface.network_kind = classify_interface(&interface.name, &interface.ipv4, &interface.ipv6);
    interface
}

fn push_address(v: &mut Vec<InterfaceAddress>, a: InterfaceAddress)
    ensures
        address_views(final(v)@) == address_views(old(v)@).push(a@),
        final(v)@.len() == old(v)@.len() + 1,
{
    let ghost before = v@;
    v.push(a);
    assert(address_views(v@) =~= address_views(before).push(a@));
}

fn apply_block_line(interface: &mut NetworkInterface, line: &[char])
    ensures
        final(interface)@ == block_line(old(interface)@, line@),
{
    let t = trim_chars(line);
    if let Some(v) = strip_prefix_str(&t, "ether ") {
        interface.mac_address = Some(string_of(&v));
    } else if let Some(v) = strip_prefix_str(&t, "link/ether ") {
        let w = split_whitespace(&v);
        if w.len() > 0 {
            assert(views(w@)[0] == w@[0]@);
            interface.mac_address = Some(string_of(&w[0]));
        }
    } else if let Some(v) = strip_prefix_str(&t, "inet6 ") {
        if let Some(a) = parse_address_line(&v, true) {
            push_address(&mut interface.ipv6, a);
        }
    } else if let Some(v) = strip_prefix_str(&t, "inet ") {
        if let Some(a) = parse_address_line(&v, false) {
            push_address(&mut interface.ipv4, a);
        }
    } else if crate::text::eq_str(&t, "status: active") {
        interface.status = InterfaceStatus::Up;
    } else if crate::text::eq_str(&t, "status: inactive") {
        interface.status = InterfaceStatus::Down;
    }
}

fn parse_unix_interfaces(ls: &Vec<Vec<char>>) -> (r: Vec<NetworkInterface>)
    ensures
        interface_views(r@) == unix_interfaces(views(ls@)),
{
    let ghost lv = views(ls@);
    let mut interfaces: Vec<NetworkInterface> = Vec::new();
    let mut current: Option<NetworkInterface> = None;
    for k in 0..ls.len()
        invariant
            lv == views(ls@),
            (interface_views(interfaces@), match current {
                Some(i) => Some(i@),
                None => None,
            }) == unix_scan(lv.take(k as int)),
    {
        assert(lv.take(k + 1).drop_last() =~= lv.take(k as int));
        assert(lv.take(k + 1).last() == ls@[k as int]@);
        reveal(unix_step);
        let line = &ls[k];
        match parse_interface_header_name(line) {
            Some(name) => {
                let previous = current.take();
                match previous {
                    Some(i) => {
                        let f = finalize_interface(i);
                        let ghost before = interfaces@;
                        interfaces.push(f);
                        assert(interface_views(interfaces@) =~= interface_views(before).push(
                            f@,
                        ));
                    },
                    None => {},
                }
                current = Some(new_interface_exec(name, line));
            },
            None => {
                match current {
                    Some(ref mut i) => {
                        apply_block_line(i, line);
                    },
                    None => {},
                }
            },
        }
    }
    assert(lv.take(ls.len() as int) =~= lv);
    match current {
        Some(i) => {
            let f = finalize_interface(i);
            let ghost before = interfaces@;
            interfaces.push(f);
            assert(interface_views(interfaces@) =~= interface_views(before).push(f@));
        },
        None => {},
    }
    interfaces
}

// ---------------------------------------------------------------------------
// Windows `ipconfig /all`
// ---------------------------------------------------------------------------
/// The value of a `Field . . . : value` line whose field name starts with
/// `field`, when it is not empty.
pub open spec fn field_value(line: Seq<char>, field: Seq<char>) -> Option<Seq<char>> {
    match split_once(line, ':') {
        Some((l, r)) => if starts_with(trim(l), field) && trim(r).len() > 0 {
            Some(trim(r))
        } else {
            None
        },
        None => None,
    }
}

/// The part of `s` before the first `c`, or all of `s`.
pub open spec fn before_char(s: Seq<char>, c: char) -> Seq<char> {
    match split_once(s, c) {
        Some((a, _)) => a,
        None => s,
    }
}

/// An address without `(Preferred)`-like notes and without a `%zone`.
pub open spec fn clean_windows_address(v: Seq<char>) -> Seq<char> {
    trim(before_char(before_char(v, '('), '%'))
}

/// The prefix length of a dotted netmask: its number of one bits.
pub open spec fn dotted_mask_prefix(v: Seq<char>) -> Option<u8> {
    match ipv4_octets_spec(trim(v)) {
        Some(o) => Some(
            (popcount(o[0] as nat) + popcount(o[1] as nat) + popcount(o[2] as nat) + popcount(
                o[3] as nat,
            )) as u8,
        ),
        None => None,
    }
}

/// An adapter header: an unindented line ending in `:` that names an adapter.
pub open spec fn is_adapter_header(line: Seq<char>) -> bool {
    !(line.len() > 0 && line[0] == ' ') && ends_with(trim(line), ":"@) && contains(
        trim(line),
        "adapter"@,
    )
}

/// The adapter name: what follows `adapter` in the header, or the whole
/// header when nothing follows.
pub open spec fn adapter_name(line: Seq<char>) -> Seq<char> {
    let base = crate::text::trim_end_char(trim(line), ':');
    match crate::text::first_match(base, "adapter"@) {
        Some(i) => if trim(base.skip(i + 7)).len() > 0 {
            trim(base.skip(i + 7))
        } else {
            base
        },
        None => base,
    }
}

pub open spec fn replace_char(s: Seq<char>, from: char, to: char) -> Seq<char> {
    s.map_values(|c: char| if c == from { to } else { c })
}

/// Every address without a gateway gets `g`.
pub open spec fn fill_gateways(addrs: Seq<AddressView>, g: Seq<char>) -> Seq<AddressView> {
    addrs.map_values(
        |a: AddressView|
            if a.gateway is None {
                AddressView { gateway: Some(g), ..a }
            } else {
                a
            },
    )
}

pub open spec fn new_address(value: Seq<char>, prefix_len: Option<u8>) -> AddressView {
    AddressView { value, prefix_len, gateway: None }
}

/// What one field line of an adapter block changes: the interface and the
/// index of the IPv4 address that a following subnet mask belongs to.
pub open spec fn windows_field(i: InterfaceView, pending: Option<int>, t: Seq<char>) -> (
    InterfaceView,
    Option<int>,
) {
    if let Some(v) = field_value(t, "Media State"@) {
        if contains(v, "disconnected"@) {
            (InterfaceView { status: InterfaceStatus::Down, ..i }, pending)
        } else {
            (i, pending)
        }
    } else if let Some(v) = field_value(t, "Physical Address"@) {
        (InterfaceView { mac_address: Some(to_lowercase_spec(replace_char(v, '-', ':'))), ..i }, pending)
    } else if let Some(v) = field_value(t, "IPv4 Address"@) {
        let ipv4 = i.ipv4.push(new_address(clean_windows_address(v), None));
        (InterfaceView { ipv4, ..i }, Some(ipv4.len() - 1))
    } else if let Some(v) = field_value(t, "Subnet Mask"@) {
        match (pending, dotted_mask_prefix(v)) {
            (Some(idx), Some(p)) => if 0 <= idx < i.ipv4.len() {
                (
                    InterfaceView {
                        ipv4: i.ipv4.update(idx, AddressView { prefix_len: Some(p), ..i.ipv4[idx] }),
                        ..i
                    },
                    pending,
                )
            } else {
                (i, pending)
            },
            _ => (i, pending),
        }
    } else if let Some(v) = field_value(t, "IPv6 Address"@) {
        (InterfaceView { ipv6: i.ipv6.push(new_address(clean_windows_address(v), None)), ..i }, pending)
    } else if let Some(v) = field_value(t, "Link-local IPv6 Address"@) {
        (InterfaceView { ipv6: i.ipv6.push(new_address(clean_windows_address(v), Some(64))), ..i }, pending)
    } else if let Some(v) = field_value(t, "Default Gateway"@) {
        let g = clean_windows_address(v);
        if g.len() == 0 {
            (i, pending)
        } else if g.contains(':') {
            (InterfaceView { ipv6: fill_gateways(i.ipv6, g), ..i }, pending)
        } else {
            (InterfaceView { ipv4: fill_gateways(i.ipv4, g), ..i }, pending)
        }
    } else {
        (i, pending)
    }
}

/// One line of `ipconfig /all`.
#[verifier::opaque]
pub open spec fn windows_step(
    state: (Seq<InterfaceView>, Option<InterfaceView>, Option<int>),
    line: Seq<char>,
) -> (Seq<InterfaceView>, Option<InterfaceView>, Option<int>) {
    let t = trim(line);
    if t.len() == 0 {
        state
    } else if is_adapter_header(line) {
        let done = match state.1 {
            Some(i) => state.0.push(finalized(i)),
            None => state.0,
        };
        (done, Some(new_interface(adapter_name(line), InterfaceStatus::Up, None)), None)
    } else {
        match state.1 {
            Some(i) => {
                let (j, p) = windows_field(i, state.2, t);
                (state.0, Some(j), p)
            },
            None => state,
        }
    }
}

pub open spec fn windows_scan(ls: Seq<Seq<char>>) -> (
    Seq<InterfaceView>,
    Option<InterfaceView>,
    Option<int>,
)
    decreases ls.len(),
{
    if ls.len() == 0 {
        (seq![], None, None)
    } else {
        windows_step(windows_scan(ls.drop_last()), ls.last())
    }
}

/// The adapters of `ipconfig /all` output.
pub open spec fn windows_interfaces(ls: Seq<Seq<char>>) -> Seq<InterfaceView> {
    let (done, open, _) = windows_scan(ls);
    match open {
        Some(i) => done.push(finalized(i)),
        None => done,
    }
}

/// The interfaces that `parse_interfaces` reads.
pub open spec fn interfaces_of(input: Seq<char>) -> Seq<InterfaceView> {
    if contains(input, "Windows IP Configuration"@) {
        windows_interfaces(lines(input))
    } else {
        unix_interfaces(lines(input))
    }
}

/// The type of an interface is the one its name suggests.
pub open spec fn typed_by_name(i: InterfaceView) -> bool {
    i.interface_type == interface_type_of(i.name)
}

/// The type and the network kind of an interface are those that its name
/// and addresses give.
pub open spec fn classified(i: InterfaceView) -> bool {
    typed_by_name(i) && i.network_kind == network_kind_of(i.name, i.ipv4, i.ipv6)
}

proof fn lemma_unix_scan_classified(ls: Seq<Seq<char>>)
    ensures
        forall|k: int|
            0 <= k < unix_scan(ls).0.len() ==> classified(#[trigger] unix_scan(ls).0[k]),
        unix_scan(ls).1 matches Some(i) ==> typed_by_name(i),
    decreases ls.len(),
{
    if ls.len() > 0 {
        lemma_unix_scan_classified(ls.drop_last());
        reveal(unix_step);
        let prev = unix_scan(ls.drop_last());
        let line = ls.last();
        if let Some(i) = prev.1 {
            let b = block_line(i, line);
            assert(b.name == i.name && b.interface_type == i.interface_type);
        }
    }
}

proof fn lemma_windows_scan_classified(ls: Seq<Seq<char>>)
    ensures
        forall|k: int|
            0 <= k < windows_scan(ls).0.len() ==> classified(#[trigger] windows_scan(ls).0[k]),
        windows_scan(ls).1 matches Some(i) ==> typed_by_name(i),
    decreases ls.len(),
{
    if ls.len() > 0 {
        lemma_windows_scan_classified(ls.drop_last());
        reveal(windows_step);
        let prev = windows_scan(ls.drop_last());
        let t = trim(ls.last());
        if let Some(i) = prev.1 {
            let (j, p) = windows_field(i, prev.2, t);
            assert(j.name == i.name && j.interface_type == i.interface_type);
        }
    }
}

/// Every interface read from `ifconfig`, `ip address show` or `ipconfig /all`
/// output has the type that its name suggests (by the first rule of
/// `interface_type_of` that applies) and the network kind that its name and
/// addresses give (by the first rule of `network_kind_of` that applies;
/// text that is not an address of the family counts for nothing).
pub proof fn lemma_parsed_interfaces_are_classified(input: Seq<char>)
    ensures
        forall|k: int|
            0 <= k < interfaces_of(input).len() ==> classified(#[trigger] interfaces_of(input)[k]),
{
    let ls = lines(input);
    if contains(input, "Windows IP Configuration"@) {
        lemma_windows_scan_classified(ls);
    } else {
        lemma_unix_scan_classified(ls);
    }
}

proof fn lemma_one_block_scan(h: Seq<char>, body: Seq<Seq<char>>, name: Seq<char>)
    requires
        header_name(h) == Some(name),
        forall|i: int|
            0 <= i < body.len() ==> header_name(#[trigger] body[i]) is None && trim(body[i])
                != "status: active"@ && trim(body[i]) != "status: inactive"@,
    ensures
        unix_scan(seq![h] + body).0.len() == 0,
        unix_scan(seq![h] + body).1 matches Some(b) && b.name == name && b.status == header_status(h),
    decreases body.len(),
{
    reveal(unix_step);
    if body.len() == 0 {
        assert(seq![h] + body =~= seq![h]);
        assert(seq![h].drop_last() =~= Seq::<Seq<char>>::empty());
        assert(unix_scan(Seq::<Seq<char>>::empty()) == (Seq::<InterfaceView>::empty(), None::<InterfaceView>));
        assert(seq![h].last() == h);
        assert(unix_scan(seq![h]) == unix_step(unix_scan(seq![h].drop_last()), h));
    } else {
        let prev = body.drop_last();
        assert forall|i: int| 0 <= i < prev.len() implies header_name(#[trigger] prev[i]) is None
            && trim(prev[i]) != "status: active"@ && trim(prev[i]) != "status: inactive"@ by {
            assert(prev[i] == body[i]);
        }
        lemma_one_block_scan(h, prev, name);
        assert((seq![h] + body).drop_last() =~= seq![h] + prev);
        assert((seq![h] + body).last() == body[body.len() - 1]);
    }
}

/// A listing of one interface, a header line followed by indented lines
/// none of which is a `status:` line, reads as exactly that interface:
/// named by the header, up when the header's flag list holds the flag
/// `UP` (first or later), and down when it holds no `UP` flag.
pub proof fn lemma_one_interface_listing(header: Seq<char>, body: Seq<char>, name: Seq<char>)
    requires
        !header.contains('\n'),
        !header.contains('\r'),
        header_name(header) == Some(name),
        forall|i: int|
            0 <= i < lines(body).len() ==> header_name(#[trigger] lines(body)[i]) is None && trim(
                lines(body)[i],
            ) != "status: active"@ && trim(lines(body)[i]) != "status: inactive"@,
        !contains(header + seq!['\n'] + body, "Windows IP Configuration"@),
    ensures
        interfaces_of(header + seq!['\n'] + body).len() == 1,
        interfaces_of(header + seq!['\n'] + body)[0].name == name,
        contains(header, "<UP,"@) || contains(header, "<UP>"@) || contains(header, ",UP,"@) || contains(
            header,
            ",UP>"@,
        ) ==> interfaces_of(header + seq!['\n'] + body)[0].status == InterfaceStatus::Up,
        !contains(header, "<UP"@) && !contains(header, ",UP,"@) && !contains(header, ",UP>"@)
            ==> interfaces_of(header + seq!['\n'] + body)[0].status == InterfaceStatus::Down,
{
    crate::text::lemma_lines_cons(header, body);
    let input = header + seq!['\n'] + body;
    assert(strip_cr(header) == header) by {
        if header.len() > 0 && header.last() == '\r' {
            assert(header[header.len() - 1] == '\r');
        }
    }
    assert(lines(input) == seq![header] + lines(body));
    lemma_one_block_scan(header, lines(body), name);
    if !contains(header, "<UP"@) && !contains(header, ",UP,"@) && !contains(header, ",UP>"@) {
        lemma_no_up_flag_means_down(header);
    }
    reveal_strlit("<UP,");
    reveal_strlit("<UP>");
    reveal_strlit(",UP,");
    reveal_strlit(",UP>");
    if contains(header, "<UP,"@) {
        let i = choose|i: int| matches_at(header, "<UP,"@, i);
        assert(header =~= header.subrange(0, i) + "<UP,"@ + header.subrange(i + 4, header.len() as int));
        lemma_up_flag_means_up(header.subrange(0, i), header.subrange(i + 4, header.len() as int));
    } else if contains(header, "<UP>"@) {
        let i = choose|i: int| matches_at(header, "<UP>"@, i);
        assert(header =~= header.subrange(0, i) + "<UP>"@ + header.subrange(i + 4, header.len() as int));
        lemma_up_flag_means_up(header.subrange(0, i), header.subrange(i + 4, header.len() as int));
    } else if contains(header, ",UP,"@) {
        let i = choose|i: int| matches_at(header, ",UP,"@, i);
        assert(header =~= header.subrange(0, i) + ",UP,"@ + header.subrange(i + 4, header.len() as int));
        lemma_up_flag_means_up(header.subrange(0, i), header.subrange(i + 4, header.len() as int));
    } else if contains(header, ",UP>"@) {
        let i = choose|i: int| matches_at(header, ",UP>"@, i);
        assert(header =~= header.subrange(0, i) + ",UP>"@ + header.subrange(i + 4, header.len() as int));
        lemma_up_flag_means_up(header.subrange(0, i), header.subrange(i + 4, header.len() as int));
    }
}

fn windows_field_value(line: &[char], field: &str) -> (r: Option<Vec<char>>)
    ensures
        match r {
            Some(v) => field_value(line@, field@) == Some(v@),
            None => field_value(line@, field@) is None,
        },
{
    let (l, r) = split_once_char(line, ':')?;
    let lt = trim_chars(&l);
    let rt = trim_chars(&r);
    if starts_with_str(&lt, field) && rt.len() > 0 {
        Some(rt)
    } else {
        None
    }
}

fn before_char_exec(s: &[char], c: char) -> (r: Vec<char>)
    ensures
        r@ == before_char(s@, c),
{
    match split_once_char(s, c) {
        Some((a, _)) => a,
        None => slice_chars(s, 0, s.len()),
    }
}

fn clean_windows_address_exec(v: &[char]) -> (r: Vec<char>)
    ensures
        r@ == clean_windows_address(v@),
{
    let a = before_char_exec(v, '(');
    let b = before_char_exec(&a, '%');
    trim_chars(&b)
}

fn dotted_mask_prefix_exec(v: &[char]) -> (r: Option<u8>)
    ensures
        r == dotted_mask_prefix(v@),
{
    let t = trim_chars(v);
    let o = crate::net::parse_ipv4_chars(&t)?;
    let total = count_ones(o[0] as u32) + count_ones(o[1] as u32) + count_ones(o[2] as u32)
        + count_ones(o[3] as u32);
    Some(total as u8)
}

fn adapter_name_exec(t: &[char]) -> (r: Vec<char>)
    ensures
        r@ == adapter_name(t@),
{
    let tt = trim_chars(t);
    let base = crate::text::trim_end_char_exec(&tt, ':');
    let marker = chars_of("adapter");
    proof {
        reveal_strlit("adapter");
    }
    match crate::text::find_chars(&base, &marker) {
        Some(i) => {
            let rest = slice_chars(&base, i + 7, base.len());
            assert(rest@ =~= base@.skip(i + 7));
            let v = trim_chars(&rest);
            if v.len() > 0 {
                v
            } else {
                base
            }
        },
        None => base,
    }
}

fn replace_char_exec(s: &[char], from: char, to: char) -> (r: Vec<char>)
    ensures
        r@ == replace_char(s@, from, to),
{
    let mut r: Vec<char> = Vec::new();
    for i in 0..s.len()
        invariant
            r@ == replace_char(s@.take(i as int), from, to),
    {
        r.push(if s[i] == from { to } else { s[i] });
        assert(replace_char(s@.take(i + 1), from, to) =~= replace_char(s@.take(i as int), from, to).push(
            if s@[i as int] == from { to } else { s@[i as int] },
        ));
    }
    assert(s@.take(s.len() as int) =~= s@);
    r
}

/// Sets the gateway of every address that has none.
fn fill_gateways_exec(addrs: &mut Vec<InterfaceAddress>, g: &String)
    ensures
        address_views(final(addrs)@) == fill_gateways(address_views(old(addrs)@), g@),
        final(addrs)@.len() == old(addrs)@.len(),
{
    let ghost start = address_views(addrs@);
    let mut old_addrs: Vec<InterfaceAddress> = Vec::new();
    std::mem::swap(&mut old_addrs, addrs);
    let n = old_addrs.len();
    let mut rest = old_addrs;
    let mut k: usize = 0;
    while rest.len() > 0
        invariant
            k + rest.len() == n,
            n == start.len(),
            address_views(rest@) == start.skip(k as int),
            address_views(addrs@) == fill_gateways(start.take(k as int), g@),
        decreases rest.len(),
    {
        let ghost rv = address_views(rest@);
        let mut a = rest.remove(0);
        assert(a@ == rv[0]);
        assert(address_views(rest@) =~= rv.drop_first());
        assert(start.skip(k as int).drop_first() =~= start.skip(k + 1));
        if a.gateway.is_none() {
            a.gateway = Some(g.clone());
        }
        let ghost before = address_views(addrs@);
        addrs.push(a);
        assert(address_views(addrs@) =~= before.push(a@));
        assert(start.take(k + 1) =~= start.take(k as int).push(start[k as int]));
        assert(fill_gateways(start.take(k + 1), g@) =~= fill_gateways(start.take(k as int), g@).push(
            a@,
        ));
        k = k + 1;
    }
    assert(start.take(k as int) =~= start);
}

fn apply_windows_field(interface: &mut NetworkInterface, pending: &mut Option<usize>, t: &[char])
    requires
        match *old(pending) {
            Some(p) => p < old(interface).ipv4.len(),
            None => true,
        },
    ensures
        (final(interface)@, match *final(pending) {
            Some(p) => Some(p as int),
            None => None,
        }) == windows_field(
            old(interface)@,
            match *old(pending) {
                Some(p) => Some(p as int),
                None => None,
            },
            t@,
        ),
        match *final(pending) {
            Some(p) => p < final(interface).ipv4.len(),
            None => true,
        },
{
    if let Some(v) = windows_field_value(t, "Media State") {
        if crate::text::contains_str(&v, "disconnected") {
            interface.status = InterfaceStatus::Down;
        }
    } else if let Some(v) = windows_field_value(t, "Physical Address") {
        let replaced = replace_char_exec(&v, '-', ':');
        let lower = lowercase(&replaced);
        interface.mac_address = Some(string_of(&lower));
    } else if let Some(v) = windows_field_value(t, "IPv4 Address") {
        let clean = clean_windows_address_exec(&v);
        push_address(&mut interface.ipv4, InterfaceAddress { value: string_of(&clean), prefix_len: None, gateway: None });
        *pending = Some(interface.ipv4.len() - 1);
    } else if let Some(v) = windows_field_value(t, "Subnet Mask") {
        match (*pending, dotted_mask_prefix_exec(&v)) {
            (Some(idx), Some(p)) => {
                let ghost before = address_views(interface.ipv4@);
                let mut a = interface.ipv4.remove(idx);
                a.prefix_len = Some(p);
                let ghost av = a@;
                interface.ipv4.insert(idx, a);
                assert(address_views(interface.ipv4@) =~= before.update(idx as int, av));
            },
            _ => {},
        }
    } else if let Some(v) = windows_field_value(t, "IPv6 Address") {
        let clean = clean_windows_address_exec(&v);
        push_address(&mut interface.ipv6, InterfaceAddress { value: string_of(&clean), prefix_len: None, gateway: None });
    } else if let Some(v) = windows_field_value(t, "Link-local IPv6 Address") {
        let clean = clean_windows_address_exec(&v);
        push_address(&mut interface.ipv6, InterfaceAddress { value: string_of(&clean), prefix_len: Some(64), gateway: None });
    } else if let Some(v) = windows_field_value(t, "Default Gateway") {
        let g = clean_windows_address_exec(&v);
        if g.len() > 0 {
            let gs = string_of(&g);
            if crate::text::has_char(&g, ':') {
                fill_gateways_exec(&mut interface.ipv6, &gs);
            } else {
                fill_gateways_exec(&mut interface.ipv4, &gs);
            }
        }
    }
}

fn parse_windows_ipconfig(ls: &Vec<Vec<char>>) -> (r: Vec<NetworkInterface>)
    ensures
        interface_views(r@) == windows_interfaces(views(ls@)),
{
    let ghost lv = views(ls@);
    let mut interfaces: Vec<NetworkInterface> = Vec::new();
    let mut current: Option<NetworkInterface> = None;
    let mut pending: Option<usize> = None;
    for k in 0..ls.len()
        invariant
            lv == views(ls@),
            (interface_views(interfaces@), match current {
                Some(i) => Some(i@),
                None => None,
            }, match pending {
                Some(p) => Some(p as int),
                None => None,
            }) == windows_scan(lv.take(k as int)),
            match pending {
                Some(p) => current is Some && p < current->0.ipv4.len(),
                None => true,
            },
    {
        assert(lv.take(k + 1).drop_last() =~= lv.take(k as int));
        assert(lv.take(k + 1).last() == ls@[k as int]@);
        reveal(windows_step);
        let line = &ls[k];
        let trimmed = trim_chars(line);
        if trimmed.len() == 0 {
        } else if !(line.len() > 0 && line[0] == ' ') && crate::text::ends_with_str(&trimmed, ":")
            && crate::text::contains_str(&trimmed, "adapter") {
            let previous = current.take();
            match previous {
                Some(i) => {
                    let f = finalize_interface(i);
                    let ghost before = interfaces@;
                    interfaces.push(f);
                    assert(interface_views(interfaces@) =~= interface_views(before).push(f@));
                },
                None => {},
            }
            let name = adapter_name_exec(line);
            let interface_type = infer_interface_type(&name);
            let fresh = NetworkInterface {
                name: string_of(&name),
                network_kind: NetworkKind::Unknown,
                interface_type,
                status: InterfaceStatus::Up,
                ipv4: Vec::new(),
                ipv6: Vec::new(),
                mac_address: None,
                mtu: None,
                stats: None,
            };
            assert(address_views(fresh.ipv4@) =~= Seq::<AddressView>::empty());
            assert(address_views(fresh.ipv6@) =~= Seq::<AddressView>::empty());
            current = Some(fresh);
            pending = None;
        } else {
            match current {
                Some(ref mut i) => {
                    apply_windows_field(i, &mut pending, &trimmed);
                },
                None => {},
            }
        }
    }
    assert(lv.take(ls.len() as int) =~= lv);
    match current {
        Some(i) => {
            let f = finalize_interface(i);
            let ghost before = interfaces@;
            interfaces.push(f);
            assert(interface_views(interfaces@) =~= interface_views(before).push(f@));
        },
        None => {},
    }
    interfaces
}

/// Parses `ifconfig`, `ip -details -statistics address show` or Windows
/// `ipconfig /all` output into interfaces, each with the network kind that
/// its name and addresses give it.
pub fn parse_interfaces(input: &str) -> (r: Vec<NetworkInterface>)
    ensures
        interface_views(r@) == interfaces_of(input@),
{
    let chars = chars_of(input);
    let ls = lines_of(&chars);
    if contains_str(&chars, "Windows IP Configuration") {
        parse_windows_ipconfig(&ls)
    } else {
        parse_unix_interfaces(&ls)
    }
}

// ---------------------------------------------------------------------------
// Default gateways
// ---------------------------------------------------------------------------
/// An `ip route` default route: interface, gateway without `%zone`, and
/// whether the gateway is an IPv6 address.
pub open spec fn linux_default_route(t: Seq<char>) -> Option<(Seq<char>, Seq<char>, bool)> {
    let parts = words(t);
    if parts.len() == 0 || parts[0] != "default"@ {
        None
    } else {
        match (value_after(parts, "via"@), value_after(parts, "dev"@)) {
            (Some(g), Some(dev)) => {
                let clean = before_char(g, '%');
                Some((dev, clean, clean.contains(':')))
            },
            _ => None,
        }
    }
}

/// The key under which a gateway is kept: the interface name, `_v4` or `_v6`.
pub open spec fn gateway_key(netif: Seq<char>, v6: bool) -> Seq<char> {
    netif + if v6 {
        "_v6"@
    } else {
        "_v4"@
    }
}

/// One line of a routing table: the IPv4/IPv6 section flags and the gateway
/// insertions made so far, in order.
#[verifier::opaque]
pub open spec fn gateway_step(
    state: (bool, bool, Seq<(Seq<char>, Seq<char>)>),
    line: Seq<char>,
) -> (bool, bool, Seq<(Seq<char>, Seq<char>)>) {
    let t = trim(line);
    if let Some((netif, g, v6)) = linux_default_route(t) {
        (state.0, state.1, state.2.push((gateway_key(netif, v6), g)))
    } else if starts_with(t, "Internet:"@) {
        (true, false, state.2)
    } else if starts_with(t, "Internet6:"@) {
        (false, true, state.2)
    } else {
        let parts = words(line);
        if parts.len() >= 4 && parts[0] == "default"@ && parts[2].contains('G') {
            if state.0 {
                if !parts[1].contains(':') && !starts_with(parts[1], "link#"@) {
                    (state.0, state.1, state.2.push((gateway_key(parts[3], false), parts[1])))
                } else {
                    state
                }
            } else if state.1 {
                if !starts_with(parts[1], "link#"@) {
                    (
                        state.0,
                        state.1,
                        state.2.push((gateway_key(parts[3], true), before_char(parts[1], '%'))),
                    )
                } else {
                    state
                }
            } else {
                state
            }
        } else {
            state
        }
    }
}

pub open spec fn gateway_scan(ls: Seq<Seq<char>>) -> (bool, bool, Seq<(Seq<char>, Seq<char>)>)
    decreases ls.len(),
{
    if ls.len() == 0 {
        (false, false, seq![])
    } else {
        gateway_step(gateway_scan(ls.drop_last()), ls.last())
    }
}

/// The value that the last insertion of `key` left, as a map keeps it.
pub open spec fn last_value(inserts: Seq<(Seq<char>, Seq<char>)>, key: Seq<char>) -> Option<Seq<char>>
    decreases inserts.len(),
{
    if inserts.len() == 0 {
        None
    } else if inserts.last().0 == key {
        Some(inserts.last().1)
    } else {
        last_value(inserts.drop_last(), key)
    }
}

/// The gateway recorded for `key`: the last default route seen for it.
pub open spec fn default_gateway(input: Seq<char>, key: Seq<char>) -> Option<Seq<char>> {
    last_value(gateway_scan(lines(input)).2, key)
}

/// The value stored under `key` in a list of distinct keys.
pub open spec fn pairs_get(pairs: Seq<(Seq<char>, Seq<char>)>, key: Seq<char>) -> Option<Seq<char>> {
    if exists|i: int| 0 <= i < pairs.len() && (#[trigger] pairs[i]).0 == key {
        Some(pairs[choose|i: int| 0 <= i < pairs.len() && (#[trigger] pairs[i]).0 == key].1)
    } else {
        None
    }
}

pub open spec fn pair_views(v: Seq<(String, String)>) -> Seq<(Seq<char>, Seq<char>)> {
    v.map_values(|p: (String, String)| (p.0@, p.1@))
}

pub open spec fn distinct_keys(pairs: Seq<(Seq<char>, Seq<char>)>) -> bool {
    forall|i: int, j: int|
        0 <= i < j < pairs.len() ==> (#[trigger] pairs[i]).0 != (#[trigger] pairs[j]).0
}

fn linux_default_route_exec(t: &[char]) -> (r: Option<(Vec<char>, Vec<char>, bool)>)
    ensures
        match r {
            Some((a, b, c)) => linux_default_route(t@) == Some((a@, b@, c)),
            None => linux_default_route(t@) is None,
        },
{
    let parts = split_whitespace(t);
    if parts.len() == 0 {
        return None;
    }
    assert(views(parts@)[0] == parts@[0]@);
    if !crate::text::eq_str(&parts[0], "default") {
        return None;
    }
    let g = value_after_word(&parts, "via")?;
    let dev = value_after_word(&parts, "dev")?;
    let clean = before_char_exec(&g, '%');
    let v6 = crate::text::has_char(&clean, ':');
    Some((dev, clean, v6))
}

fn gateway_key_exec(netif: &[char], v6: bool) -> (r: String)
    ensures
        r@ == gateway_key(netif@, v6),
{
    let mut s = string_of(netif);
    if v6 {
        crate::text::push_str(&mut s, "_v6");
    } else {
        crate::text::push_str(&mut s, "_v4");
    }
    s
}

/// Stores `value` under `key`, replacing an earlier value.
fn insert_pair(pairs: &mut Vec<(String, String)>, key: String, value: String)
    requires
        distinct_keys(pair_views(old(pairs)@)),
    ensures
        distinct_keys(pair_views(final(pairs)@)),
        pairs_get(pair_views(final(pairs)@), key@) == Some(value@),
        forall|k: Seq<char>|
            k != key@ ==> #[trigger] pairs_get(pair_views(final(pairs)@), k) == pairs_get(
                pair_views(old(pairs)@),
                k,
            ),
{
    let ghost pv = pair_views(pairs@);
    let kv = chars_of(key.as_str());
    let n = pairs.len();
    let mut i: usize = 0;
    while i < n
        invariant
            n == pairs.len(),
            pairs@ == old(pairs)@,
            pv == pair_views(pairs@),
            pv.len() == n,
            kv@ == key@,
            distinct_keys(pv),
            forall|j: int| 0 <= j < i ==> pv[j].0 != key@,
        decreases n - i,
    {
        let ek = chars_of(pairs[i].0.as_str());
        assert(pv[i as int].0 == pairs@[i as int].0@);
        if crate::text::chars_eq(&ek, &kv) {
            let ghost before = pv;
            pairs.set(i, (key, value));
            let ghost after = pair_views(pairs@);
            assert(after =~= before.update(i as int, (key@, value@)));
            assert(distinct_keys(after));
            assert(after[i as int].0 == key@);
            assert forall|k: Seq<char>| k != key@ implies #[trigger] pairs_get(after, k) == pairs_get(
                before,
                k,
            ) by {
                if exists|j: int| 0 <= j < before.len() && (#[trigger] before[j]).0 == k {
                    let j = choose|j: int| 0 <= j < before.len() && (#[trigger] before[j]).0 == k;
                    assert(j != i);
                    assert(after[j] == before[j]);
                    assert(after[j].0 == k);
                    let a = choose|j: int| 0 <= j < after.len() && (#[trigger] after[j]).0 == k;
                    assert(a == j);
                    let b = choose|j: int| 0 <= j < before.len() && (#[trigger] before[j]).0 == k;
                    assert(b == j);
                } else {
                    assert forall|j: int| 0 <= j < after.len() implies (#[trigger] after[j]).0 != k by {
                        if j != i {
                            assert(after[j] == before[j]);
                        }
                    }
                }
            }
            let ghost c = choose|j: int| 0 <= j < after.len() && (#[trigger] after[j]).0 == key@;
            assert(c == i);
            assert(after == pair_views(pairs@));
            assert(before == pair_views(old(pairs)@));
            return;
        }
        i = i + 1;
    }
    let ghost before = pv;
    pairs.push((key, value));
    let ghost after = pair_views(pairs@);
    assert(after =~= before.push((key@, value@)));
    assert(after[before.len() as int].0 == key@);
    assert(distinct_keys(after)) by {
        assert forall|x: int, y: int| 0 <= x < y < after.len() implies (#[trigger] after[x]).0
            != (#[trigger] after[y]).0 by {
            if y == before.len() {
                assert(after[x] == before[x]);
            } else {
                assert(after[x] == before[x]);
                assert(after[y] == before[y]);
            }
        }
    }
    let ghost c = choose|j: int| 0 <= j < after.len() && (#[trigger] after[j]).0 == key@;
    assert(c == before.len()) by {
        if c < before.len() {
            assert(after[c] == before[c]);
        }
    }
    assert forall|k: Seq<char>| k != key@ implies #[trigger] pairs_get(after, k) == pairs_get(before, k) by {
        if exists|j: int| 0 <= j < before.len() && (#[trigger] before[j]).0 == k {
            let j = choose|j: int| 0 <= j < before.len() && (#[trigger] before[j]).0 == k;
            assert(after[j] == before[j]);
            assert(after[j].0 == k);
            let a = choose|j: int| 0 <= j < after.len() && (#[trigger] after[j]).0 == k;
            assert(a == j) by {
                if a < before.len() {
                    assert(after[a] == before[a]);
                }
            }
        } else {
            assert forall|j: int| 0 <= j < after.len() implies (#[trigger] after[j]).0 != k by {
                if j < before.len() {
                    assert(after[j] == before[j]);
                }
            }
        }
    }
}

/// The gateway insertion that one routing-table line makes, with the new
/// section flags.
fn gateway_line(line: &Vec<char>, parsing_ipv4: bool, parsing_ipv6: bool) -> (r: (
    bool,
    bool,
    Option<(String, String)>,
))
    ensures
        ({
            let st = gateway_step((parsing_ipv4, parsing_ipv6, seq![]), line@);
            &&& r.0 == st.0
            &&& r.1 == st.1
            &&& match r.2 {
                Some((k, v)) => st.2 == seq![(k@, v@)],
                None => st.2 == Seq::<(Seq<char>, Seq<char>)>::empty(),
            }
        }),
{
    reveal(gateway_step);
    let t = trim_chars(line);
    if let Some((netif, g, v6)) = linux_default_route_exec(&t) {
        let key = gateway_key_exec(&netif, v6);
        let ghost e: Seq<(Seq<char>, Seq<char>)> = seq![];
        assert(e.push((key@, g@)) =~= seq![(key@, g@)]);
        return (parsing_ipv4, parsing_ipv6, Some((key, string_of(&g))));
    }
    if starts_with_str(&t, "Internet:") {
        return (true, false, None);
    }
    if starts_with_str(&t, "Internet6:") {
        return (false, true, None);
    }
    let parts = split_whitespace(line);
    if parts.len() < 4 {
        return (parsing_ipv4, parsing_ipv6, None);
    }
    assert(views(parts@)[0] == parts@[0]@ && views(parts@)[1] == parts@[1]@ && views(parts@)[2]
        == parts@[2]@ && views(parts@)[3] == parts@[3]@);
    if !(crate::text::eq_str(&parts[0], "default") && crate::text::has_char(&parts[2], 'G')) {
        return (parsing_ipv4, parsing_ipv6, None);
    }
    let ghost e: Seq<(Seq<char>, Seq<char>)> = seq![];
    if parsing_ipv4 {
        if !crate::text::has_char(&parts[1], ':') && !starts_with_str(&parts[1], "link#") {
            let key = gateway_key_exec(&parts[3], false);
            assert(e.push((key@, parts@[1]@)) =~= seq![(key@, parts@[1]@)]);
            return (parsing_ipv4, parsing_ipv6, Some((key, string_of(&parts[1]))));
        }
    } else if parsing_ipv6 {
        if !starts_with_str(&parts[1], "link#") {
            let key = gateway_key_exec(&parts[3], true);
            let g = before_char_exec(&parts[1], '%');
            assert(e.push((key@, g@)) =~= seq![(key@, g@)]);
            return (parsing_ipv4, parsing_ipv6, Some((key, string_of(&g))));
        }
    }
    (parsing_ipv4, parsing_ipv6, None)
}

proof fn lemma_gateway_step_append(
    a: bool,
    b: bool,
    ins: Seq<(Seq<char>, Seq<char>)>,
    line: Seq<char>,
)
    ensures
        ({
            let st0 = gateway_step((a, b, seq![]), line);
            let st = gateway_step((a, b, ins), line);
            st.0 == st0.0 && st.1 == st0.1 && st.2 == ins + st0.2
        }),
{
    reveal(gateway_step);
    let e: Seq<(Seq<char>, Seq<char>)> = seq![];
    assert forall|x: (Seq<char>, Seq<char>)| ins.push(x) == ins + e.push(x) by {
        assert(ins.push(x) =~= ins + e.push(x));
    }
    assert(ins =~= ins + e);
}

/// Reads the default gateways of `netstat -rn` or `ip route show` output,
/// keyed by interface name and `_v4` or `_v6`; a later default route for a
/// key replaces an earlier one.
pub fn parse_default_gateways(netstat_output: &str) -> (r: Vec<(String, String)>)
    ensures
        distinct_keys(pair_views(r@)),
        forall|k: Seq<char>| #[trigger] pairs_get(pair_views(r@), k) == default_gateway(netstat_output@, k),
{
    let chars = chars_of(netstat_output);
    let ls = lines_of(&chars);
    let ghost lv = views(ls@);
    let mut gateways: Vec<(String, String)> = Vec::new();
    let mut parsing_ipv4 = false;
    let mut parsing_ipv6 = false;
    let ghost mut inserts: Seq<(Seq<char>, Seq<char>)> = seq![];
    assert(distinct_keys(pair_views(gateways@)));
    for k in 0..ls.len()
        invariant
            lv == views(ls@),
            (parsing_ipv4, parsing_ipv6, inserts) == gateway_scan(lv.take(k as int)),
            distinct_keys(pair_views(gateways@)),
            forall|key: Seq<char>| #[trigger] pairs_get(pair_views(gateways@), key) == last_value(inserts, key),
    {
        assert(lv.take(k + 1).drop_last() =~= lv.take(k as int));
        assert(lv.take(k + 1).last() == ls@[k as int]@);
        proof {
            lemma_gateway_step_append(parsing_ipv4, parsing_ipv6, inserts, ls@[k as int]@);
        }
        let (a, b, ins) = gateway_line(&ls[k], parsing_ipv4, parsing_ipv6);
        parsing_ipv4 = a;
        parsing_ipv6 = b;
        match ins {
            Some((key, value)) => {
                let ghost kv = key@;
                let ghost vv = value@;
                let ghost g0 = pair_views(gateways@);
                insert_pair(&mut gateways, key, value);
                let ghost old_inserts = inserts;
                proof {
                    inserts = inserts + seq![(kv, vv)];
                    assert(inserts.drop_last() =~= old_inserts);
                    assert forall|key2: Seq<char>| #[trigger] pairs_get(pair_views(gateways@), key2)
                        == last_value(inserts, key2) by {
                        if key2 != kv {
                            assert(pairs_get(pair_views(gateways@), key2) == pairs_get(g0, key2));
                        }
                    }
                }
            },
            None => {
                proof {
                    assert(inserts + Seq::<(Seq<char>, Seq<char>)>::empty() =~= inserts);
                }
            },
        }
    }
    assert(lv.take(ls.len() as int) =~= lv);
    gateways
}

/// The value stored under `key`.
fn pairs_lookup(pairs: &Vec<(String, String)>, key: &String) -> (r: Option<String>)
    requires
        distinct_keys(pair_views(pairs@)),
    ensures
        crate::model::opt_chars(r) == pairs_get(pair_views(pairs@), key@),
{
    let ghost pv = pair_views(pairs@);
    let kv = chars_of(key.as_str());
    for i in 0..pairs.len()
        invariant
            pv == pair_views(pairs@),
            kv@ == key@,
            distinct_keys(pv),
            forall|j: int| 0 <= j < i ==> pv[j].0 != key@,
    {
        let ek = chars_of(pairs[i].0.as_str());
        if crate::text::chars_eq(&ek, &kv) {
            assert(pv[i as int].0 == key@);
            let ghost c = choose|j: int| 0 <= j < pv.len() && (#[trigger] pv[j]).0 == key@;
            assert(c == i);
            return Some(pairs[i].1.clone());
        }
    }
    None
}

/// The addresses, each without a gateway given `g` where there is one.
pub open spec fn fill_gateways_opt(addrs: Seq<AddressView>, g: Option<Seq<char>>) -> Seq<AddressView> {
    match g {
        Some(g) => fill_gateways(addrs, g),
        None => addrs,
    }
}

/// An interface whose addresses without a gateway get the default gateway of
/// their family on that interface.
pub open spec fn with_default_gateways(i: InterfaceView, input: Seq<char>) -> InterfaceView {
    InterfaceView {
        ipv4: fill_gateways_opt(i.ipv4, default_gateway(input, gateway_key(i.name, false))),
        ipv6: fill_gateways_opt(i.ipv6, default_gateway(input, gateway_key(i.name, true))),
        ..i
    }
}

/// Merging default gateways changes nothing but the gateways of addresses
/// that had none: such an address of family IPv4 (IPv6) gets the default
/// gateway that the routing table names under `<interface>_v4`
/// (`<interface>_v6`), when it names one; a gateway already known is never
/// replaced.
pub proof fn lemma_default_gateways_fill_only_gaps(i: InterfaceView, input: Seq<char>)
    ensures
        ({
            let j = with_default_gateways(i, input);
            &&& j.name == i.name && j.status == i.status && j.mac_address == i.mac_address
            &&& j.network_kind == i.network_kind && j.interface_type == i.interface_type
            &&& j.ipv4.len() == i.ipv4.len() && j.ipv6.len() == i.ipv6.len()
            &&& forall|a: int|
                0 <= a < i.ipv4.len() ==> (#[trigger] j.ipv4[a]).value == i.ipv4[a].value
                    && j.ipv4[a].prefix_len == i.ipv4[a].prefix_len && j.ipv4[a].gateway == if i.ipv4[a].gateway is Some {
                    i.ipv4[a].gateway
                } else {
                    default_gateway(input, i.name + "_v4"@)
                }
            &&& forall|a: int|
                0 <= a < i.ipv6.len() ==> (#[trigger] j.ipv6[a]).value == i.ipv6[a].value
                    && j.ipv6[a].prefix_len == i.ipv6[a].prefix_len && j.ipv6[a].gateway == if i.ipv6[a].gateway is Some {
                    i.ipv6[a].gateway
                } else {
                    default_gateway(input, i.name + "_v6"@)
                }
        }),
{
}

/// Gives every address without a gateway the default gateway that the
/// routing table names for its interface and family.
pub fn merge_gateways(interfaces: &mut Vec<NetworkInterface>, netstat_output: &str)
    ensures
        final(interfaces)@.len() == old(interfaces)@.len(),
        forall|k: int|
            0 <= k < old(interfaces)@.len() ==> #[trigger] final(interfaces)@[k]@
                == with_default_gateways(old(interfaces)@[k]@, netstat_output@),
{
    let gateways = parse_default_gateways(netstat_output);
    let ghost start = interfaces@;
    let mut rest: Vec<NetworkInterface> = Vec::new();
    std::mem::swap(&mut rest, interfaces);
    let n = rest.len();
    let mut k: usize = 0;
    while rest.len() > 0
        invariant
            k + rest.len() == n,
            n == start.len(),
            rest@ == start.skip(k as int),
            interfaces@.len() == k,
            distinct_keys(pair_views(gateways@)),
            forall|key: Seq<char>| #[trigger] pairs_get(pair_views(gateways@), key) == default_gateway(netstat_output@, key),
            forall|j: int|
                0 <= j < k ==> #[trigger] interfaces@[j]@ == with_default_gateways(start[j]@, netstat_output@),
        decreases rest.len(),
    {
        let ghost rv = rest@;
        let mut it = rest.remove(0);
        assert(it == rv[0]);
        assert(rest@ =~= start.skip(k + 1));
        let name_chars = chars_of(it.name.as_str());
        let k4 = gateway_key_exec(&name_chars, false);
        let k6 = gateway_key_exec(&name_chars, true);
        let g4 = pairs_lookup(&gateways, &k4);
        let g6 = pairs_lookup(&gateways, &k6);
        let ghost before = it@;
        match g4 {
            Some(g) => fill_gateways_exec(&mut it.ipv4, &g),
            None => {},
        }
        match g6 {
            Some(g) => fill_gateways_exec(&mut it.ipv6, &g),
            None => {},
        }
        assert(it@ == with_default_gateways(before, netstat_output@));
        interfaces.push(it);
        k = k + 1;
    }
}

} // verus!
