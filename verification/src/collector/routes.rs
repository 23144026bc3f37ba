//! Routing tables from `netstat -rn` (macOS) and `ip route show` (Linux).
use vstd::prelude::*;

use crate::model::{route_views, RouteEntry, RouteFamily, RoutePathResult, RouteView};
use crate::route_inspector::graph::PathView;
use crate::text::{
    strip_prefix, strip_prefix_str,
    chars_of, eq_str, has_char, lines, lines_of, owned, parse_u32, parse_u32_spec, split_whitespace,
    starts_with, starts_with_str, string_of, trim, trim_chars, value_after, value_after_word, views,
    words,
};

verus! {

/// A line of `ip route show`: it names an interface after `dev`.  A line
/// of `ip route get` output, which names the user after `uid`, describes a
/// lookup and not a table route.
pub open spec fn is_linux_route_line(line: Seq<char>) -> bool {
    value_after(words(line), "dev"@) is Some && !words(line).contains("uid"@)
}

/// The route that one line of `ip route show` describes.
#[verifier::opaque]
pub open spec fn linux_route(line: Seq<char>) -> Option<RouteView> {
    let parts = words(line);
    match value_after(parts, "dev"@) {
        None => None,
        Some(_) if parts.contains("uid"@) => None,
        Some(dev) => {
            let via = value_after(parts, "via"@);
            let ipv6 = parts[0].contains(':') || (via matches Some(g) && g.contains(':'));
            Some(
                RouteView {
                    destination: parts[0],
                    gateway: match via {
                        Some(g) => g,
                        None => "link"@,
                    },
                    interface: dev,
                    metric: match value_after(parts, "metric"@) {
                        Some(m) => parse_u32_spec(m),
                        None => None,
                    },
                    protocol: value_after(parts, "proto"@),
                    flags: None,
                    family: if ipv6 {
                        RouteFamily::Ipv6
                    } else {
                        RouteFamily::Ipv4
                    },
                },
            )
        },
    }
}

/// The routes of the first lines of `ip route show` output.
pub open spec fn linux_routes(ls: Seq<Seq<char>>) -> Seq<RouteView>
    decreases ls.len(),
{
    if ls.len() == 0 {
        seq![]
    } else {
        let prev = linux_routes(ls.drop_last());
        match linux_route(ls.last()) {
            Some(r) => prev.push(r),
            None => prev,
        }
    }
}

/// A route of `ip route` output is an IPv6 route exactly when its
/// destination or its gateway is written with a `:`, whether or not it has
/// a gateway.
pub open spec fn family_follows_addresses(r: RouteView) -> bool {
    (r.family == RouteFamily::Ipv6) <==> (r.destination.contains(':') || r.gateway.contains(':'))
}

/// A line of `ip route` output that names a `dev` is the route to its
/// first word, through the interface after `dev`, via the gateway after
/// `via` (or on-link, `link`, without one), with the metric after
/// `metric` and the protocol after `proto`, and of family IPv6 exactly when the destination or the
/// gateway contains `:`; a lookup line (naming `uid`) is no route.
pub proof fn lemma_linux_route_family(line: Seq<char>)
    ensures
        linux_route(line) is Some <==> (value_after(words(line), "dev"@) is Some && !words(line).contains(
            "uid"@,
        )),
        linux_route(line) matches Some(r) ==> {
            &&& family_follows_addresses(r)
            &&& r.destination == words(line)[0]
            &&& Some(r.interface) == value_after(words(line), "dev"@)
            &&& r.gateway == match value_after(words(line), "via"@) {
                Some(g) => g,
                None => "link"@,
            }
            &&& r.metric == match value_after(words(line), "metric"@) {
                Some(m) => parse_u32_spec(m),
                None => None,
            }
            &&& r.protocol == value_after(words(line), "proto"@)
            &&& r.flags is None
        },
{
    reveal(linux_route);
    reveal_strlit("link");
    if let Some(r) = linux_route(line) {
        if value_after(words(line), "via"@) is None {
            assert(!"link"@.contains(':')) by {
                assert forall|k: int| 0 <= k < "link"@.len() implies "link"@[k] != ':' by {}
            }
        }
    }
}

proof fn lemma_linux_routes_family(ls: Seq<Seq<char>>)
    ensures
        forall|k: int| 0 <= k < linux_routes(ls).len() ==> family_follows_addresses(#[trigger] linux_routes(ls)[k]),
        forall|k: int|
            0 <= k < linux_routes(ls).len() ==> exists|i: int|
                0 <= i < ls.len() && linux_route(#[trigger] ls[i]) == Some(#[trigger] linux_routes(ls)[k]),
    decreases ls.len(),
{
    if ls.len() > 0 {
        let prev_ls = ls.drop_last();
        lemma_linux_routes_family(prev_ls);
        lemma_linux_route_family(ls.last());
        let prev = linux_routes(prev_ls);
        assert forall|k: int| 0 <= k < linux_routes(ls).len() implies family_follows_addresses(
            #[trigger] linux_routes(ls)[k],
        ) by {
            if k < prev.len() {
                assert(linux_routes(ls)[k] == prev[k]);
            }
        }
        assert forall|k: int| 0 <= k < linux_routes(ls).len() implies exists|i: int|
            0 <= i < ls.len() && linux_route(#[trigger] ls[i]) == Some(#[trigger] linux_routes(ls)[k]) by {
            if k < prev.len() {
                assert(linux_routes(ls)[k] == prev[k]);
                let i = choose|i: int| 0 <= i < prev_ls.len() && linux_route(#[trigger] prev_ls[i]) == Some(
                    #[trigger] prev[k],
                );
                assert(ls[i] == prev_ls[i]);
            } else {
                assert(ls[ls.len() - 1] == ls.last());
            }
        }
    }
}

/// In `ip route` / `ip -6 route` output (output with at least one line
/// naming a `dev`), every route read is the route of one of its lines (see
/// `lemma_linux_route_family`) and is an IPv6 route exactly when its
/// destination or its gateway contains `:`; an on-link IPv6 route without
/// a `via` gateway is IPv6 too.
pub proof fn lemma_ip_route_families(input: Seq<char>)
    requires
        exists|i: int| 0 <= i < lines(input).len() && is_linux_route_line(#[trigger] lines(input)[i]),
    ensures
        forall|k: int| 0 <= k < routes_of(input).len() ==> family_follows_addresses(#[trigger] routes_of(input)[k]),
        forall|k: int|
            0 <= k < routes_of(input).len() ==> exists|i: int|
                0 <= i < lines(input).len() && linux_route(#[trigger] lines(input)[i]) == Some(
                    #[trigger] routes_of(input)[k],
                ),
{
    lemma_linux_routes_family(lines(input));
}

/// One line of `netstat -rn`: section headers start the IPv4
/// (`Internet:`) or the IPv6 (`Internet6:`) section; a row of at least four
/// columns inside a section, other than the column header, is a route of
/// that section's family.
#[verifier::opaque]
pub open spec fn netstat_step(state: (Option<RouteFamily>, Seq<RouteView>), line: Seq<char>) -> (
    Option<RouteFamily>,
    Seq<RouteView>,
) {
    let t = trim(line);
    if starts_with(t, "Routing tables"@) {
        state
    } else if starts_with(t, "Internet:"@) {
        (Some(RouteFamily::Ipv4), state.1)
    } else if starts_with(t, "Internet6:"@) {
        (Some(RouteFamily::Ipv6), state.1)
    } else {
        match state.0 {
            Some(family) => {
                let parts = words(line);
                if parts.len() >= 4 && parts[0] != "Destination"@ {
                    (
                        state.0,
                        state.1.push(
                            RouteView {
                                destination: parts[0],
                                gateway: parts[1],
                                interface: parts[3],
                                metric: None,
                                protocol: None,
                                flags: Some(parts[2]),
                                family,
                            },
                        ),
                    )
                } else {
                    state
                }
            },
            None => state,
        }
    }
}

pub open spec fn netstat_scan(ls: Seq<Seq<char>>) -> (Option<RouteFamily>, Seq<RouteView>)
    decreases ls.len(),
{
    if ls.len() == 0 {
        (None, seq![])
    } else {
        netstat_step(netstat_scan(ls.drop_last()), ls.last())
    }
}

/// The routes that `parse_routes` reads from command output.
pub open spec fn routes_of(input: Seq<char>) -> Seq<RouteView> {
    let ls = lines(input);
    if exists|i: int| 0 <= i < ls.len() && is_linux_route_line(#[trigger] ls[i]) {
        linux_routes(ls)
    } else {
        netstat_scan(ls).1
    }
}

fn has_word(parts: &Vec<Vec<char>>, w: &str) -> (r: bool)
    ensures
        r == views(parts@).contains(w@),
{
    for k in 0..parts.len()
        invariant
            forall|j: int| 0 <= j < k ==> views(parts@)[j] != w@,
    {
        assert(views(parts@)[k as int] == parts@[k as int]@);
        if eq_str(&parts[k], w) {
            assert(views(parts@)[k as int] == w@);
            return true;
        }
    }
    false
}

fn is_linux_ip_route_line(line: &Vec<char>) -> (r: bool)
    ensures
        r == is_linux_route_line(line@),
{
    let parts = split_whitespace(line);
    value_after_word(&parts, "dev").is_some() && !has_word(&parts, "uid")
}

fn opt_string(v: Option<Vec<char>>) -> (r: Option<String>)
    ensures
        crate::model::opt_chars(r) == (match v {
            Some(x) => Some(x@),
            None => None,
        }),
{
    match v {
        Some(x) => Some(string_of(&x)),
        None => None,
    }
}

fn linux_route_of_line(line: &Vec<char>) -> (r: Option<RouteEntry>)
    ensures
        match r {
            Some(e) => linux_route(line@) == Some(e@),
            None => linux_route(line@) is None,
        },
{
    reveal(linux_route);
    let parts = split_whitespace(line);
    let ghost ps = views(parts@);
    let dev = match value_after_word(&parts, "dev") {
        Some(d) => d,
        None => return None,
    };
    if has_word(&parts, "uid") {
        return None;
    }
    let via = value_after_word(&parts, "via");
    let dest_v6 = has_char(&parts[0], ':');
    let via_v6 = match &via {
        Some(g) => has_char(g, ':'),
        None => false,
    };
    let gateway = match &via {
        Some(g) => string_of(g),
        None => owned("link"),
    };
    let metric = match value_after_word(&parts, "metric") {
        Some(m) => parse_u32(&m),
        None => None,
    };
    let protocol = opt_string(value_after_word(&parts, "proto"));
    let family = if dest_v6 || via_v6 {
        RouteFamily::Ipv6
    } else {
        RouteFamily::Ipv4
    };
    Some(
        RouteEntry {
            destination: string_of(&parts[0]),
            gateway,
            interface: string_of(&dev),
            metric,
            protocol,
            flags: None,
            family,
        },
    )
}

fn parse_linux_ip_routes(ls: &Vec<Vec<char>>) -> (r: Vec<RouteEntry>)
    ensures
        route_views(r@) == linux_routes(views(ls@)),
{
    let ghost lv = views(ls@);
    let mut routes: Vec<RouteEntry> = Vec::new();
    for i in 0..ls.len()
        invariant
            lv == views(ls@),
            route_views(routes@) == linux_routes(lv.take(i as int)),
    {
        assert(lv.take(i + 1).drop_last() =~= lv.take(i as int));
        let ghost before = routes@;
        match linux_route_of_line(&ls[i]) {
            Some(e) => {
                routes.push(e);
                assert(route_views(routes@) =~= route_views(before).push(routes@.last()@));
            },
            None => {},
        }
    }
    assert(lv.take(ls.len() as int) =~= lv);
    routes
}

fn parse_netstat_routes(ls: &Vec<Vec<char>>) -> (r: Vec<RouteEntry>)
    ensures
        route_views(r@) == netstat_scan(views(ls@)).1,
{
    let ghost lv = views(ls@);
    let mut routes: Vec<RouteEntry> = Vec::new();
    let mut section: Option<RouteFamily> = None;
    for i in 0..ls.len()
        invariant
            lv == views(ls@),
            (section, route_views(routes@)) == netstat_scan(lv.take(i as int)),
    {
        assert(lv.take(i + 1).drop_last() =~= lv.take(i as int));
        reveal(netstat_step);
        let line = &ls[i];
        let trimmed = trim_chars(line);
        if starts_with_str(&trimmed, "Routing tables") {
        } else if starts_with_str(&trimmed, "Internet:") {
            section = Some(RouteFamily::Ipv4);
        } else if starts_with_str(&trimmed, "Internet6:") {
            section = Some(RouteFamily::Ipv6);
        } else if let Some(family) = section {
            let parts = split_whitespace(line);
            if parts.len() >= 4 && !eq_str(&parts[0], "Destination") {
                let ghost before = routes@;
                routes.push(
                    RouteEntry {
                        destination: string_of(&parts[0]),
                        gateway: string_of(&parts[1]),
                        interface: string_of(&parts[3]),
                        metric: None,
                        protocol: None,
                        flags: Some(string_of(&parts[2])),
                        family,
                    },
                );
                assert(route_views(routes@) =~= route_views(before).push(routes@.last()@));
            }
        }
    }
    assert(lv.take(ls.len() as int) =~= lv);
    routes
}

/// Parses a routing table: `ip route show` output when some line names an
/// interface after `dev` (and is no `ip route get` line), else the IPv4
/// and IPv6 sections of `netstat -rn` output.
pub fn parse_routes(netstat_output: &str) -> (r: Vec<RouteEntry>)
    ensures
        route_views(r@) == routes_of(netstat_output@),
{
    let input = chars_of(netstat_output);
    let ls = lines_of(&input);
    let ghost lv = views(ls@);
    let mut any_linux = false;
    for i in 0..ls.len()
        invariant
            lv == views(ls@),
            any_linux == exists|j: int| 0 <= j < i && is_linux_route_line(#[trigger] lv[j]),
    {
        assert(lv[i as int] == ls@[i as int]@);
        if is_linux_ip_route_line(&ls[i]) {
            any_linux = true;
        }
    }
    if any_linux {
        parse_linux_ip_routes(&ls)
    } else {
        parse_netstat_routes(&ls)
    }
}

// ---------------------------------------------------------------------------
// The route to one destination
// ---------------------------------------------------------------------------
/// What `ip route get` reports on its first line: the address it resolved
/// (the first word), the gateway after `via`, the interface after `dev` and
/// the source address after `src`.  A blank first line, or one that names no
/// interface, is no route.
pub open spec fn linux_path(destination: Seq<char>, output: Seq<char>) -> Result<PathView, Seq<char>> {
    let ls = lines(output);
    let first = if ls.len() > 0 {
        trim(ls[0])
    } else {
        Seq::empty()
    };
    if first.len() == 0 {
        Err("route path output is empty"@)
    } else {
        let parts = words(first);
        match value_after(parts, "dev"@) {
            None => Err("route path output names no interface"@),
            Some(dev) => Ok(
                PathView {
                    destination,
                    resolved_destination: Some(parts[0]),
                    source_ip: value_after(parts, "src"@),
                    interface: Some(dev),
                    gateway: value_after(parts, "via"@),
                    is_vpn: false,
                    raw_output: output,
                },
            ),
        }
    }
}

/// The value on the last line that starts (once trimmed) with `key`,
/// trimmed.
pub open spec fn last_field(ls: Seq<Seq<char>>, key: Seq<char>) -> Option<Seq<char>>
    decreases ls.len(),
{
    if ls.len() == 0 {
        None
    } else {
        match strip_prefix(trim(ls.last()), key) {
            Some(rest) => Some(trim(rest)),
            None => last_field(ls.drop_last(), key),
        }
    }
}

/// What `route -n get` reports: the address after `route to:`, the gateway
/// after `gateway:` and the interface after `interface:`, each from the last
/// line that has it.  Blank output, or output that names no interface, is
/// no route.
pub open spec fn macos_path(destination: Seq<char>, output: Seq<char>) -> Result<PathView, Seq<char>> {
    let ls = lines(output);
    if trim(output).len() == 0 {
        Err("route path output is empty"@)
    } else {
        match last_field(ls, "interface:"@) {
            None => Err("route path output names no interface"@),
            Some(interface) => Ok(
                PathView {
                    destination,
                    resolved_destination: last_field(ls, "route to:"@),
                    source_ip: None,
                    interface: Some(interface),
                    gateway: last_field(ls, "gateway:"@),
                    is_vpn: false,
                    raw_output: output,
                },
            ),
        }
    }
}

pub open spec fn path_result_view(r: Result<RoutePathResult, String>) -> Result<PathView, Seq<char>> {
    match r {
        Ok(p) => Ok(p@),
        Err(e) => Err(e@),
    }
}

/// Reads the output of `ip route get <destination>`.
pub fn parse_linux_route_path(destination: &str, output: &str) -> (r: Result<RoutePathResult, String>)
    ensures
        path_result_view(r) == linux_path(destination@, output@),
{
    let ls = lines_of(&chars_of(output));
    let first = if ls.len() > 0 {
        trim_chars(&ls[0])
    } else {
        Vec::new()
    };
    assert(ls.len() > 0 ==> views(ls@)[0] == ls@[0]@);
    if first.len() == 0 {
        return Err(owned("route path output is empty"));
    }
    let parts = split_whitespace(&first);
    match value_after_word(&parts, "dev") {
        None => Err(owned("route path output names no interface")),
        Some(dev) => {
            assert(views(parts@)[0] == parts@[0]@);
            let via = value_after_word(&parts, "via");
            let src = value_after_word(&parts, "src");
            Ok(
                RoutePathResult {
                    destination: owned(destination),
                    resolved_destination: Some(string_of(&parts[0])),
                    source_ip: opt_string(src),
                    interface: Some(string_of(&dev)),
                    gateway: opt_string(via),
                    is_vpn: false,
                    raw_output: owned(output),
                },
            )
        },
    }
}

fn last_field_exec(ls: &Vec<Vec<char>>, key: &str) -> (r: Option<Vec<char>>)
    ensures
        match r {
            Some(v) => last_field(views(ls@), key@) == Some(v@),
            None => last_field(views(ls@), key@) is None,
        },
{
    let ghost lv = views(ls@);
    let mut j: usize = ls.len();
    assert(lv.take(ls.len() as int) =~= lv);
    while j > 0
        invariant
            lv == views(ls@),
            j <= ls@.len(),
            last_field(lv, key@) == last_field(lv.take(j as int), key@),
        decreases j,
    {
        let line = trim_chars(&ls[j - 1]);
        assert(lv.take(j as int).last() == ls@[j - 1]@);
        assert(lv.take(j as int).drop_last() =~= lv.take(j - 1));
        match strip_prefix_str(&line, key) {
            Some(rest) => {
                return Some(trim_chars(&rest));
            },
            None => {},
        }
        j = j - 1;
    }
    None
}

/// Reads the output of `route -n get <destination>`.
pub fn parse_macos_route_path(destination: &str, output: &str) -> (r: Result<RoutePathResult, String>)
    ensures
        path_result_view(r) == macos_path(destination@, output@),
{
    let text = chars_of(output);
    if trim_chars(&text).len() == 0 {
        return Err(owned("route path output is empty"));
    }
    let ls = lines_of(&text);
    match last_field_exec(&ls, "interface:") {
        None => Err(owned("route path output names no interface")),
        Some(interface) => {
            let resolved = last_field_exec(&ls, "route to:");
            let gateway = last_field_exec(&ls, "gateway:");
            Ok(
                RoutePathResult {
                    destination: owned(destination),
                    resolved_destination: opt_string(resolved),
                    source_ip: None,
                    interface: Some(string_of(&interface)),
                    gateway: opt_string(gateway),
                    is_vpn: false,
                    raw_output: owned(output),
                },
            )
        },
    }
}

/// The routes with those of another table's output after them.
pub fn merge_additional_route_output(routes: Vec<RouteEntry>, additional_output: Option<&str>) -> (r: Vec<
    RouteEntry,
>)
    ensures
        route_views(r@) == route_views(routes@) + match additional_output {
            Some(o) => routes_of(o@),
            None => Seq::empty(),
        },
{
    let mut routes = routes;
    let ghost r0 = routes@;
    match additional_output {
        Some(o) => {
            let mut more = parse_routes(o);
            let ghost m0 = more@;
            routes.append(&mut more);
            assert(routes@ =~= r0 + m0);
            assert(route_views(routes@) =~= route_views(r0) + route_views(m0));
        },
        None => {
            assert(route_views(routes@) =~= route_views(r0) + Seq::empty());
        },
    }
    routes
}

} // verus!
