//! One snapshot from the outputs of one round of commands.
use vstd::prelude::*;

use crate::collector::connections::{connections_of, parse_connections};
use crate::collector::interface::{interfaces_of, merge_gateways, parse_interfaces, with_default_gateways};
use crate::collector::ports::{listening_ports_of, parse_listening_ports};
use crate::collector::routes::{merge_additional_route_output, parse_routes, routes_of};
use crate::collector::stats::{merge_stats, stats_source};
use crate::model::{
    InterfaceView, NetworkSnapshot, connection_views, interface_views, port_views, route_views,
};
use crate::text::lines;

verus! {

/// An interface with the counters that the statistics output gives for its
/// name, when it gives any.
pub open spec fn with_stats(i: InterfaceView, stats_output: Seq<char>) -> InterfaceView {
    match stats_source(stats_output, i.name) {
        Some(s) => InterfaceView { stats: Some(s), ..i },
        None => i,
    }
}

/// An interface with the default gateways of the routing table, when the
/// routing table could be read.
pub open spec fn with_gateways(i: InterfaceView, route_output: Option<Seq<char>>) -> InterfaceView {
    match route_output {
        Some(r) => with_default_gateways(i, r),
        None => i,
    }
}

pub open spec fn opt_view(o: Option<&str>) -> Option<Seq<char>> {
    match o {
        Some(s) => Some(s@),
        None => None,
    }
}

/// Builds a snapshot taken at `captured_at_secs` from the outputs of one
/// round of commands; an output that is missing is one whose command
/// failed.  The interfaces come from the interface listing, with the
/// default gateways of the routing table and the counters of the statistics
/// output (the interface listing itself when the statistics command
/// failed); the routes come from the routing table and then the separate
/// IPv6 table; connections and listening ports from their outputs.
pub fn assemble_snapshot(
    interface_output: &str,
    route_output: Option<&str>,
    ipv6_route_output: Option<&str>,
    stats_output: Option<&str>,
    connections_output: Option<&str>,
    ports_output: Option<&str>,
    captured_at_secs: u64,
) -> (r: NetworkSnapshot)
    ensures
        ({
            let parsed = interfaces_of(interface_output@);
            let stats_in = match stats_output {
                Some(s) => s@,
                None => interface_output@,
            };
            &&& r.interfaces@.len() == parsed.len()
            &&& forall|k: int|
                0 <= k < parsed.len() ==> #[trigger] r.interfaces@[k]@ == with_stats(
                    with_gateways(parsed[k], opt_view(route_output)),
                    stats_in,
                )
        }),
        route_views(r.routes@) == match route_output {
            Some(o) => routes_of(o@),
            None => Seq::empty(),
        } + match ipv6_route_output {
            Some(o) => routes_of(o@),
            None => Seq::empty(),
        },
        connection_views(r.connections@) == match connections_output {
            Some(o) => connections_of(lines(o@)),
            None => Seq::empty(),
        },
        port_views(r.listening_ports@) == match ports_output {
            Some(o) => listening_ports_of(o@),
            None => Seq::empty(),
        },
        r.captured_at_secs == captured_at_secs,
{
    let mut parsed = parse_interfaces(interface_output);
    let ghost first = parsed@;
    if let Some(out) = route_output {
        merge_gateways(&mut parsed, out);
    }
    assert(forall|k: int|
        0 <= k < first.len() ==> #[trigger] parsed@[k]@ == with_gateways(first[k]@, opt_view(route_output)));
    let routes = match route_output {
        Some(out) => parse_routes(out),
        None => Vec::new(),
    };
    assert(route_views(routes@) == match route_output {
        Some(o) => routes_of(o@),
        None => Seq::empty(),
    }) by {
        if route_output is None {
            assert(route_views(routes@) =~= Seq::empty());
        }
    }
    let routes = merge_additional_route_output(routes, ipv6_route_output);
    let stats_in = match stats_output {
        Some(s) => s,
        None => interface_output,
    };
    let ghost gw = parsed@;
    let interfaces = merge_stats(stats_in, parsed);
    assert(forall|k: int| 0 <= k < first.len() ==> first[k]@ == interfaces_of(interface_output@)[k]);
    let connections = match connections_output {
        Some(out) => parse_connections(out),
        None => Vec::new(),
    };
    assert(connection_views(connections@) == match connections_output {
        Some(o) => connections_of(lines(o@)),
        None => Seq::empty(),
    }) by {
        if connections_output is None {
            assert(connection_views(connections@) =~= Seq::empty());
        }
    }
    let listening_ports = match ports_output {
        Some(out) => parse_listening_ports(out),
        None => Vec::new(),
    };
    assert(port_views(listening_ports@) == match ports_output {
        Some(o) => listening_ports_of(o@),
        None => Seq::empty(),
    }) by {
        if ports_output is None {
            assert(port_views(listening_ports@) =~= Seq::empty());
        }
    }
    NetworkSnapshot { interfaces, connections, listening_ports, routes, captured_at_secs }
}

} // verus!
