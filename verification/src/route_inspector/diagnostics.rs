//! Findings about a routing table read together with the interface list.
use vstd::prelude::*;

use crate::model::{
    InterfaceStatus, InterfaceView, NetworkInterface, RouteDiagnostic, RouteDiagnosticSeverity,
    RouteEntry, RouteView, clone_route, interface_views, route_views,
};
use crate::route_inspector::vpn::{is_vpn_interface_name, is_vpn_name};
use crate::text::{
    ascii_lowercase, chars_of, eq_str, owned, str_eq, to_ascii_lowercase, trim, trim_chars,
};

verus! {

/// A diagnostic as plain values.
pub struct DiagnosticView {
    pub severity: RouteDiagnosticSeverity,
    pub title: Seq<char>,
    pub description: Seq<char>,
    pub affected_route: Option<RouteView>,
    pub recommendation: Seq<char>,
}

pub open spec fn opt_route_view(r: Option<RouteEntry>) -> Option<RouteView> {
    match r {
        Some(route) => Some(route@),
        None => None,
    }
}

impl View for RouteDiagnostic {
    type V = DiagnosticView;

    open spec fn view(&self) -> DiagnosticView {
        DiagnosticView {
            severity: self.severity,
            title: self.title@,
            description: self.description@,
            affected_route: opt_route_view(self.affected_route),
            recommendation: self.recommendation@,
        }
    }
}

pub open spec fn diagnostic_views(v: Seq<RouteDiagnostic>) -> Seq<DiagnosticView> {
    v.map_values(|d: RouteDiagnostic| d@)
}

// ---------------------------------------------------------------------------
// The findings, one spec function each
// ---------------------------------------------------------------------------
/// A default route: its destination, trimmed and ASCII lower-cased, is
/// `default` or `0.0.0.0/0`.
pub open spec fn is_default_destination(destination: Seq<char>) -> bool {
    let d = ascii_lowercase(trim(destination));
    d == "default"@ || d == "0.0.0.0/0"@
}

pub open spec fn no_default_finding() -> DiagnosticView {
    DiagnosticView {
        severity: RouteDiagnosticSeverity::Warning,
        title: "No default route"@,
        description: "No default route was found in the routing table."@,
        affected_route: None,
        recommendation: "Add or restore a default gateway so traffic can reach external networks."@,
    }
}

pub open spec fn multiple_defaults_finding(first: RouteView) -> DiagnosticView {
    DiagnosticView {
        severity: RouteDiagnosticSeverity::Warning,
        title: "Multiple default routes"@,
        description: "More than one default route is present."@,
        affected_route: Some(first),
        recommendation: "Review route metrics and remove unintended default routes."@,
    }
}

pub open spec fn vpn_default_finding(route: RouteView) -> DiagnosticView {
    DiagnosticView {
        severity: RouteDiagnosticSeverity::Info,
        title: "VPN overrides default route"@,
        description: "The default route is using a VPN-like interface."@,
        affected_route: Some(route),
        recommendation: "This is expected for full-tunnel VPNs; verify it matches your intended routing policy."@,
    }
}

pub open spec fn interface_down_finding(route: RouteView) -> DiagnosticView {
    DiagnosticView {
        severity: RouteDiagnosticSeverity::Warning,
        title: "Route interface is down"@,
        description: "A route points to an interface that is currently down."@,
        affected_route: Some(route),
        recommendation: "Bring the interface up or remove the stale route."@,
    }
}

pub open spec fn missing_interface_finding(route: RouteView) -> DiagnosticView {
    DiagnosticView {
        severity: RouteDiagnosticSeverity::Warning,
        title: "Route references missing interface"@,
        description: "A route points to an interface that was not found in the interface list."@,
        affected_route: Some(route),
        recommendation: "Refresh network state or remove routes that reference missing interfaces."@,
    }
}

pub open spec fn metric_conflict_finding(route: RouteView) -> DiagnosticView {
    DiagnosticView {
        severity: RouteDiagnosticSeverity::Warning,
        title: "Route metric conflict"@,
        description: "Multiple routes share the same destination and metric."@,
        affected_route: Some(route),
        recommendation: "Adjust route metrics so route selection is deterministic."@,
    }
}

/// The default routes among `routes`, in table order.
pub open spec fn default_routes(routes: Seq<RouteView>) -> Seq<RouteView>
    decreases routes.len(),
{
    if routes.len() == 0 {
        Seq::empty()
    } else {
        let prev = default_routes(routes.drop_last());
        if is_default_destination(routes.last().destination) {
            prev.push(routes.last())
        } else {
            prev
        }
    }
}

/// One finding per default route that leaves through a tunnel interface.
pub open spec fn vpn_findings(defaults: Seq<RouteView>) -> Seq<DiagnosticView>
    decreases defaults.len(),
{
    if defaults.len() == 0 {
        Seq::empty()
    } else {
        let prev = vpn_findings(defaults.drop_last());
        if is_vpn_name(defaults.last().interface) {
            prev.push(vpn_default_finding(defaults.last()))
        } else {
            prev
        }
    }
}

/// The index of the last interface called `name`: the one a name lookup
/// finds when later entries replace earlier ones.
pub open spec fn last_named(interfaces: Seq<InterfaceView>, name: Seq<char>) -> Option<int>
    decreases interfaces.len(),
{
    if interfaces.len() == 0 {
        None
    } else if interfaces.last().name == name {
        Some(interfaces.len() - 1)
    } else {
        last_named(interfaces.drop_last(), name)
    }
}

/// Some route before the last one of `routes` names the same interface.
pub open spec fn interface_seen_before(routes: Seq<RouteView>) -> bool {
    exists|j: int| 0 <= j < routes.len() - 1 && routes[j].interface == routes.last().interface
}

/// What the interface list says of the last route of `routes`: its
/// interface is down, or it is missing from a non-empty list and no
/// earlier route named it.
pub open spec fn interface_finding(routes: Seq<RouteView>, interfaces: Seq<InterfaceView>) -> Seq<
    DiagnosticView,
> {
    let route = routes.last();
    match last_named(interfaces, route.interface) {
        Some(k) => if interfaces[k].status == InterfaceStatus::Down {
            seq![interface_down_finding(route)]
        } else {
            Seq::empty()
        },
        None => if interfaces.len() > 0 && !interface_seen_before(routes) {
            seq![missing_interface_finding(route)]
        } else {
            Seq::empty()
        },
    }
}

pub open spec fn interface_findings(routes: Seq<RouteView>, interfaces: Seq<InterfaceView>) -> Seq<
    DiagnosticView,
>
    decreases routes.len(),
{
    if routes.len() == 0 {
        Seq::empty()
    } else {
        interface_findings(routes.drop_last(), interfaces) + interface_finding(routes, interfaces)
    }
}

/// How many routes of `routes` have this destination and this metric.
pub open spec fn metric_key_count(routes: Seq<RouteView>, destination: Seq<char>, metric: u32) -> nat
    decreases routes.len(),
{
    if routes.len() == 0 {
        0
    } else {
        let r = routes.last();
        metric_key_count(routes.drop_last(), destination, metric) + if r.destination == destination
            && r.metric == Some(metric) {
            1nat
        } else {
            0nat
        }
    }
}

/// A conflict is reported once per destination and metric, at the second
/// route that has them.
pub open spec fn metric_finding(routes: Seq<RouteView>) -> Seq<DiagnosticView> {
    let r = routes.last();
    match r.metric {
        Some(m) => if metric_key_count(routes.drop_last(), r.destination, m) == 1 {
            seq![metric_conflict_finding(r)]
        } else {
            Seq::empty()
        },
        None => Seq::empty(),
    }
}

pub open spec fn metric_findings(routes: Seq<RouteView>) -> Seq<DiagnosticView>
    decreases routes.len(),
{
    if routes.len() == 0 {
        Seq::empty()
    } else {
        metric_findings(routes.drop_last()) + metric_finding(routes)
    }
}

/// Every finding, in the order they are reported: the default-route
/// findings, the tunnel findings, the interface findings and the metric
/// conflicts.
pub open spec fn route_findings(routes: Seq<RouteView>, interfaces: Seq<InterfaceView>) -> Seq<
    DiagnosticView,
> {
    let defaults = default_routes(routes);
    let none = if defaults.len() == 0 {
        seq![no_default_finding()]
    } else {
        Seq::empty()
    };
    let many = if defaults.len() > 1 {
        seq![multiple_defaults_finding(defaults[0])]
    } else {
        Seq::empty()
    };
    none + many + vpn_findings(defaults) + interface_findings(routes, interfaces) + metric_findings(
        routes,
    )
}

// ---------------------------------------------------------------------------
// Executable code
// ---------------------------------------------------------------------------
proof fn lemma_views_push(v: Seq<RouteDiagnostic>, d: RouteDiagnostic)
    ensures
        diagnostic_views(v.push(d)) == diagnostic_views(v).push(d@),
{
    assert(diagnostic_views(v.push(d)) =~= diagnostic_views(v).push(d@));
}

pub fn is_default_route(route: &RouteEntry) -> (r: bool)
    ensures
        r == is_default_destination(route.destination@),
{
    let chars = chars_of(route.destination.as_str());
    let trimmed = trim_chars(&chars);
    let lower = to_ascii_lowercase(&trimmed);
    eq_str(&lower, "default") || eq_str(&lower, "0.0.0.0/0")
}

fn diagnostic(
    severity: RouteDiagnosticSeverity,
    title: &str,
    description: &str,
    affected_route: Option<RouteEntry>,
    recommendation: &str,
) -> (r: RouteDiagnostic)
    ensures
        r@ == (DiagnosticView {
            severity,
            title: title@,
            description: description@,
            affected_route: opt_route_view(affected_route),
            recommendation: recommendation@,
        }),
{
    RouteDiagnostic {
        severity,
        title: owned(title),
        description: owned(description),
        affected_route,
        recommendation: owned(recommendation),
    }
}

/// The default routes of the table, copied.
fn collect_default_routes(routes: &[RouteEntry]) -> (r: Vec<RouteEntry>)
    ensures
        route_views(r@) == default_routes(route_views(routes@)),
{
    let mut out: Vec<RouteEntry> = Vec::new();
    for i in 0..routes.len()
        invariant
            route_views(out@) == default_routes(route_views(routes@.take(i as int))),
    {
        assert(route_views(routes@.take(i + 1)).drop_last() =~= route_views(
            routes@.take(i as int),
        ));
        if is_default_route(&routes[i]) {
            out.push(clone_route(&routes[i]));
            assert(route_views(out@) =~= default_routes(route_views(routes@.take(i as int))).push(
                routes@[i as int]@,
            ));
        }
    }
    assert(routes@.take(routes.len() as int) =~= routes@);
    out
}

/// The position of the last interface called `name`: the one a lookup by
/// name finds when later entries replace earlier ones.
pub fn find_last_named(interfaces: &[NetworkInterface], name: &String) -> (r: Option<usize>)
    ensures
        match r {
            Some(k) => k < interfaces.len() && last_named(interface_views(interfaces@), name@) == Some(
            k as int,
        ),
            None => last_named(interface_views(interfaces@), name@) is None,
        },
{
    let mut j: usize = interfaces.len();
    assert(interfaces@.take(interfaces.len() as int) =~= interfaces@);
    while j > 0
        invariant
            j <= interfaces.len(),
            last_named(interface_views(interfaces@), name@) == last_named(
                interface_views(interfaces@.take(j as int)),
                name@,
            ),
        decreases j,
    {
        let ghost pre = interface_views(interfaces@.take(j as int));
        assert(pre.drop_last() =~= interface_views(interfaces@.take(j - 1)));
        if str_eq(interfaces[j - 1].name.as_str(), name.as_str()) {
            return Some(j - 1);
        }
        j = j - 1;
    }
    None
}

/// Whether a route before `i` names the interface of route `i`.
fn named_before(routes: &[RouteEntry], i: usize) -> (r: bool)
    requires
        i < routes.len(),
    ensures
        r == interface_seen_before(route_views(routes@.take(i + 1))),
{
    let ghost rs = route_views(routes@.take(i + 1));
    let mut j: usize = 0;
    while j < i
        invariant
            j <= i < routes.len(),
            rs == route_views(routes@.take(i + 1)),
            forall|k: int| 0 <= k < j ==> rs[k].interface != rs.last().interface,
        decreases i - j,
    {
        if str_eq(routes[j].interface.as_str(), routes[i].interface.as_str()) {
            assert(rs[j as int].interface == rs.last().interface);
            return true;
        }
        j = j + 1;
    }
    false
}

/// How many routes before `i` share the destination and metric `m`.
fn count_metric_key(routes: &[RouteEntry], i: usize, m: u32) -> (r: usize)
    requires
        i < routes.len(),
    ensures
        r == metric_key_count(route_views(routes@.take(i as int)), routes@[i as int].destination@, m),
{
    let mut count: usize = 0;
    for j in 0..i
        invariant
            i < routes.len(),
            count <= j,
            count == metric_key_count(
                route_views(routes@.take(j as int)),
                routes@[i as int].destination@,
                m,
            ),
    {
        assert(route_views(routes@.take(j + 1)).drop_last() =~= route_views(
            routes@.take(j as int),
        ));
        if routes[j].metric == Some(m) && str_eq(
            routes[j].destination.as_str(),
            routes[i].destination.as_str(),
        ) {
            count = count + 1;
        }
    }
    count
}

pub fn build_route_diagnostics(routes: &[RouteEntry], interfaces: &[NetworkInterface]) -> (r: Vec<
    RouteDiagnostic,
>)
    ensures
        diagnostic_views(r@) == route_findings(route_views(routes@), interface_views(interfaces@)),
{
    let ghost rv = route_views(routes@);
    let ghost iv = interface_views(interfaces@);
    let mut out: Vec<RouteDiagnostic> = Vec::new();
    let defaults = collect_default_routes(routes);
    let ghost dv = default_routes(rv);
    if defaults.len() == 0 {
        out.push(
            diagnostic(
                RouteDiagnosticSeverity::Warning,
                "No default route",
                "No default route was found in the routing table.",
                None,
                "Add or restore a default gateway so traffic can reach external networks.",
            ),
        );
    }
    if defaults.len() > 1 {
        out.push(
            diagnostic(
                RouteDiagnosticSeverity::Warning,
                "Multiple default routes",
                "More than one default route is present.",
                Some(clone_route(&defaults[0])),
                "Review route metrics and remove unintended default routes.",
            ),
        );
    }
    let ghost head = diagnostic_views(out@);
    assert(head =~= (if dv.len() == 0 {
        seq![no_default_finding()]
    } else {
        Seq::empty()
    }) + (if dv.len() > 1 {
        seq![multiple_defaults_finding(dv[0])]
    } else {
        Seq::empty()
    }));
    for i in 0..defaults.len()
        invariant
            route_views(defaults@) == dv,
            diagnostic_views(out@) == head + vpn_findings(dv.take(i as int)),
    {
        assert(dv.take(i + 1).drop_last() =~= dv.take(i as int));
        assert(dv.take(i + 1).last() == defaults@[i as int]@);
        let ghost before = out@;
        if is_vpn_interface_name(defaults[i].interface.as_str()) {
            out.push(
                diagnostic(
                    RouteDiagnosticSeverity::Info,
                    "VPN overrides default route",
                    "The default route is using a VPN-like interface.",
                    Some(clone_route(&defaults[i])),
                    "This is expected for full-tunnel VPNs; verify it matches your intended routing policy.",
                ),
            );
            proof {
                lemma_views_push(before, out@.last());
                assert(out@ == before.push(out@.last()));
            }
            assert(diagnostic_views(out@) =~= head + vpn_findings(dv.take(i + 1)));
        } else {
            assert(diagnostic_views(out@) =~= head + vpn_findings(dv.take(i + 1)));
        }
    }
    assert(dv.take(dv.len() as int) =~= dv);
    let ghost head2 = diagnostic_views(out@);
    for i in 0..routes.len()
        invariant
            rv == route_views(routes@),
            iv == interface_views(interfaces@),
            diagnostic_views(out@) == head2 + interface_findings(rv.take(i as int), iv),
    {
        assert(rv.take(i + 1).drop_last() =~= rv.take(i as int));
        assert(route_views(routes@.take(i + 1)) =~= rv.take(i + 1));
        assert(rv.take(i + 1).last() == routes@[i as int]@);
        let ghost before = out@;
        match find_last_named(interfaces, &routes[i].interface) {
            Some(k) => {
                if interfaces[k].status == InterfaceStatus::Down {
                    out.push(
                        diagnostic(
                            RouteDiagnosticSeverity::Warning,
                            "Route interface is down",
                            "A route points to an interface that is currently down.",
                            Some(clone_route(&routes[i])),
                            "Bring the interface up or remove the stale route.",
                        ),
                    );
                    proof {
                        lemma_views_push(before, out@.last());
                        assert(out@ == before.push(out@.last()));
                    }
                }
            },
            None => {
                if interfaces.len() > 0 && !named_before(routes, i) {
                    out.push(
                        diagnostic(
                            RouteDiagnosticSeverity::Warning,
                            "Route references missing interface",
                            "A route points to an interface that was not found in the interface list.",
                            Some(clone_route(&routes[i])),
                            "Refresh network state or remove routes that reference missing interfaces.",
                        ),
                    );
                    proof {
                        lemma_views_push(before, out@.last());
                        assert(out@ == before.push(out@.last()));
                    }
                }
            },
        }
        assert(diagnostic_views(out@) =~= head2 + interface_findings(rv.take(i + 1), iv));
    }
    assert(rv.take(rv.len() as int) =~= rv);
    let ghost head3 = diagnostic_views(out@);
    for i in 0..routes.len()
        invariant
            rv == route_views(routes@),
            diagnostic_views(out@) == head3 + metric_findings(rv.take(i as int)),
    {
        assert(rv.take(i + 1).drop_last() =~= rv.take(i as int));
        assert(route_views(routes@.take(i as int)) =~= rv.take(i as int));
        assert(rv.take(i + 1).last() == routes@[i as int]@);
        let ghost before = out@;
        match routes[i].metric {
            Some(m) => {
                if count_metric_key(routes, i, m) == 1 {
                    out.push(
                        diagnostic(
                            RouteDiagnosticSeverity::Warning,
                            "Route metric conflict",
                            "Multiple routes share the same destination and metric.",
                            Some(clone_route(&routes[i])),
                            "Adjust route metrics so route selection is deterministic.",
                        ),
                    );
                    proof {
                        lemma_views_push(before, out@.last());
                        assert(out@ == before.push(out@.last()));
                    }
                }
            },
            None => {},
        }
        assert(diagnostic_views(out@) =~= head3 + metric_findings(rv.take(i + 1)));
    }
    out
}

// ---------------------------------------------------------------------------
// Laws
// ---------------------------------------------------------------------------
pub open spec fn all_name_a_route(f: Seq<DiagnosticView>) -> bool {
    forall|k: int| 0 <= k < f.len() ==> (#[trigger] f[k]).affected_route is Some
}

proof fn lemma_vpn_findings_name_routes(defaults: Seq<RouteView>)
    ensures
        all_name_a_route(vpn_findings(defaults)),
    decreases defaults.len(),
{
    if defaults.len() > 0 {
        lemma_vpn_findings_name_routes(defaults.drop_last());
    }
}

proof fn lemma_interface_findings_name_routes(routes: Seq<RouteView>, interfaces: Seq<InterfaceView>)
    ensures
        all_name_a_route(interface_findings(routes, interfaces)),
    decreases routes.len(),
{
    if routes.len() > 0 {
        lemma_interface_findings_name_routes(routes.drop_last(), interfaces);
        let a = interface_findings(routes.drop_last(), interfaces);
        let b = interface_finding(routes, interfaces);
        assert forall|k: int| 0 <= k < (a + b).len() implies (#[trigger] (a + b)[k]).affected_route is Some by {
            if k >= a.len() {
                assert((a + b)[k] == b[k - a.len()]);
            }
        }
    }
}

proof fn lemma_metric_findings_name_routes(routes: Seq<RouteView>)
    ensures
        all_name_a_route(metric_findings(routes)),
    decreases routes.len(),
{
    if routes.len() > 0 {
        lemma_metric_findings_name_routes(routes.drop_last());
        let a = metric_findings(routes.drop_last());
        let b = metric_finding(routes);
        assert forall|k: int| 0 <= k < (a + b).len() implies (#[trigger] (a + b)[k]).affected_route is Some by {
            if k >= a.len() {
                assert((a + b)[k] == b[k - a.len()]);
            }
        }
    }
}

/// "No default route" is reported exactly when the table has no default
/// route, and then first; every other finding names the route it concerns;
/// with several default routes the first finding names the first of them.
pub proof fn lemma_default_route_findings(routes: Seq<RouteView>, interfaces: Seq<InterfaceView>)
    ensures
        default_routes(routes).len() == 0 <==> exists|k: int|
            0 <= k < route_findings(routes, interfaces).len() && (#[trigger] route_findings(
                routes,
                interfaces,
            )[k]).affected_route is None,
        default_routes(routes).len() == 0 ==> route_findings(routes, interfaces)[0]
            == no_default_finding(),
        forall|k: int|
            0 < k < route_findings(routes, interfaces).len() ==> (#[trigger] route_findings(
                routes,
                interfaces,
            )[k]).affected_route is Some,
        default_routes(routes).len() > 1 ==> route_findings(routes, interfaces)[0]
            == multiple_defaults_finding(default_routes(routes)[0]),
{
    let defaults = default_routes(routes);
    let none = if defaults.len() == 0 {
        seq![no_default_finding()]
    } else {
        Seq::empty()
    };
    let many = if defaults.len() > 1 {
        seq![multiple_defaults_finding(defaults[0])]
    } else {
        Seq::empty()
    };
    let v = vpn_findings(defaults);
    let i = interface_findings(routes, interfaces);
    let m = metric_findings(routes);
    lemma_vpn_findings_name_routes(defaults);
    lemma_interface_findings_name_routes(routes, interfaces);
    lemma_metric_findings_name_routes(routes);
    let tail = many + v + i + m;
    assert(all_name_a_route(tail)) by {
        assert forall|k: int| 0 <= k < tail.len() implies (#[trigger] tail[k]).affected_route is Some by {
            if k < many.len() {
                assert(tail[k] == many[k]);
            } else if k < many.len() + v.len() {
                assert(tail[k] == v[k - many.len()]);
            } else if k < many.len() + v.len() + i.len() {
                assert(tail[k] == i[k - many.len() - v.len()]);
            } else {
                assert(tail[k] == m[k - many.len() - v.len() - i.len()]);
            }
        }
    }
    let all = route_findings(routes, interfaces);
    assert(all =~= none + tail);
    if defaults.len() == 0 {
        assert(all[0] == no_default_finding());
        assert forall|k: int| 0 < k < all.len() implies (#[trigger] all[k]).affected_route is Some by {
            assert(all[k] == tail[k - 1]);
        }
    } else {
        assert(all =~= tail);
        assert forall|k: int| 0 <= k < all.len() implies (#[trigger] all[k]).affected_route is Some by {
            assert(all[k] == tail[k]);
        }
    }
}

/// A finding other than the two about the number of default routes.
pub open spec fn is_route_finding(f: DiagnosticView) -> bool {
    &&& f.affected_route is Some
    &&& f.title != "No default route"@
    &&& f.title != "Multiple default routes"@
}

pub open spec fn all_route_findings(f: Seq<DiagnosticView>) -> bool {
    forall|k: int| 0 <= k < f.len() ==> is_route_finding(#[trigger] f[k])
}

proof fn lemma_other_titles_differ(route: RouteView)
    ensures
        is_route_finding(vpn_default_finding(route)),
        is_route_finding(interface_down_finding(route)),
        is_route_finding(missing_interface_finding(route)),
        is_route_finding(metric_conflict_finding(route)),
{
    reveal_strlit("No default route");
    reveal_strlit("Multiple default routes");
    reveal_strlit("VPN overrides default route");
    reveal_strlit("Route interface is down");
    reveal_strlit("Route references missing interface");
    reveal_strlit("Route metric conflict");
    assert("Route interface is down"@[0] != "Multiple default routes"@[0]);
    assert("Route interface is down"@[0] != "No default route"@[0]);
    assert("Route metric conflict"@[0] != "Multiple default routes"@[0]);
    assert("Route metric conflict"@[0] != "No default route"@[0]);
}

proof fn lemma_vpn_findings_are_route_findings(defaults: Seq<RouteView>)
    ensures
        all_route_findings(vpn_findings(defaults)),
    decreases defaults.len(),
{
    if defaults.len() > 0 {
        lemma_vpn_findings_are_route_findings(defaults.drop_last());
        lemma_other_titles_differ(defaults.last());
    }
}

proof fn lemma_concat_route_findings(a: Seq<DiagnosticView>, b: Seq<DiagnosticView>)
    requires
        all_route_findings(a),
        all_route_findings(b),
    ensures
        all_route_findings(a + b),
{
    assert forall|k: int| 0 <= k < (a + b).len() implies is_route_finding(#[trigger] (a + b)[k]) by {
        if k >= a.len() {
            assert((a + b)[k] == b[k - a.len()]);
        } else {
            assert((a + b)[k] == a[k]);
        }
    }
}

proof fn lemma_interface_findings_are_route_findings(
    routes: Seq<RouteView>,
    interfaces: Seq<InterfaceView>,
)
    ensures
        all_route_findings(interface_findings(routes, interfaces)),
    decreases routes.len(),
{
    if routes.len() > 0 {
        lemma_interface_findings_are_route_findings(routes.drop_last(), interfaces);
        lemma_other_titles_differ(routes.last());
        lemma_concat_route_findings(
            interface_findings(routes.drop_last(), interfaces),
            interface_finding(routes, interfaces),
        );
    }
}

proof fn lemma_metric_findings_are_route_findings(routes: Seq<RouteView>)
    ensures
        all_route_findings(metric_findings(routes)),
    decreases routes.len(),
{
    if routes.len() > 0 {
        lemma_metric_findings_are_route_findings(routes.drop_last());
        lemma_other_titles_differ(routes.last());
        lemma_concat_route_findings(metric_findings(routes.drop_last()), metric_finding(routes));
    }
}

/// "No default route" is among the findings exactly when the table has no
/// default route; "Multiple default routes" exactly when it has two or more,
/// and it then names the first of them.
pub proof fn lemma_default_route_count_findings(
    routes: Seq<RouteView>,
    interfaces: Seq<InterfaceView>,
)
    ensures
        (exists|k: int|
            0 <= k < route_findings(routes, interfaces).len() && (#[trigger] route_findings(
                routes,
                interfaces,
            )[k]).title == "No default route"@) <==> default_routes(routes).len() == 0,
        (exists|k: int|
            0 <= k < route_findings(routes, interfaces).len() && (#[trigger] route_findings(
                routes,
                interfaces,
            )[k]).title == "Multiple default routes"@) <==> default_routes(routes).len() >= 2,
        forall|k: int|
            0 <= k < route_findings(routes, interfaces).len() && (#[trigger] route_findings(
                routes,
                interfaces,
            )[k]).title == "Multiple default routes"@ ==> route_findings(routes, interfaces)[k]
                == multiple_defaults_finding(default_routes(routes)[0]),
{
    reveal_strlit("No default route");
    reveal_strlit("Multiple default routes");
    let defaults = default_routes(routes);
    let none = if defaults.len() == 0 {
        seq![no_default_finding()]
    } else {
        Seq::empty()
    };
    let many = if defaults.len() > 1 {
        seq![multiple_defaults_finding(defaults[0])]
    } else {
        Seq::empty()
    };
    lemma_vpn_findings_are_route_findings(defaults);
    lemma_interface_findings_are_route_findings(routes, interfaces);
    lemma_metric_findings_are_route_findings(routes);
    let rest = vpn_findings(defaults) + interface_findings(routes, interfaces) + metric_findings(
        routes,
    );
    lemma_concat_route_findings(vpn_findings(defaults), interface_findings(routes, interfaces));
    lemma_concat_route_findings(
        vpn_findings(defaults) + interface_findings(routes, interfaces),
        metric_findings(routes),
    );
    let all = route_findings(routes, interfaces);
    assert(all =~= none + many + rest);
    assert("No default route"@.len() != "Multiple default routes"@.len());
    let head = none + many;
    assert forall|k: int| 0 <= k < all.len() && head.len() <= k implies is_route_finding(
        #[trigger] all[k],
    ) by {
        assert(all[k] == rest[k - head.len()]);
    }
    if defaults.len() == 0 {
        assert(all[0].title == "No default route"@);
    } else if defaults.len() >= 2 {
        assert(all[0] == multiple_defaults_finding(defaults[0]));
    }
    assert forall|k: int|
        0 <= k < all.len() && (#[trigger] all[k]).title == "Multiple default routes"@ implies all[k]
        == multiple_defaults_finding(defaults[0]) && defaults.len() >= 2 by {
        if k >= head.len() {
            assert(is_route_finding(all[k]));
        } else {
            assert(all[k] == head[k]);
        }
    }
    assert forall|k: int|
        0 <= k < all.len() && (#[trigger] all[k]).title == "No default route"@ implies defaults.len()
        == 0 by {
        if k >= head.len() {
            assert(is_route_finding(all[k]));
        } else {
            assert(all[k] == head[k]);
        }
    }
}

/// How many findings of `f` meet `p`.
pub open spec fn count_findings(f: Seq<DiagnosticView>, p: spec_fn(DiagnosticView) -> bool) -> nat
    decreases f.len(),
{
    if f.len() == 0 {
        0
    } else {
        count_findings(f.drop_last(), p) + if p(f.last()) {
            1nat
        } else {
            0nat
        }
    }
}

/// A metric conflict reported for this destination and metric.
pub open spec fn conflict_at(destination: Seq<char>, metric: u32) -> spec_fn(DiagnosticView) -> bool {
    |f: DiagnosticView|
        {
            &&& f.title == "Route metric conflict"@
            &&& f.affected_route matches Some(r) && r.destination == destination && r.metric == Some(
                metric,
            )
        }
}

/// A missing interface reported for a route through `name`.
pub open spec fn missing_for(name: Seq<char>) -> spec_fn(DiagnosticView) -> bool {
    |f: DiagnosticView|
        {
            &&& f.title == "Route references missing interface"@
            &&& f.affected_route matches Some(r) && r.interface == name
        }
}

/// A down interface reported for a route through `name`.
pub open spec fn down_for(name: Seq<char>) -> spec_fn(DiagnosticView) -> bool {
    |f: DiagnosticView|
        {
            &&& f.title == "Route interface is down"@
            &&& f.affected_route matches Some(r) && r.interface == name
        }
}

/// How many routes of `routes` leave through `name`.
pub open spec fn routes_through(routes: Seq<RouteView>, name: Seq<char>) -> nat
    decreases routes.len(),
{
    if routes.len() == 0 {
        0
    } else {
        routes_through(routes.drop_last(), name) + if routes.last().interface == name {
            1nat
        } else {
            0nat
        }
    }
}

proof fn lemma_count_concat(a: Seq<DiagnosticView>, b: Seq<DiagnosticView>, p: spec_fn(DiagnosticView) -> bool)
    ensures
        count_findings(a + b, p) == count_findings(a, p) + count_findings(b, p),
    decreases b.len(),
{
    if b.len() == 0 {
        assert(a + b =~= a);
    } else {
        lemma_count_concat(a, b.drop_last(), p);
        assert((a + b).drop_last() =~= a + b.drop_last());
    }
}

proof fn lemma_count_single(x: DiagnosticView, p: spec_fn(DiagnosticView) -> bool)
    ensures
        count_findings(seq![x], p) == if p(x) {
            1nat
        } else {
            0nat
        },
{
    assert(seq![x].drop_last() =~= Seq::<DiagnosticView>::empty());
    assert(seq![x].last() == x);
    assert(count_findings(Seq::<DiagnosticView>::empty(), p) == 0);
}

proof fn lemma_count_none(f: Seq<DiagnosticView>, p: spec_fn(DiagnosticView) -> bool)
    requires
        forall|k: int| 0 <= k < f.len() ==> !p(#[trigger] f[k]),
    ensures
        count_findings(f, p) == 0,
    decreases f.len(),
{
    if f.len() > 0 {
        lemma_count_none(f.drop_last(), p);
        assert(!p(f[f.len() - 1]));
    }
}

/// Every finding of `f` has one of two titles.
pub open spec fn titled(f: Seq<DiagnosticView>, a: Seq<char>, b: Seq<char>) -> bool {
    forall|k: int| 0 <= k < f.len() ==> (#[trigger] f[k]).title == a || f[k].title == b
}

proof fn lemma_titled_concat(f: Seq<DiagnosticView>, g: Seq<DiagnosticView>, a: Seq<char>, b: Seq<char>)
    requires
        titled(f, a, b),
        titled(g, a, b),
    ensures
        titled(f + g, a, b),
{
    assert forall|k: int| 0 <= k < (f + g).len() implies (#[trigger] (f + g)[k]).title == a || (f
        + g)[k].title == b by {
        if k >= f.len() {
            assert((f + g)[k] == g[k - f.len()]);
        } else {
            assert((f + g)[k] == f[k]);
        }
    }
}

proof fn lemma_vpn_titled(defaults: Seq<RouteView>)
    ensures
        titled(vpn_findings(defaults), "VPN overrides default route"@, "VPN overrides default route"@),
    decreases defaults.len(),
{
    if defaults.len() > 0 {
        lemma_vpn_titled(defaults.drop_last());
    }
}

proof fn lemma_interface_titled(routes: Seq<RouteView>, interfaces: Seq<InterfaceView>)
    ensures
        titled(
            interface_findings(routes, interfaces),
            "Route interface is down"@,
            "Route references missing interface"@,
        ),
    decreases routes.len(),
{
    if routes.len() > 0 {
        lemma_interface_titled(routes.drop_last(), interfaces);
        lemma_titled_concat(
            interface_findings(routes.drop_last(), interfaces),
            interface_finding(routes, interfaces),
            "Route interface is down"@,
            "Route references missing interface"@,
        );
    }
}

proof fn lemma_metric_titled(routes: Seq<RouteView>)
    ensures
        titled(metric_findings(routes), "Route metric conflict"@, "Route metric conflict"@),
    decreases routes.len(),
{
    if routes.len() > 0 {
        lemma_metric_titled(routes.drop_last());
        lemma_titled_concat(
            metric_findings(routes.drop_last()),
            metric_finding(routes),
            "Route metric conflict"@,
            "Route metric conflict"@,
        );
    }
}

proof fn lemma_metric_conflict_count(routes: Seq<RouteView>, destination: Seq<char>, metric: u32)
    ensures
        count_findings(metric_findings(routes), conflict_at(destination, metric)) == if metric_key_count(
            routes,
            destination,
            metric,
        ) >= 2 {
            1nat
        } else {
            0nat
        },
    decreases routes.len(),
{
    if routes.len() > 0 {
        let p = conflict_at(destination, metric);
        lemma_metric_conflict_count(routes.drop_last(), destination, metric);
        lemma_count_concat(metric_findings(routes.drop_last()), metric_finding(routes), p);
        let r = routes.last();
        if let Some(m) = r.metric {
            if metric_key_count(routes.drop_last(), r.destination, m) == 1 {
                lemma_count_single(metric_conflict_finding(r), p);
            }
        }
    }
}

proof fn lemma_titles_distinct()
    ensures
        "Route interface is down"@ != "Route references missing interface"@,
        "Route interface is down"@ != "Route metric conflict"@,
        "Route references missing interface"@ != "Route metric conflict"@,
        "VPN overrides default route"@ != "Route metric conflict"@,
        "VPN overrides default route"@ != "Route interface is down"@,
        "VPN overrides default route"@ != "Route references missing interface"@,
        "No default route"@ != "Route metric conflict"@,
        "No default route"@ != "Route interface is down"@,
        "No default route"@ != "Route references missing interface"@,
        "Multiple default routes"@ != "Route metric conflict"@,
        "Multiple default routes"@ != "Route interface is down"@,
        "Multiple default routes"@ != "Route references missing interface"@,
{
    reveal_strlit("No default route");
    reveal_strlit("Multiple default routes");
    reveal_strlit("VPN overrides default route");
    reveal_strlit("Route interface is down");
    reveal_strlit("Route references missing interface");
    reveal_strlit("Route metric conflict");
    assert("Route interface is down"@[6] != "Route references missing interface"@[6]);
    assert("Route interface is down"@[6] != "Route metric conflict"@[6]);
    assert("Route references missing interface"@[6] != "Route metric conflict"@[6]);
    assert("VPN overrides default route"@[0] != "Route metric conflict"@[0]);
    assert("VPN overrides default route"@[0] != "Route interface is down"@[0]);
    assert("VPN overrides default route"@[0] != "Route references missing interface"@[0]);
    assert("No default route"@[0] != "Route metric conflict"@[0]);
    assert("No default route"@[0] != "Route interface is down"@[0]);
    assert("No default route"@[0] != "Route references missing interface"@[0]);
    assert("Multiple default routes"@[0] != "Route metric conflict"@[0]);
    assert("Multiple default routes"@[0] != "Route interface is down"@[0]);
    assert("Multiple default routes"@[0] != "Route references missing interface"@[0]);
}

proof fn lemma_interface_counts(routes: Seq<RouteView>, interfaces: Seq<InterfaceView>, name: Seq<char>)
    ensures
        count_findings(interface_findings(routes, interfaces), missing_for(name)) == if interfaces.len()
            > 0 && last_named(interfaces, name) is None && exists|j: int|
            0 <= j < routes.len() && (#[trigger] routes[j]).interface == name {
            1nat
        } else {
            0nat
        },
        count_findings(interface_findings(routes, interfaces), down_for(name)) == if last_named(
            interfaces,
            name,
        ) matches Some(k) && interfaces[k].status == InterfaceStatus::Down {
            routes_through(routes, name)
        } else {
            0nat
        },
    decreases routes.len(),
{
    if routes.len() > 0 {
        let prefix = routes.drop_last();
        let r = routes.last();
        lemma_interface_counts(prefix, interfaces, name);
        lemma_count_concat(
            interface_findings(prefix, interfaces),
            interface_finding(routes, interfaces),
            missing_for(name),
        );
        lemma_count_concat(
            interface_findings(prefix, interfaces),
            interface_finding(routes, interfaces),
            down_for(name),
        );
        lemma_titles_distinct();
        let f = interface_finding(routes, interfaces);
        let pm = missing_for(name);
        let pd = down_for(name);
        match last_named(interfaces, r.interface) {
            Some(k) => {
                if interfaces[k].status == InterfaceStatus::Down {
                    assert(f =~= seq![interface_down_finding(r)]);
                    lemma_count_single(interface_down_finding(r), pm);
                    lemma_count_single(interface_down_finding(r), pd);
                    assert(!pm(interface_down_finding(r)));
                    assert(pd(interface_down_finding(r)) == (r.interface == name));
                } else {
                    assert(f =~= Seq::<DiagnosticView>::empty());
                }
            },
            None => {
                if interfaces.len() > 0 && !interface_seen_before(routes) {
                    assert(f =~= seq![missing_interface_finding(r)]);
                    lemma_count_single(missing_interface_finding(r), pm);
                    lemma_count_single(missing_interface_finding(r), pd);
                    assert(!pd(missing_interface_finding(r)));
                    assert(pm(missing_interface_finding(r)) == (r.interface == name));
                } else {
                    assert(f =~= Seq::<DiagnosticView>::empty());
                }
            },
        }
        assert(count_findings(Seq::<DiagnosticView>::empty(), pm) == 0);
        assert(count_findings(Seq::<DiagnosticView>::empty(), pd) == 0);
        let seen_all = exists|j: int| 0 <= j < routes.len() && (#[trigger] routes[j]).interface == name;
        let seen_prefix = exists|j: int| 0 <= j < prefix.len() && (#[trigger] prefix[j]).interface == name;
        if seen_prefix {
            let j = choose|j: int| 0 <= j < prefix.len() && (#[trigger] prefix[j]).interface == name;
            assert(routes[j] == prefix[j]);
            assert(seen_all);
        }
        if seen_all {
            let j = choose|j: int| 0 <= j < routes.len() && (#[trigger] routes[j]).interface == name;
            if j < prefix.len() {
                assert(prefix[j] == routes[j]);
                assert(seen_prefix);
            } else {
                assert(r.interface == name);
            }
        }
        if r.interface == name {
            assert(routes[routes.len() - 1] == r);
            assert(seen_all);
            if interface_seen_before(routes) {
                let j = choose|j: int| 0 <= j < routes.len() - 1 && routes[j].interface == routes.last().interface;
                assert(prefix[j] == routes[j]);
                assert(seen_prefix);
            }
            if seen_prefix {
                let j = choose|j: int| 0 <= j < prefix.len() && (#[trigger] prefix[j]).interface == name;
                assert(routes[j] == prefix[j]);
                assert(interface_seen_before(routes));
            }
        }
    }
}

/// Each destination and metric that two or more routes share is reported
/// as a metric conflict exactly once; each interface that routes leave
/// through but a non-empty interface list lacks is reported missing exactly
/// once; and each route through an interface that the list shows down is
/// reported once.
pub proof fn lemma_finding_counts(
    routes: Seq<RouteView>,
    interfaces: Seq<InterfaceView>,
    destination: Seq<char>,
    metric: u32,
    name: Seq<char>,
)
    ensures
        count_findings(route_findings(routes, interfaces), conflict_at(destination, metric)) == if metric_key_count(
            routes,
            destination,
            metric,
        ) >= 2 {
            1nat
        } else {
            0nat
        },
        count_findings(route_findings(routes, interfaces), missing_for(name)) == if interfaces.len()
            > 0 && last_named(interfaces, name) is None && exists|j: int|
            0 <= j < routes.len() && (#[trigger] routes[j]).interface == name {
            1nat
        } else {
            0nat
        },
        count_findings(route_findings(routes, interfaces), down_for(name)) == if last_named(
            interfaces,
            name,
        ) matches Some(k) && interfaces[k].status == InterfaceStatus::Down {
            routes_through(routes, name)
        } else {
            0nat
        },
{
    reveal_strlit("No default route");
    reveal_strlit("Multiple default routes");
    reveal_strlit("VPN overrides default route");
    reveal_strlit("Route interface is down");
    reveal_strlit("Route references missing interface");
    reveal_strlit("Route metric conflict");
    lemma_titles_distinct();
    let defaults = default_routes(routes);
    let none = if defaults.len() == 0 {
        seq![no_default_finding()]
    } else {
        Seq::empty()
    };
    let many = if defaults.len() > 1 {
        seq![multiple_defaults_finding(defaults[0])]
    } else {
        Seq::empty()
    };
    let head = none + many;
    assert(titled(head, "No default route"@, "Multiple default routes"@)) by {
        assert forall|k: int| 0 <= k < head.len() implies (#[trigger] head[k]).title
            == "No default route"@ || head[k].title == "Multiple default routes"@ by {
            if k < none.len() {
                assert(head[k] == none[k]);
            } else {
                assert(head[k] == many[k - none.len()]);
            }
        }
    }
    let v = vpn_findings(defaults);
    let i = interface_findings(routes, interfaces);
    let m = metric_findings(routes);
    lemma_vpn_titled(defaults);
    lemma_interface_titled(routes, interfaces);
    lemma_metric_titled(routes);
    let all = route_findings(routes, interfaces);
    assert(all =~= head + v + i + m);
    let pc = conflict_at(destination, metric);
    let pm = missing_for(name);
    let pd = down_for(name);
    lemma_count_concat(head + v + i, m, pc);
    lemma_count_concat(head + v, i, pc);
    lemma_count_concat(head, v, pc);
    lemma_count_concat(head + v + i, m, pm);
    lemma_count_concat(head + v, i, pm);
    lemma_count_concat(head, v, pm);
    lemma_count_concat(head + v + i, m, pd);
    lemma_count_concat(head + v, i, pd);
    lemma_count_concat(head, v, pd);
    assert forall|k: int| 0 <= k < head.len() implies !pc(#[trigger] head[k]) && !pm(head[k]) && !pd(head[k]) by {}
    assert forall|k: int| 0 <= k < v.len() implies !pc(#[trigger] v[k]) && !pm(v[k]) && !pd(v[k]) by {
        assert(v[k].title == "VPN overrides default route"@);
        assert("VPN overrides default route"@.len() == 27);
    }
    assert forall|k: int| 0 <= k < i.len() implies !pc(#[trigger] i[k]) by {
        assert(i[k].title == "Route interface is down"@ || i[k].title == "Route references missing interface"@);
    }
    assert forall|k: int| 0 <= k < m.len() implies !pm(#[trigger] m[k]) && !pd(m[k]) by {
        assert(m[k].title == "Route metric conflict"@);
    }
    lemma_count_none(head, pc);
    lemma_count_none(head, pm);
    lemma_count_none(head, pd);
    lemma_count_none(v, pc);
    lemma_count_none(v, pm);
    lemma_count_none(v, pd);
    lemma_count_none(i, pc);
    lemma_count_none(m, pm);
    lemma_count_none(m, pd);
    lemma_metric_conflict_count(routes, destination, metric);
    lemma_interface_counts(routes, interfaces, name);
}

} // verus!
