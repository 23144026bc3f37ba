//! The path of a packet from this host to a destination, as a chain of
//! boxes drawn with box-drawing characters.
use vstd::prelude::*;

use crate::model::{RouteGraph, RouteGraphNode, RouteGraphNodeKind, RoutePathResult, copy_opt, opt_chars};
use crate::route_inspector::vpn::{is_vpn_interface_name, is_vpn_name};
use crate::text::{
    ascii_lowercase, chars_of, eq_str, owned, push_chars, push_str, starts_with, starts_with_str,
    string_of, to_ascii_lowercase,
};

verus! {

/// A route lookup as plain values.
pub struct PathView {
    pub destination: Seq<char>,
    pub resolved_destination: Option<Seq<char>>,
    pub source_ip: Option<Seq<char>>,
    pub interface: Option<Seq<char>>,
    pub gateway: Option<Seq<char>>,
    pub is_vpn: bool,
    pub raw_output: Seq<char>,
}

impl View for RoutePathResult {
    type V = PathView;

    open spec fn view(&self) -> PathView {
        PathView {
            destination: self.destination@,
            resolved_destination: opt_chars(self.resolved_destination),
            source_ip: opt_chars(self.source_ip),
            interface: opt_chars(self.interface),
            gateway: opt_chars(self.gateway),
            is_vpn: self.is_vpn,
            raw_output: self.raw_output@,
        }
    }
}

/// A node of the path as plain values.
pub struct NodeView {
    pub kind: RouteGraphNodeKind,
    pub label: Seq<char>,
    pub detail: Option<Seq<char>>,
}

impl View for RouteGraphNode {
    type V = NodeView;

    open spec fn view(&self) -> NodeView {
        NodeView { kind: self.kind, label: self.label@, detail: opt_chars(self.detail) }
    }
}

pub open spec fn node_views(v: Seq<RouteGraphNode>) -> Seq<NodeView> {
    v.map_values(|n: RouteGraphNode| n@)
}

impl View for RouteGraph {
    type V = Seq<NodeView>;

    open spec fn view(&self) -> Seq<NodeView> {
        node_views(self.nodes@)
    }
}

/// A gateway worth drawing: not a BSD placeholder such as `link#4`,
/// `link` or `local` (compared without regard to ASCII case).
pub open spec fn shows_gateway(gateway: Seq<char>) -> bool {
    let lower = ascii_lowercase(gateway);
    lower != "link"@ && lower != "local"@ && !starts_with(lower, "link#"@)
}

/// The lookup goes through a tunnel: it says so, or its interface has a
/// tunnel's name.
pub open spec fn through_tunnel(p: PathView) -> bool {
    p.is_vpn || match p.interface {
        Some(i) => is_vpn_name(i),
        None => false,
    }
}

pub open spec fn interface_nodes(p: PathView) -> Seq<NodeView> {
    match p.interface {
        Some(i) => seq![
            NodeView { kind: RouteGraphNodeKind::Interface, label: i, detail: Some("Interface"@) },
        ],
        None => Seq::empty(),
    }
}

pub open spec fn gateway_nodes(p: PathView) -> Seq<NodeView> {
    match p.gateway {
        Some(g) => if shows_gateway(g) {
            seq![NodeView { kind: RouteGraphNodeKind::Gateway, label: "Gateway"@, detail: Some(g) }]
        } else {
            Seq::empty()
        },
        None => Seq::empty(),
    }
}

pub open spec fn transit_node(p: PathView) -> NodeView {
    if through_tunnel(p) {
        NodeView { kind: RouteGraphNodeKind::VpnTunnel, label: "VPN Tunnel"@, detail: None }
    } else {
        NodeView { kind: RouteGraphNodeKind::Internet, label: "Internet"@, detail: None }
    }
}

pub open spec fn destination_node(p: PathView) -> NodeView {
    NodeView {
        kind: RouteGraphNodeKind::Destination,
        label: match p.resolved_destination {
            Some(d) => d,
            None => p.destination,
        },
        detail: Some("Destination"@),
    }
}

/// The nodes of the path, in order: this host, the outgoing interface if
/// known, the gateway if known and worth drawing, the tunnel or the
/// internet, and the destination (as resolved, if it was).
pub open spec fn path_nodes(p: PathView) -> Seq<NodeView> {
    seq![NodeView { kind: RouteGraphNodeKind::Host, label: "This Host"@, detail: p.source_ip }]
        + interface_nodes(p) + gateway_nodes(p) + seq![transit_node(p), destination_node(p)]
}

/// At most `max` characters of `s`, with `...` after a cut.
pub open spec fn truncated(s: Seq<char>, max: nat) -> Seq<char> {
    if s.len() > max {
        s.take(max as int) + "..."@
    } else {
        s
    }
}

/// The text inside a node's box: its label, then ` · ` and its detail when
/// the detail is not empty, each cut at 32 characters.
pub open spec fn node_content(n: NodeView) -> Seq<char> {
    truncated(n.label, 32) + match n.detail {
        Some(d) => if d.len() > 0 {
            " · "@ + truncated(d, 32)
        } else {
            Seq::empty()
        },
        None => Seq::empty(),
    }
}

/// `width` horizontal box-drawing lines.
pub open spec fn rule(width: nat) -> Seq<char> {
    Seq::new(width, |i: int| '─')
}

/// The three lines of a node's box, two characters wider than its text.
pub open spec fn node_box(n: NodeView) -> Seq<Seq<char>> {
    let content = node_content(n);
    let width = content.len() + 2;
    seq![
        seq!['┌'] + rule(width) + seq!['┐'],
        "│ "@ + content + " │"@,
        seq!['└'] + rule(width) + seq!['┘'],
    ]
}

/// The boxes of the nodes, one under the other, joined by a downward arrow.
pub open spec fn graph_lines(nodes: Seq<NodeView>) -> Seq<Seq<char>>
    decreases nodes.len(),
{
    if nodes.len() == 0 {
        Seq::empty()
    } else if nodes.len() == 1 {
        node_box(nodes[0])
    } else {
        graph_lines(nodes.drop_last()) + seq!["   │"@, "   ▼"@] + node_box(nodes.last())
    }
}

/// A path of `n` nodes is drawn in `5n - 2` lines: three per box and two per
/// arrow between boxes.
pub proof fn lemma_graph_line_count(nodes: Seq<NodeView>)
    requires
        nodes.len() > 0,
    ensures
        graph_lines(nodes).len() == 5 * nodes.len() - 2,
    decreases nodes.len(),
{
    if nodes.len() > 1 {
        lemma_graph_line_count(nodes.drop_last());
    }
}

/// The two arrow lines after the box of node `i`.
pub open spec fn arrow_after(lines: Seq<Seq<char>>, i: int) -> bool {
    lines[5 * i + 3] == "   │"@ && lines[5 * i + 4] == "   ▼"@
}

/// The drawing of `n` nodes: node `i` is the three-line box at lines
/// `5i` to `5i + 2`, and after every box but the last come the two arrow
/// lines `   │` and `   ▼`.
pub proof fn lemma_graph_layout(nodes: Seq<NodeView>)
    requires
        nodes.len() > 0,
    ensures
        graph_lines(nodes).len() == 5 * nodes.len() - 2,
        forall|i: int, j: int|
            0 <= i < nodes.len() && 0 <= j < 3 ==> #[trigger] graph_lines(nodes)[5 * i + j] == node_box(
                nodes[i],
            )[j],
        forall|i: int| 0 <= i < nodes.len() - 1 ==> #[trigger] arrow_after(graph_lines(nodes), i),
    decreases nodes.len(),
{
    lemma_graph_line_count(nodes);
    if nodes.len() > 1 {
        let prev = nodes.drop_last();
        lemma_graph_layout(prev);
        let head = graph_lines(prev);
        let arrows = seq!["   │"@, "   ▼"@];
        let last = node_box(nodes.last());
        let all = graph_lines(nodes);
        assert(all == head + arrows + last);
        assert forall|i: int, j: int|
            0 <= i < nodes.len() && 0 <= j < 3 implies #[trigger] all[5 * i + j] == node_box(nodes[i])[j] by {
            if i < nodes.len() - 1 {
                assert(prev[i] == nodes[i]);
                assert(head[5 * i + j] == node_box(prev[i])[j]);
                assert(all[5 * i + j] == head[5 * i + j]);
            } else {
                assert(all[5 * i + j] == last[j]);
            }
        }
        assert forall|i: int| 0 <= i < nodes.len() - 1 implies #[trigger] arrow_after(all, i) by {
            if i < nodes.len() - 2 {
                assert(arrow_after(head, i));
                assert(all[5 * i + 3] == head[5 * i + 3]);
                assert(all[5 * i + 4] == head[5 * i + 4]);
            } else {
                assert(all[5 * i + 3] == arrows[0]);
                assert(all[5 * i + 4] == arrows[1]);
            }
        }
    } else {
        assert forall|i: int, j: int|
            0 <= i < nodes.len() && 0 <= j < 3 implies #[trigger] graph_lines(nodes)[5 * i + j] == node_box(
            nodes[i],
        )[j] by {
            assert(i == 0);
        }
    }
}

/// Every path starts at this host and ends at the destination, with the
/// tunnel or the internet just before it, and holds three to five nodes.
pub proof fn lemma_path_shape(p: PathView)
    ensures
        3 <= path_nodes(p).len() <= 5,
        path_nodes(p)[0].kind == RouteGraphNodeKind::Host,
        path_nodes(p).last().kind == RouteGraphNodeKind::Destination,
        path_nodes(p)[path_nodes(p).len() - 2].kind == (if through_tunnel(p) {
            RouteGraphNodeKind::VpnTunnel
        } else {
            RouteGraphNodeKind::Internet
        }),
{
    let host = seq![NodeView { kind: RouteGraphNodeKind::Host, label: "This Host"@, detail: p.source_ip }];
    let a = host + interface_nodes(p);
    let b = a + gateway_nodes(p);
    assert(interface_nodes(p).len() <= 1);
    assert(gateway_nodes(p).len() <= 1);
    assert(a.len() == 1 + interface_nodes(p).len());
    assert(b.len() == a.len() + gateway_nodes(p).len());
    assert(path_nodes(p).len() == b.len() + 2);
}

// ---------------------------------------------------------------------------
// Executable code
// ---------------------------------------------------------------------------
fn should_show_gateway(gateway: &str) -> (r: bool)
    ensures
        r == shows_gateway(gateway@),
{
    let chars = chars_of(gateway);
    let lower = to_ascii_lowercase(&chars);
    !eq_str(&lower, "link") && !eq_str(&lower, "local") && !starts_with_str(&lower, "link#")
}

pub fn build_route_graph(result: &RoutePathResult) -> (r: RouteGraph)
    ensures
        r@ == path_nodes(result@),
{
    let mut nodes: Vec<RouteGraphNode> = Vec::new();
    nodes.push(
        RouteGraphNode {
            kind: RouteGraphNodeKind::Host,
            label: owned("This Host"),
            detail: copy_opt(&result.source_ip),
        },
    );
    let mut vpn_interface = false;
    match &result.interface {
        Some(interface) => {
            nodes.push(
                RouteGraphNode {
                    kind: RouteGraphNodeKind::Interface,
                    label: interface.clone(),
                    detail: Some(owned("Interface")),
                },
            );
            vpn_interface = is_vpn_interface_name(interface.as_str());
        },
        None => {},
    }
    match &result.gateway {
        Some(gateway) => {
            if should_show_gateway(gateway.as_str()) {
                nodes.push(
                    RouteGraphNode {
                        kind: RouteGraphNodeKind::Gateway,
                        label: owned("Gateway"),
                        detail: Some(gateway.clone()),
                    },
                );
            }
        },
        None => {},
    }
    if result.is_vpn || vpn_interface {
        nodes.push(
            RouteGraphNode {
                kind: RouteGraphNodeKind::VpnTunnel,
                label: owned("VPN Tunnel"),
                detail: None,
            },
        );
    } else {
        nodes.push(
            RouteGraphNode { kind: RouteGraphNodeKind::Internet, label: owned("Internet"), detail: None },
        );
    }
    let label = match &result.resolved_destination {
        Some(d) => d.clone(),
        None => result.destination.clone(),
    };
    nodes.push(
        RouteGraphNode {
            kind: RouteGraphNodeKind::Destination,
            label,
            detail: Some(owned("Destination")),
        },
    );
    let r = RouteGraph { nodes };
    assert(r@ =~= path_nodes(result@));
    r
}

/// `value` cut to `max` characters, with `...` after a cut.
fn truncate(value: &str, max: usize) -> (r: String)
    ensures
        r@ == truncated(value@, max as nat),
{
    let chars = chars_of(value);
    if chars.len() > max {
        let mut out = String::new();
        let mut i: usize = 0;
        let mut head: Vec<char> = Vec::new();
        while i < max
            invariant
                i <= max < chars.len(),
                head@ == chars@.take(i as int),
            decreases max - i,
        {
            head.push(chars[i]);
            assert(chars@.take(i + 1) =~= chars@.take(i as int).push(chars@[i as int]));
            i = i + 1;
        }
        push_chars(&mut out, &head);
        push_str(&mut out, "...");
        out
    } else {
        string_of(&chars)
    }
}

/// `width` copies of the horizontal box-drawing character.
fn rule_chars(width: usize) -> (r: Vec<char>)
    ensures
        r@ == rule(width as nat),
{
    let mut r: Vec<char> = Vec::new();
    for i in 0..width
        invariant
            r@ == rule(i as nat),
    {
        r.push('─');
        assert(r@ =~= rule((i + 1) as nat));
    }
    r
}

fn render_node(node: &RouteGraphNode) -> (r: Vec<String>)
    ensures
        r@.map_values(|s: String| s@) == node_box(node@),
{
    let mut content = truncate(node.label.as_str(), 32);
    match &node.detail {
        Some(detail) => {
            let d = chars_of(detail.as_str());
            if d.len() > 0 {
                push_str(&mut content, " · ");
                let cut = truncate(detail.as_str(), 32);
                let cut_chars = chars_of(cut.as_str());
                push_chars(&mut content, &cut_chars);
            }
        },
        None => {},
    }
    proof {
        reveal_strlit("...");
        reveal_strlit(" · ");
    }
    assert(content@ == node_content(node@));
    let content_chars = chars_of(content.as_str());
    assert(content_chars.len() <= 73);
    let width = content_chars.len() + 2;
    let line = rule_chars(width);
    let mut top = String::new();
    push_str(&mut top, "┌");
    push_chars(&mut top, &line);
    push_str(&mut top, "┐");
    let mut middle = String::new();
    push_str(&mut middle, "│ ");
    push_chars(&mut middle, &content_chars);
    push_str(&mut middle, " │");
    let mut bottom = String::new();
    push_str(&mut bottom, "└");
    push_chars(&mut bottom, &line);
    push_str(&mut bottom, "┘");
    proof {
        reveal_strlit("┌");
        reveal_strlit("┐");
        reveal_strlit("└");
        reveal_strlit("┘");
    }
    assert("┌"@ =~= seq!['┌']);
    assert("┐"@ =~= seq!['┐']);
    assert("└"@ =~= seq!['└']);
    assert("┘"@ =~= seq!['┘']);
    let r = vec![top, middle, bottom];
    assert(r@.map_values(|s: String| s@) =~= node_box(node@));
    r
}

pub fn render_route_graph_lines(graph: &RouteGraph) -> (r: Vec<String>)
    ensures
        r@.map_values(|s: String| s@) == graph_lines(graph@),
{
    let mut lines: Vec<String> = Vec::new();
    let ghost nodes = graph@;
    for i in 0..graph.nodes.len()
        invariant
            nodes == graph@,
            nodes.len() == graph.nodes.len(),
            lines@.map_values(|s: String| s@) == graph_lines(nodes.take(i as int)),
    {
        assert(nodes.take(i + 1).drop_last() =~= nodes.take(i as int));
        assert(nodes.take(i + 1).last() == graph.nodes@[i as int]@);
        let ghost before = lines@;
        if i > 0 {
            lines.push(owned("   │"));
            lines.push(owned("   ▼"));
        }
        let boxed = render_node(&graph.nodes[i]);
        assert(boxed@.map_values(|s: String| s@).len() == 3);
        lines.push(boxed[0].clone());
        lines.push(boxed[1].clone());
        lines.push(boxed[2].clone());
        assert(lines@.map_values(|s: String| s@) =~= graph_lines(nodes.take(i + 1)));
    }
    assert(nodes.take(nodes.len() as int) =~= nodes);
    lines
}

} // verus!
