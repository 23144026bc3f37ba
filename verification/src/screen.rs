//! The text of the screen apart from the drawing itself: the status bar,
//! the view tabs, the command panel and the route inspector's pages, as
//! lines of styled pieces of text.  The terminal front end turns a style
//! into its own colours and draws the lines.
use vstd::prelude::*;

use crate::app::{App, ViewMode};
use crate::text::{owned, concat2, concat3, decimal, decimal_string};
use crate::update::UpdateStatus;
use crate::model::{
    EventSeverity, NetworkEvent, RouteDiagnostic, RouteDiagnosticSeverity, RouteEntry, RouteFamily, RouteInspectorSection,
    RouteView, route_views,
};
use crate::route_inspector::diagnostics::{
    DiagnosticView, default_routes, diagnostic_views, is_default_destination, is_default_route,
};
use crate::route_inspector::graph::{build_route_graph, graph_lines, path_nodes, render_route_graph_lines};
use crate::route_inspector::vpn::{is_vpn_interface_name, is_vpn_name};
use crate::text::{pad_right, pad_right_str, push_str};
use crate::view::{family_label, route_family_label};
use crate::view::{
    active_command, banner_summary, get_active_command, summarize_release_notes_for_banner,
    update_label, update_status_label,
};

verus! {

/// The colours the screen uses.
#[derive(Clone, Copy, Debug, PartialEq, Eq, Structural)]
pub enum Tint {
    Black,
    White,
    Yellow,
    LightYellow,
    Cyan,
    Green,
    Red,
    Blue,
    LightBlue,
    DarkGray,
    /// The bright green of the command prompt.
    Prompt,
    /// Mid grey.
    Gray,
    /// The pale green of command output.
    PaleGreen,
    /// The soft red of a failed command.
    Salmon,
    /// The amber of a search match.
    Amber,
    /// Light grey.
    Silver,
    /// The terminal's own grey.
    LightGray,
}

/// How a piece of text is drawn: its colour, its background, and whether it
/// is bold or blinks.
#[derive(Clone, Copy, Debug, PartialEq, Eq, Structural)]
pub struct TextStyle {
    pub fg: Option<Tint>,
    pub bg: Option<Tint>,
    pub bold: bool,
    pub blink: bool,
}

/// A piece of text and how it is drawn.
#[derive(Clone, Debug)]
pub struct TextSpan {
    pub text: String,
    pub style: TextStyle,
}

pub open spec fn span_views(v: Seq<TextSpan>) -> Seq<(Seq<char>, TextStyle)> {
    v.map_values(|s: TextSpan| (s.text@, s.style))
}

pub open spec fn line_views(v: Seq<Vec<TextSpan>>) -> Seq<Seq<(Seq<char>, TextStyle)>> {
    v.map_values(|l: Vec<TextSpan>| span_views(l@))
}

pub open spec fn plain() -> TextStyle {
    TextStyle { fg: None, bg: None, bold: false, blink: false }
}

pub open spec fn bold() -> TextStyle {
    TextStyle { fg: None, bg: None, bold: true, blink: false }
}

pub open spec fn tinted(t: Tint) -> TextStyle {
    TextStyle { fg: Some(t), bg: None, bold: false, blink: false }
}

pub open spec fn tinted_bold(t: Tint) -> TextStyle {
    TextStyle { fg: Some(t), bg: None, bold: true, blink: false }
}

/// Bold text of one colour on another.
pub open spec fn badge(fg: Tint, bg: Tint) -> TextStyle {
    TextStyle { fg: Some(fg), bg: Some(bg), bold: true, blink: false }
}

pub open spec fn background(t: Tint) -> TextStyle {
    TextStyle { fg: None, bg: Some(t), bold: false, blink: false }
}

fn style(fg: Option<Tint>, bg: Option<Tint>, bold: bool, blink: bool) -> (r: TextStyle)
    ensures
        r == (TextStyle { fg, bg, bold, blink }),
{
    TextStyle { fg, bg, bold, blink }
}

fn span(text: String, style: TextStyle) -> (r: TextSpan)
    ensures
        r.text@ == text@,
        r.style == style,
{
    TextSpan { text, style }
}

fn span_str(text: &str, style: TextStyle) -> (r: TextSpan)
    ensures
        r.text@ == text@,
        r.style == style,
{
    TextSpan { text: owned(text), style }
}

// ---------------------------------------------------------------------------
// The status bar
// ---------------------------------------------------------------------------
/// The key hints of the status bar for the current view and input mode.
pub open spec fn status_text(app: App) -> Seq<char> {
    match app.view_mode {
        ViewMode::Connections => " q | u check | U update | R notes | c copy | w whois | [/] | i/n/p/e/g "@,
        ViewMode::Ports => if app.port_filter_active {
            " filter: type | Enter apply | Esc clear | Backspace delete "@
        } else {
            " q | u check | U update | R notes | f filter | K kill | r | [/] | i/n/c/e/g "@
        },
        ViewMode::Timeline => " q | u check | U update | R notes | [/] | i/n/c/p/g | j/k "@,
        ViewMode::Routes => if app.route_inspector.route_filter_active {
            " filter routes: type | Enter apply | Esc clear | Backspace delete "@
        } else if app.route_inspector.destination_input_active {
            " destination: type | Enter lookup | Esc cancel | Backspace delete "@
        } else {
            " q | u check | U update | R notes | Enter path | Tab section | / filter | o raw | i/n/c/p/e "@
        },
        _ => " q | r | u check | U update | R notes | a:"@ + (if app.show_all {
            "on"@
        } else {
            "off"@
        }) + " | i/n/c/p/e/g "@,
    }
}

pub fn get_status_text(app: &App) -> (r: String)
    ensures
        r@ == status_text(*app),
{
    match app.view_mode {
        ViewMode::Connections => owned(
            " q | u check | U update | R notes | c copy | w whois | [/] | i/n/p/e/g ",
        ),
        ViewMode::Ports => {
            if app.port_filter_active {
                owned(" filter: type | Enter apply | Esc clear | Backspace delete ")
            } else {
                owned(" q | u check | U update | R notes | f filter | K kill | r | [/] | i/n/c/e/g ")
            }
        },
        ViewMode::Timeline => owned(" q | u check | U update | R notes | [/] | i/n/c/p/g | j/k "),
        ViewMode::Routes => {
            if app.route_inspector.route_filter_active {
                owned(" filter routes: type | Enter apply | Esc clear | Backspace delete ")
            } else if app.route_inspector.destination_input_active {
                owned(" destination: type | Enter lookup | Esc cancel | Backspace delete ")
            } else {
                owned(
                    " q | u check | U update | R notes | Enter path | Tab section | / filter | o raw | i/n/c/p/e ",
                )
            }
        },
        _ => concat3(
            " q | r | u check | U update | R notes | a:",
            if app.show_all {
                "on"
            } else {
                "off"
            },
            " | i/n/c/p/e/g ",
        ),
    }
}

// ---------------------------------------------------------------------------
// The view tabs
// ---------------------------------------------------------------------------
/// The views in the order of the tabs.
pub open spec fn tab_order() -> Seq<ViewMode> {
    seq![
        ViewMode::Interface,
        ViewMode::Network,
        ViewMode::Ports,
        ViewMode::Connections,
        ViewMode::Routes,
        ViewMode::Timeline,
    ]
}

pub open spec fn tab_label(m: ViewMode) -> Seq<char> {
    match m {
        ViewMode::Interface => "Interface(i)"@,
        ViewMode::Network => "Network(n)"@,
        ViewMode::Ports => "Port(p)"@,
        ViewMode::Connections => "Connection(c)"@,
        ViewMode::Routes => "Route(g)"@,
        ViewMode::Timeline => "Timeline(e)"@,
    }
}

/// The pieces of the first `n` tabs: separators between them, the current
/// view's tab in black on yellow.
pub open spec fn tab_spans(current: ViewMode, n: nat) -> Seq<(Seq<char>, TextStyle)>
    decreases n,
{
    if n == 0 {
        Seq::empty()
    } else {
        let k = (n - 1) as nat;
        let m = tab_order()[k as int];
        tab_spans(current, k) + (if k > 0 {
            seq![(" | "@, tinted(Tint::DarkGray))]
        } else {
            Seq::empty()
        }) + seq![
            (
                " "@ + tab_label(m) + " "@,
                if m == current {
                    TextStyle { fg: Some(Tint::Black), bg: Some(Tint::Yellow), bold: true, blink: false }
                } else {
                    tinted(Tint::White)
                },
            ),
        ]
    }
}

fn tab_label_str(m: ViewMode) -> (r: &'static str)
    ensures
        r@ == tab_label(m),
{
    match m {
        ViewMode::Interface => "Interface(i)",
        ViewMode::Network => "Network(n)",
        ViewMode::Ports => "Port(p)",
        ViewMode::Connections => "Connection(c)",
        ViewMode::Routes => "Route(g)",
        ViewMode::Timeline => "Timeline(e)",
    }
}

/// The tab line.
pub fn view_tabs(view_mode: ViewMode) -> (r: Vec<TextSpan>)
    ensures
        span_views(r@) == tab_spans(view_mode, 6),
{
    let tabs = [
        ViewMode::Interface,
        ViewMode::Network,
        ViewMode::Ports,
        ViewMode::Connections,
        ViewMode::Routes,
        ViewMode::Timeline,
    ];
    assert(tabs@ =~= tab_order());
    let mut spans: Vec<TextSpan> = Vec::new();
    for idx in 0..6
        invariant
            tabs@ == tab_order(),
            span_views(spans@) == tab_spans(view_mode, idx as nat),
    {
        let ghost before = span_views(spans@);
        let mode = tabs[idx];
        if idx > 0 {
            spans.push(span_str(" | ", style(Some(Tint::DarkGray), None, false, false)));
        }
        let ghost mid = span_views(spans@);
        let st = if mode == view_mode {
            style(Some(Tint::Black), Some(Tint::Yellow), true, false)
        } else {
            style(Some(Tint::White), None, false, false)
        };
        spans.push(span(concat3(" ", tab_label_str(mode), " "), st));
        proof {
            let sep: Seq<(Seq<char>, TextStyle)> = if idx > 0 {
                seq![(" | "@, tinted(Tint::DarkGray))]
            } else {
                Seq::empty()
            };
            assert(mid =~= before + sep);
            assert(span_views(spans@) =~= mid.push((" "@ + tab_label(mode) + " "@, st)));
        }
    }
    spans
}

// ---------------------------------------------------------------------------
// The command panel
// ---------------------------------------------------------------------------
/// How many lines the command panel takes: two when an update is ready and
/// its release notes are not blank.
pub open spec fn panel_height(app: App) -> u16 {
    if app.update_status is Available && (app.pending_update matches Some(u) && crate::text::trim(
        u.release_notes@,
    ).len() > 0) {
        2
    } else {
        1
    }
}

pub fn command_panel_height(app: &App) -> (r: u16)
    ensures
        r == panel_height(*app),
{
    let available = match &app.update_status {
        UpdateStatus::Available { .. } => true,
        _ => false,
    };
    let notes = match &app.pending_update {
        Some(u) => crate::text::trim_chars(&crate::text::chars_of(u.release_notes.as_str())).len() > 0,
        None => false,
    };
    if available && notes {
        2
    } else {
        1
    }
}

/// The command panel: a banner while an update is ready, installing,
/// installed or failed (with a line of release notes when one is ready);
/// otherwise the command behind the current view, the version or update
/// state, and the output and help keys.  `os` names the operating system and
/// `version` is the running version.
pub open spec fn command_panel(app: App, os: Seq<char>, version: Seq<char>) -> (
    Seq<Seq<(Seq<char>, TextStyle)>>,
    TextStyle,
) {
    match app.update_status {
        UpdateStatus::Available { version: v } => (
            seq![
                seq![
                    (" UPDATE READY "@, badge(Tint::Black, Tint::Yellow)),
                    (" "@, plain()),
                    ("v"@ + v@, tinted_bold(Tint::Yellow)),
                    (" "@, plain()),
                    ("PRESS U TO INSTALL"@, TextStyle { fg: Some(Tint::White), bg: None, bold: true, blink: true }),
                    ("   "@, plain()),
                    ("u re-check"@, tinted_bold(Tint::Cyan)),
                ],
            ] + match app.pending_update {
                Some(u) => seq![
                    seq![
                        (" Notes: "@, badge(Tint::Black, Tint::LightYellow)),
                        (banner_summary(u.release_notes@, 96), tinted(Tint::White)),
                    ],
                ],
                None => Seq::empty(),
            },
            background(Tint::DarkGray),
        ),
        UpdateStatus::Installing { version: v, .. } => (
            seq![
                seq![
                    (" INSTALLING UPDATE "@, badge(Tint::Black, Tint::LightBlue)),
                    (" "@, plain()),
                    ("v"@ + v@, tinted_bold(Tint::LightBlue)),
                    (" "@, plain()),
                    ("please wait"@, tinted_bold(Tint::White)),
                ],
            ],
            background(Tint::DarkGray),
        ),
        UpdateStatus::Updated { version: v } => (
            seq![
                seq![
                    (" UPDATE INSTALLED "@, badge(Tint::Black, Tint::Green)),
                    (" "@, plain()),
                    ("v"@ + v@, tinted_bold(Tint::Green)),
                    (" "@, plain()),
                    ("restart app"@, tinted_bold(Tint::White)),
                ],
            ],
            background(Tint::DarkGray),
        ),
        UpdateStatus::Error { .. } => (
            seq![
                seq![
                    (" UPDATE FAILED "@, badge(Tint::White, Tint::Red)),
                    (" "@, plain()),
                    ("press u to check again"@, tinted_bold(Tint::Red)),
                ],
            ],
            background(Tint::DarkGray),
        ),
        _ => (
            seq![
                seq![
                    ("$ "@, tinted_bold(Tint::Prompt)),
                    (active_command(app.view_mode, os), tinted_bold(Tint::White)),
                    ("   "@, plain()),
                    (update_label(app.update_status, version), tinted_bold(Tint::Green)),
                    ("   "@, plain()),
                    ("o[output]"@, tinted_bold(Tint::Cyan)),
                    (" "@, plain()),
                    ("?[help]"@, tinted_bold(Tint::Yellow)),
                ],
            ],
            plain(),
        ),
    }
}

pub fn build_command_panel(app: &App, os: &str, version: &str) -> (r: (Vec<Vec<TextSpan>>, TextStyle))
    ensures
        (line_views(r.0@), r.1) == command_panel(*app, os@, version@),
{
    let none = style(None, None, false, false);
    let dark = style(None, Some(Tint::DarkGray), false, false);
    let mut lines: Vec<Vec<TextSpan>> = Vec::new();
    match &app.update_status {
        UpdateStatus::Available { version: v } => {
            let mut first: Vec<TextSpan> = Vec::new();
            first.push(span_str(" UPDATE READY ", style(Some(Tint::Black), Some(Tint::Yellow), true, false)));
            first.push(span_str(" ", none));
            first.push(span(concat2("v", v.as_str()), style(Some(Tint::Yellow), None, true, false)));
            first.push(span_str(" ", none));
            first.push(span_str("PRESS U TO INSTALL", style(Some(Tint::White), None, true, true)));
            first.push(span_str("   ", none));
            first.push(span_str("u re-check", style(Some(Tint::Cyan), None, true, false)));
            lines.push(first);
            if let Some(update) = &app.pending_update {
                let notes = summarize_release_notes_for_banner(update.release_notes.as_str(), 96);
                let mut second: Vec<TextSpan> = Vec::new();
                second.push(span_str(" Notes: ", style(Some(Tint::Black), Some(Tint::LightYellow), true, false)));
                second.push(span(notes, style(Some(Tint::White), None, false, false)));
                lines.push(second);
            }
            assert(line_views(lines@) =~~= command_panel(*app, os@, version@).0);
            (lines, dark)
        },
        UpdateStatus::Installing { version: v, .. } => {
            let mut first: Vec<TextSpan> = Vec::new();
            first.push(span_str(" INSTALLING UPDATE ", style(Some(Tint::Black), Some(Tint::LightBlue), true, false)));
            first.push(span_str(" ", none));
            first.push(span(concat2("v", v.as_str()), style(Some(Tint::LightBlue), None, true, false)));
            first.push(span_str(" ", none));
            first.push(span_str("please wait", style(Some(Tint::White), None, true, false)));
            lines.push(first);
            assert(line_views(lines@) =~~= command_panel(*app, os@, version@).0);
            (lines, dark)
        },
        UpdateStatus::Updated { version: v } => {
            let mut first: Vec<TextSpan> = Vec::new();
            first.push(span_str(" UPDATE INSTALLED ", style(Some(Tint::Black), Some(Tint::Green), true, false)));
            first.push(span_str(" ", none));
            first.push(span(concat2("v", v.as_str()), style(Some(Tint::Green), None, true, false)));
            first.push(span_str(" ", none));
            first.push(span_str("restart app", style(Some(Tint::White), None, true, false)));
            lines.push(first);
            assert(line_views(lines@) =~~= command_panel(*app, os@, version@).0);
            (lines, dark)
        },
        UpdateStatus::Error { .. } => {
            let mut first: Vec<TextSpan> = Vec::new();
            first.push(span_str(" UPDATE FAILED ", style(Some(Tint::White), Some(Tint::Red), true, false)));
            first.push(span_str(" ", none));
            first.push(span_str("press u to check again", style(Some(Tint::Red), None, true, false)));
            lines.push(first);
            assert(line_views(lines@) =~~= command_panel(*app, os@, version@).0);
            (lines, dark)
        },
        _ => {
            let mut first: Vec<TextSpan> = Vec::new();
            first.push(span_str("$ ", style(Some(Tint::Prompt), None, true, false)));
            first.push(span_str(get_active_command(app.view_mode, os), style(Some(Tint::White), None, true, false)));
            first.push(span_str("   ", none));
            first.push(span(update_status_label(&app.update_status, version), style(Some(Tint::Green), None, true, false)));
            first.push(span_str("   ", none));
            first.push(span_str("o[output]", style(Some(Tint::Cyan), None, true, false)));
            first.push(span_str(" ", none));
            first.push(span_str("?[help]", style(Some(Tint::Yellow), None, true, false)));
            lines.push(first);
            assert(line_views(lines@) =~~= command_panel(*app, os@, version@).0);
            (lines, none)
        },
    }
}

// ---------------------------------------------------------------------------
// The route inspector's pages
// ---------------------------------------------------------------------------
pub type SpanView = (Seq<char>, TextStyle);

pub open spec fn heading(t: Seq<char>) -> Seq<SpanView> {
    seq![(t, tinted_bold(Tint::Cyan))]
}

pub open spec fn blank() -> Seq<SpanView> {
    seq![(""@, plain())]
}

pub open spec fn single(t: Seq<char>, s: TextStyle) -> Seq<SpanView> {
    seq![(t, s)]
}

/// The routes of the current snapshot; none without one.
pub open spec fn snapshot_routes(app: App) -> Seq<RouteView> {
    match app.current_snapshot {
        Some(s) => route_views(s.routes@),
        None => Seq::empty(),
    }
}

/// How many routes are of family `f`.
pub open spec fn family_count(routes: Seq<RouteView>, f: RouteFamily) -> nat
    decreases routes.len(),
{
    if routes.len() == 0 {
        0
    } else {
        family_count(routes.drop_last(), f) + if routes.last().family == f {
            1nat
        } else {
            0nat
        }
    }
}

/// The routes through a tunnel interface, in order.
pub open spec fn vpn_routes(routes: Seq<RouteView>) -> Seq<RouteView>
    decreases routes.len(),
{
    if routes.len() == 0 {
        Seq::empty()
    } else {
        let rest = vpn_routes(routes.drop_last());
        if is_vpn_name(routes.last().interface) {
            rest.push(routes.last())
        } else {
            rest
        }
    }
}

/// How many findings are warnings.
pub open spec fn warning_count(d: Seq<DiagnosticView>) -> nat
    decreases d.len(),
{
    if d.len() == 0 {
        0
    } else {
        warning_count(d.drop_last()) + if d.last().severity == RouteDiagnosticSeverity::Warning {
            1nat
        } else {
            0nat
        }
    }
}

/// The summary page: the default gateway and interface (from the first
/// default route), the number of IPv4 and IPv6 routes, whether a tunnel
/// carries routes and the first one that does, and the number of warnings.
pub open spec fn summary_page(app: App) -> Seq<Seq<SpanView>> {
    let routes = snapshot_routes(app);
    let defaults = default_routes(routes);
    let vpn = vpn_routes(routes);
    seq![heading("=== Route Summary ==="@), blank()] + (if defaults.len() > 0 {
        seq![
            seq![("Default Gateway: "@, bold()), (defaults[0].gateway, plain())],
            seq![("Default Interface: "@, bold()), (defaults[0].interface, tinted_bold(Tint::Green))],
        ]
    } else {
        seq![single("No default route"@, tinted_bold(Tint::Red))]
    }) + seq![
        blank(),
        seq![("IPv4 Routes: "@, bold()), (decimal(family_count(routes, RouteFamily::Ipv4)), plain())],
        seq![("IPv6 Routes: "@, bold()), (decimal(family_count(routes, RouteFamily::Ipv6)), plain())],
        seq![
            ("VPN: "@, bold()),
            if vpn.len() > 0 {
                ("Connected"@, tinted_bold(Tint::Yellow))
            } else {
                ("Disconnected"@, tinted(Tint::DarkGray))
            },
        ],
        seq![
            ("First VPN Interface: "@, bold()),
            (
                if vpn.len() > 0 {
                    vpn[0].interface
                } else {
                    "None"@
                },
                plain(),
            ),
        ],
        seq![
            ("Warnings: "@, bold()),
            (decimal(warning_count(diagnostic_views(app.route_inspector.diagnostics@))), plain()),
        ],
    ]
}

fn heading_line(t: &str) -> (r: Vec<TextSpan>)
    ensures
        span_views(r@) == heading(t@),
{
    let mut l: Vec<TextSpan> = Vec::new();
    l.push(span_str(t, style(Some(Tint::Cyan), None, true, false)));
    assert(span_views(l@) =~= heading(t@));
    l
}

fn blank_line() -> (r: Vec<TextSpan>)
    ensures
        span_views(r@) == blank(),
{
    let mut l: Vec<TextSpan> = Vec::new();
    l.push(span_str("", style(None, None, false, false)));
    assert(span_views(l@) =~= blank());
    l
}

fn single_line(t: String, s: TextStyle) -> (r: Vec<TextSpan>)
    ensures
        span_views(r@) == single(t@, s),
{
    let mut l: Vec<TextSpan> = Vec::new();
    l.push(span(t, s));
    assert(span_views(l@) =~= single(t@, s));
    l
}

fn pair_line(a: &str, sa: TextStyle, b: String, sb: TextStyle) -> (r: Vec<TextSpan>)
    ensures
        span_views(r@) == seq![(a@, sa), (b@, sb)],
{
    let mut l: Vec<TextSpan> = Vec::new();
    l.push(span_str(a, sa));
    l.push(span(b, sb));
    assert(span_views(l@) =~= seq![(a@, sa), (b@, sb)]);
    l
}

fn push_span(l: &mut Vec<TextSpan>, t: String, s: TextStyle)
    ensures
        span_views(final(l)@) == span_views(old(l)@).push((t@, s)),
{
    let ghost before = span_views(l@);
    l.push(TextSpan { text: t, style: s });
    assert(span_views(l@) =~= before.push((t@, s)));
}

fn push_line(lines: &mut Vec<Vec<TextSpan>>, l: Vec<TextSpan>)
    ensures
        line_views(final(lines)@) == line_views(old(lines)@).push(span_views(l@)),
{
    let ghost before = line_views(lines@);
    lines.push(l);
    assert(line_views(lines@) =~= before.push(span_views(l@)));
}

fn route_counts(routes: &Vec<RouteEntry>) -> (r: (usize, usize, Option<usize>))
    ensures
        r.0 == family_count(route_views(routes@), RouteFamily::Ipv4),
        r.1 == family_count(route_views(routes@), RouteFamily::Ipv6),
        match r.2 {
            Some(i) => i < routes@.len() && vpn_routes(route_views(routes@)).len() > 0 && vpn_routes(
                route_views(routes@),
            )[0] == routes@[i as int]@,
            None => vpn_routes(route_views(routes@)).len() == 0,
        },
{
    let ghost rv = route_views(routes@);
    let mut v4: usize = 0;
    let mut v6: usize = 0;
    let mut first: Option<usize> = None;
    for i in 0..routes.len()
        invariant
            rv == route_views(routes@),
            v4 == family_count(rv.take(i as int), RouteFamily::Ipv4),
            v6 == family_count(rv.take(i as int), RouteFamily::Ipv6),
            v4 <= i,
            v6 <= i,
            match first {
                Some(k) => k < i && vpn_routes(rv.take(i as int)).len() > 0 && vpn_routes(rv.take(i as int))[0]
                    == routes@[k as int]@,
                None => vpn_routes(rv.take(i as int)).len() == 0,
            },
    {
        assert(rv.take(i + 1).drop_last() =~= rv.take(i as int));
        assert(rv.take(i + 1).last() == routes@[i as int]@);
        let r = &routes[i];
        if r.family == RouteFamily::Ipv4 {
            v4 = v4 + 1;
        }
        if r.family == RouteFamily::Ipv6 {
            v6 = v6 + 1;
        }
        if first.is_none() && is_vpn_interface_name(r.interface.as_str()) {
            first = Some(i);
        }
        proof {
            lemma_vpn_routes_prefix(rv.take(i as int), rv[i as int]);
        }
    }
    assert(rv.take(routes.len() as int) =~= rv);
    (v4, v6, first)
}

proof fn lemma_vpn_routes_prefix(s: Seq<RouteView>, x: RouteView)
    ensures
        vpn_routes(s).len() > 0 ==> vpn_routes(s.push(x)).len() > 0 && vpn_routes(s.push(x))[0]
            == vpn_routes(s)[0],
        vpn_routes(s).len() == 0 && is_vpn_name(x.interface) ==> vpn_routes(s.push(x)).len() > 0
            && vpn_routes(s.push(x))[0] == x,
        vpn_routes(s).len() == 0 && !is_vpn_name(x.interface) ==> vpn_routes(s.push(x)).len() == 0,
{
    assert(s.push(x).drop_last() =~= s);
}

fn warnings_in(diags: &Vec<RouteDiagnostic>) -> (r: usize)
    ensures
        r == warning_count(diagnostic_views(diags@)),
{
    let ghost dv = diagnostic_views(diags@);
    let mut n: usize = 0;
    for i in 0..diags.len()
        invariant
            dv == diagnostic_views(diags@),
            n == warning_count(dv.take(i as int)),
            n <= i,
    {
        assert(dv.take(i + 1).drop_last() =~= dv.take(i as int));
        assert(dv.take(i + 1).last() == diags@[i as int]@);
        if diags[i].severity == RouteDiagnosticSeverity::Warning {
            n = n + 1;
        }
    }
    assert(dv.take(diags.len() as int) =~= dv);
    n
}

/// The summary page.
pub fn route_summary_lines(app: &App) -> (r: Vec<Vec<TextSpan>>)
    ensures
        line_views(r@) == summary_page(*app),
{
    let empty: Vec<RouteEntry> = Vec::new();
    let routes = match &app.current_snapshot {
        Some(s) => &s.routes,
        None => &empty,
    };
    assert(route_views(routes@) == snapshot_routes(*app)) by {
        if app.current_snapshot is None {
            assert(route_views(empty@) =~= Seq::<RouteView>::empty());
        }
    }
    let ghost rv = route_views(routes@);
    let none = style(None, None, false, false);
    let strong = style(None, None, true, false);
    let mut lines: Vec<Vec<TextSpan>> = Vec::new();
    push_line(&mut lines, heading_line("=== Route Summary ==="));
    push_line(&mut lines, blank_line());
    let mut default_at: Option<usize> = None;
    for i in 0..routes.len()
        invariant
            rv == route_views(routes@),
            match default_at {
                Some(k) => k < routes@.len() && default_routes(rv.take(i as int)).len() > 0 && default_routes(
                    rv.take(i as int),
                )[0] == routes@[k as int]@,
                None => default_routes(rv.take(i as int)).len() == 0,
            },
    {
        assert(rv.take(i + 1).drop_last() =~= rv.take(i as int));
        assert(rv.take(i + 1).last() == routes@[i as int]@);
        if default_at.is_none() && is_default_route(&routes[i]) {
            default_at = Some(i);
        }
    }
    assert(rv.take(routes.len() as int) =~= rv);
    match default_at {
        Some(k) => {
            push_line(&mut lines, pair_line("Default Gateway: ", strong, routes[k].gateway.clone(), none));
            push_line(
                &mut lines,
                pair_line(
                    "Default Interface: ",
                    strong,
                    routes[k].interface.clone(),
                    style(Some(Tint::Green), None, true, false),
                ),
            );
        },
        None => {
            push_line(&mut lines, single_line(owned("No default route"), style(Some(Tint::Red), None, true, false)));
        },
    }
    let (v4, v6, first_vpn) = route_counts(routes);
    let warnings = warnings_in(&app.route_inspector.diagnostics);
    push_line(&mut lines, blank_line());
    push_line(&mut lines, pair_line("IPv4 Routes: ", strong, decimal_string(v4 as u64), none));
    push_line(&mut lines, pair_line("IPv6 Routes: ", strong, decimal_string(v6 as u64), none));
    match first_vpn {
        Some(k) => {
            push_line(&mut lines, pair_line("VPN: ", strong, owned("Connected"), style(Some(Tint::Yellow), None, true, false)));
            push_line(&mut lines, pair_line("First VPN Interface: ", strong, routes[k].interface.clone(), none));
        },
        None => {
            push_line(&mut lines, pair_line("VPN: ", strong, owned("Disconnected"), style(Some(Tint::DarkGray), None, false, false)));
            push_line(&mut lines, pair_line("First VPN Interface: ", strong, owned("None"), none));
        },
    }
    push_line(&mut lines, pair_line("Warnings: ", strong, decimal_string(warnings as u64), none));
    assert(line_views(lines@) =~~= summary_page(*app));
    lines
}

/// The path page: the destination being typed (with a cursor while it is
/// edited), then the drawn path of the last lookup, its error, or a hint.
pub open spec fn path_page(app: App) -> Seq<Seq<SpanView>> {
    let ri = app.route_inspector;
    seq![
        heading("=== Path Viewer ==="@),
        blank(),
        seq![("Destination: "@, bold()), (ri.destination_input@, plain())] + if ri.destination_input_active {
            seq![("\u{2588}"@, tinted(Tint::Yellow))]
        } else {
            Seq::empty()
        },
        blank(),
    ] + match ri.latest_path_result {
        Some(r) => graph_lines(path_nodes(r@)).map_values(|l: Seq<char>| single(l, plain())),
        None => match ri.latest_path_error {
            Some(e) => seq![single(e@, tinted(Tint::Red))],
            None => seq![single("Enter a destination and press Enter to inspect the route."@, plain())],
        },
    }
}

pub fn route_path_lines(app: &App) -> (r: Vec<Vec<TextSpan>>)
    ensures
        line_views(r@) == path_page(*app),
{
    let none = style(None, None, false, false);
    let ri = &app.route_inspector;
    let mut lines: Vec<Vec<TextSpan>> = Vec::new();
    push_line(&mut lines, heading_line("=== Path Viewer ==="));
    push_line(&mut lines, blank_line());
    let mut dest = pair_line("Destination: ", style(None, None, true, false), ri.destination_input.clone(), none);
    if ri.destination_input_active {
        let ghost d0 = span_views(dest@);
        dest.push(span_str("\u{2588}", style(Some(Tint::Yellow), None, false, false)));
        assert(span_views(dest@) =~= d0 + seq![("\u{2588}"@, tinted(Tint::Yellow))]);
    } else {
        assert(span_views(dest@) =~= span_views(dest@) + Seq::<SpanView>::empty());
    }
    push_line(&mut lines, dest);
    push_line(&mut lines, blank_line());
    let ghost head = line_views(lines@);
    match &ri.latest_path_result {
        Some(result) => {
            let graph = build_route_graph(result);
            let text = render_route_graph_lines(&graph);
            let ghost gl = graph_lines(path_nodes(result@));
            let ghost rows = gl.map_values(|l: Seq<char>| single(l, plain()));
            assert(text@.map_values(|s: String| s@) == gl);
            assert(line_views(lines@) =~= head + rows.take(0));
            for k in 0..text.len()
                invariant
                    none == plain(),
                    text@.map_values(|s: String| s@) == gl,
                    rows == gl.map_values(|l: Seq<char>| single(l, plain())),
                    line_views(lines@) == head + rows.take(k as int),
            {
                assert(gl[k as int] == text@[k as int]@);
                let ghost before = line_views(lines@);
                let c = text[k].clone();
                assert(c@ == gl[k as int]);
                assert(none == plain());
                let l = single_line(c, none);
                assert(span_views(l@) == single(gl[k as int], plain()));
                push_line(&mut lines, l);
                assert(rows[k as int] == single(gl[k as int], plain()));
                assert(line_views(lines@) == before.push(rows[k as int]));
                assert(rows.take(k + 1) =~= rows.take(k as int).push(rows[k as int]));
                assert(line_views(lines@) =~= head + rows.take(k + 1));
            }
            assert(rows.take(text.len() as int) =~= rows);
            assert(gl.take(text.len() as int) =~= gl);
        },
        None => match &ri.latest_path_error {
            Some(e) => push_line(&mut lines, single_line(e.clone(), style(Some(Tint::Red), None, false, false))),
            None => push_line(
                &mut lines,
                single_line(owned("Enter a destination and press Enter to inspect the route."), none),
            ),
        },
    }
    assert(line_views(lines@) =~~= path_page(*app));
    lines
}

/// The text of a route table row: the destination, gateway, interface,
/// metric, protocol and flags in columns (`-` for what is missing), then the
/// family.
pub open spec fn table_row_text(r: RouteView) -> Seq<char> {
    pad_right(r.destination, 18) + " "@ + pad_right(r.gateway, 16) + " "@ + pad_right(r.interface, 10)
        + " "@ + pad_right(
        match r.metric {
            Some(m) => decimal(m as nat),
            None => "-"@,
        },
        7,
    ) + " "@ + pad_right(
        match r.protocol {
            Some(p) => p,
            None => "-"@,
        },
        7,
    ) + " "@ + pad_right(
        match r.flags {
            Some(f) => f,
            None => "-"@,
        },
        7,
    ) + " "@ + family_label(r.family)
}

/// Default routes stand out in green, tunnel routes in yellow.
pub open spec fn table_row_style(r: RouteView) -> TextStyle {
    if is_default_destination(r.destination) {
        tinted_bold(Tint::Green)
    } else if is_vpn_name(r.interface) {
        tinted(Tint::Yellow)
    } else {
        plain()
    }
}

pub open spec fn table_head() -> Seq<Seq<SpanView>> {
    seq![
        heading("=== Route Table ==="@),
        blank(),
        single("Destination         Gateway          Interface  Metric  Proto   Flags   Family"@, bold()),
    ]
}

/// The route table page: the rows of the filtered and sorted route table.
pub open spec fn table_page(app: App, page: Seq<Seq<SpanView>>) -> bool {
    match app.current_snapshot {
        None => page == table_head() + seq![single("No route snapshot available."@, plain())],
        Some(s) => if s.routes@.len() == 0 {
            page == table_head() + seq![single("No routes detected."@, plain())]
        } else {
            let rv = route_views(s.routes@);
            exists|idx: Seq<usize>|
                crate::app::is_route_table(
                    idx,
                    rv,
                    app.route_inspector.sort_column,
                    crate::text::to_lowercase_spec(app.route_inspector.route_filter@),
                ) && page == table_head() + Seq::new(
                    idx.len(),
                    |a: int| single(table_row_text(rv[idx[a] as int]), table_row_style(rv[idx[a] as int])),
                )
        },
    }
}

fn opt_or_dash(o: &Option<String>) -> (r: String)
    ensures
        r@ == match *o {
            Some(s) => s@,
            None => "-"@,
        },
{
    match o {
        Some(s) => s.clone(),
        None => owned("-"),
    }
}

fn table_row(r: &RouteEntry) -> (t: TextSpan)
    ensures
        (t.text@, t.style) == (table_row_text(r@), table_row_style(r@)),
{
    let mut text = pad_right_str(r.destination.as_str(), 18);
    push_str(&mut text, " ");
    push_str(&mut text, pad_right_str(r.gateway.as_str(), 16).as_str());
    push_str(&mut text, " ");
    push_str(&mut text, pad_right_str(r.interface.as_str(), 10).as_str());
    push_str(&mut text, " ");
    let metric = match r.metric {
        Some(m) => decimal_string(m as u64),
        None => owned("-"),
    };
    push_str(&mut text, pad_right_str(metric.as_str(), 7).as_str());
    push_str(&mut text, " ");
    push_str(&mut text, pad_right_str(opt_or_dash(&r.protocol).as_str(), 7).as_str());
    push_str(&mut text, " ");
    push_str(&mut text, pad_right_str(opt_or_dash(&r.flags).as_str(), 7).as_str());
    push_str(&mut text, " ");
    push_str(&mut text, route_family_label(r.family));
    let st = if is_default_route(r) {
        style(Some(Tint::Green), None, true, false)
    } else if is_vpn_interface_name(r.interface.as_str()) {
        style(Some(Tint::Yellow), None, false, false)
    } else {
        style(None, None, false, false)
    };
    span(text, st)
}

fn table_head_lines() -> (r: Vec<Vec<TextSpan>>)
    ensures
        line_views(r@) == table_head(),
{
    let mut lines: Vec<Vec<TextSpan>> = Vec::new();
    push_line(&mut lines, heading_line("=== Route Table ==="));
    push_line(&mut lines, blank_line());
    push_line(
        &mut lines,
        single_line(
            owned("Destination         Gateway          Interface  Metric  Proto   Flags   Family"),
            style(None, None, true, false),
        ),
    );
    assert(line_views(lines@) =~~= table_head());
    lines
}

/// The route table page.
pub fn route_table_detail_lines(app: &App) -> (r: Vec<Vec<TextSpan>>)
    ensures
        table_page(*app, line_views(r@)),
{
    let none = style(None, None, false, false);
    let mut lines = table_head_lines();
    match &app.current_snapshot {
        None => {
            push_line(&mut lines, single_line(owned("No route snapshot available."), none));
            assert(line_views(lines@) =~~= table_head() + seq![single("No route snapshot available."@, plain())]);
            lines
        },
        Some(snapshot) => {
            if snapshot.routes.len() == 0 {
                push_line(&mut lines, single_line(owned("No routes detected."), none));
                assert(line_views(lines@) =~~= table_head() + seq![single("No routes detected."@, plain())]);
                return lines;
            }
            let ghost rv = route_views(snapshot.routes@);
            let query = crate::text::lowercase(&crate::text::chars_of(app.route_inspector.route_filter.as_str()));
            let idx = crate::app::route_table_indices(
                snapshot.routes.as_slice(),
                app.route_inspector.sort_column,
                &query,
            );
            let ghost rows = Seq::new(
                idx@.len(),
                |a: int| single(table_row_text(rv[idx@[a] as int]), table_row_style(rv[idx@[a] as int])),
            );
            assert(line_views(lines@) =~= table_head() + rows.take(0));
            for a in 0..idx.len()
                invariant
                    rv == route_views(snapshot.routes@),
                    forall|b: int| 0 <= b < idx@.len() ==> (#[trigger] idx@[b]) < snapshot.routes@.len(),
                    rows == Seq::new(
                        idx@.len(),
                        |a: int| single(table_row_text(rv[idx@[a] as int]), table_row_style(rv[idx@[a] as int])),
                    ),
                    line_views(lines@) == table_head() + rows.take(a as int),
            {
                let i = idx[a];
                assert(rv[i as int] == snapshot.routes@[i as int]@);
                let t = table_row(&snapshot.routes[i]);
                let mut l: Vec<TextSpan> = Vec::new();
                l.push(t);
                assert(span_views(l@) =~= rows[a as int]);
                push_line(&mut lines, l);
                assert(rows.take(a + 1) =~= rows.take(a as int).push(rows[a as int]));
                assert(line_views(lines@) =~= table_head() + rows.take(a + 1));
            }
            assert(rows.take(idx.len() as int) =~= rows);
            lines
        },
    }
}

/// A route through a tunnel as a line of the tunnel page.
pub open spec fn vpn_route_line(r: RouteView) -> Seq<SpanView> {
    seq![
        ("Destination: "@, bold()),
        (r.destination, plain()),
        ("  "@, plain()),
        ("Interface: "@, bold()),
        (r.interface, tinted(Tint::Yellow)),
        ("  "@, plain()),
        ("Gateway: "@, bold()),
        (r.gateway, plain()),
    ]
}

/// The tunnel page: each route through a tunnel interface.
pub open spec fn vpn_page(app: App) -> Seq<Seq<SpanView>> {
    let vpn = vpn_routes(snapshot_routes(app));
    seq![heading("=== VPN Routes ==="@), blank()] + if vpn.len() == 0 {
        seq![single("No VPN routes detected."@, plain())]
    } else {
        vpn.map_values(|r: RouteView| vpn_route_line(r))
    }
}

pub fn vpn_route_lines(app: &App) -> (r: Vec<Vec<TextSpan>>)
    ensures
        line_views(r@) == vpn_page(*app),
{
    let none = style(None, None, false, false);
    let strong = style(None, None, true, false);
    let empty: Vec<RouteEntry> = Vec::new();
    let routes = match &app.current_snapshot {
        Some(s) => &s.routes,
        None => &empty,
    };
    assert(route_views(routes@) == snapshot_routes(*app)) by {
        if app.current_snapshot is None {
            assert(route_views(empty@) =~= Seq::<RouteView>::empty());
        }
    }
    let ghost rv = route_views(routes@);
    let mut lines: Vec<Vec<TextSpan>> = Vec::new();
    push_line(&mut lines, heading_line("=== VPN Routes ==="));
    push_line(&mut lines, blank_line());
    let ghost head = line_views(lines@);
    assert(head + vpn_routes(rv.take(0)).map_values(|r: RouteView| vpn_route_line(r)) =~= head);
    for i in 0..routes.len()
        invariant
            none == plain(),
            strong == bold(),
            rv == route_views(routes@),
            line_views(lines@) == head + vpn_routes(rv.take(i as int)).map_values(|r: RouteView| vpn_route_line(r)),
    {
        assert(rv.take(i + 1).drop_last() =~= rv.take(i as int));
        assert(rv.take(i + 1).last() == routes@[i as int]@);
        let r = &routes[i];
        if is_vpn_interface_name(r.interface.as_str()) {
            let mut l: Vec<TextSpan> = Vec::new();
            push_span(&mut l, owned("Destination: "), strong);
            push_span(&mut l, r.destination.clone(), none);
            push_span(&mut l, owned("  "), none);
            push_span(&mut l, owned("Interface: "), strong);
            push_span(&mut l, r.interface.clone(), style(Some(Tint::Yellow), None, false, false));
            push_span(&mut l, owned("  "), none);
            push_span(&mut l, owned("Gateway: "), strong);
            push_span(&mut l, r.gateway.clone(), none);
            assert(span_views(l@) =~= seq![
                ("Destination: "@, bold()),
                (r.destination@, plain()),
                ("  "@, plain()),
                ("Interface: "@, bold()),
                (r.interface@, tinted(Tint::Yellow)),
                ("  "@, plain()),
                ("Gateway: "@, bold()),
                (r.gateway@, plain()),
            ]);
            assert(span_views(l@) =~= vpn_route_line(r@));
            push_line(&mut lines, l);
            assert(line_views(lines@) =~= head + vpn_routes(rv.take(i + 1)).map_values(|r: RouteView| vpn_route_line(r)));
        } else {
            assert(vpn_routes(rv.take(i + 1)) == vpn_routes(rv.take(i as int)));
        }
    }
    assert(rv.take(routes.len() as int) =~= rv);
    if lines.len() == 2 {
        push_line(&mut lines, single_line(owned("No VPN routes detected."), none));
        assert(line_views(lines@) =~~= vpn_page(*app));
    } else {
        assert(line_views(lines@) =~~= vpn_page(*app));
    }
    lines
}

/// The colour of a finding's severity.
pub open spec fn severity_tint(s: RouteDiagnosticSeverity) -> Tint {
    match s {
        RouteDiagnosticSeverity::Info => Tint::Blue,
        RouteDiagnosticSeverity::Warning => Tint::Yellow,
        RouteDiagnosticSeverity::Error => Tint::Red,
    }
}

/// The lines of one finding, all in the colour of its severity: its title,
/// description, affected route if any, and recommendation.
pub open spec fn finding_lines(d: DiagnosticView) -> Seq<Seq<SpanView>> {
    let c = severity_tint(d.severity);
    seq![
        single(d.title, tinted_bold(c)),
        seq![("Description: "@, tinted_bold(c)), (d.description, tinted(c))],
    ] + match d.affected_route {
        Some(r) => seq![
            seq![
                ("Affected Route: "@, tinted_bold(c)),
                (
                    r.destination + " via "@ + r.gateway + " dev "@ + r.interface + " ("@ + family_label(r.family)
                        + ")"@,
                    tinted(c),
                ),
            ],
        ],
        None => Seq::empty(),
    } + seq![seq![("Recommendation: "@, tinted_bold(c)), (d.recommendation, tinted(c))]]
}

/// The findings of the first `n` diagnostics, a blank line between two.
pub open spec fn findings_lines(ds: Seq<DiagnosticView>, n: nat) -> Seq<Seq<SpanView>>
    decreases n,
{
    if n == 0 {
        Seq::empty()
    } else {
        let k = (n - 1) as nat;
        findings_lines(ds, k) + (if k > 0 {
            seq![blank()]
        } else {
            Seq::empty()
        }) + finding_lines(ds[k as int])
    }
}

/// The diagnostics page.
pub open spec fn diagnostics_page(app: App) -> Seq<Seq<SpanView>> {
    let ds = diagnostic_views(app.route_inspector.diagnostics@);
    seq![heading("=== Diagnostics ==="@), blank()] + if ds.len() == 0 {
        seq![single("No routing warnings detected."@, tinted(Tint::Green))]
    } else {
        findings_lines(ds, ds.len())
    }
}

fn severity_style(s: RouteDiagnosticSeverity, strong: bool) -> (r: TextStyle)
    ensures
        r == (if strong {
            tinted_bold(severity_tint(s))
        } else {
            tinted(severity_tint(s))
        }),
{
    let t = match s {
        RouteDiagnosticSeverity::Info => Tint::Blue,
        RouteDiagnosticSeverity::Warning => Tint::Yellow,
        RouteDiagnosticSeverity::Error => Tint::Red,
    };
    style(Some(t), None, strong, false)
}

fn push_finding(lines: &mut Vec<Vec<TextSpan>>, d: &RouteDiagnostic)
    ensures
        line_views(final(lines)@) == line_views(old(lines)@) + finding_lines(d@),
{
    let ghost start = line_views(lines@);
    let strong = severity_style(d.severity, true);
    let soft = severity_style(d.severity, false);
    push_line(lines, single_line(d.title.clone(), strong));
    push_line(lines, pair_line("Description: ", strong, d.description.clone(), soft));
    match &d.affected_route {
        Some(r) => {
            let mut text = concat3(r.destination.as_str(), " via ", r.gateway.as_str());
            push_str(&mut text, " dev ");
            push_str(&mut text, r.interface.as_str());
            push_str(&mut text, " (");
            push_str(&mut text, route_family_label(r.family));
            push_str(&mut text, ")");
            push_line(lines, pair_line("Affected Route: ", strong, text, soft));
        },
        None => {},
    }
    push_line(lines, pair_line("Recommendation: ", strong, d.recommendation.clone(), soft));
    assert(line_views(lines@) =~~= start + finding_lines(d@));
}

pub fn route_diagnostic_lines(app: &App) -> (r: Vec<Vec<TextSpan>>)
    ensures
        line_views(r@) == diagnostics_page(*app),
{
    let diags = &app.route_inspector.diagnostics;
    let ghost ds = diagnostic_views(diags@);
    let mut lines: Vec<Vec<TextSpan>> = Vec::new();
    push_line(&mut lines, heading_line("=== Diagnostics ==="));
    push_line(&mut lines, blank_line());
    if diags.len() == 0 {
        push_line(
            &mut lines,
            single_line(owned("No routing warnings detected."), style(Some(Tint::Green), None, false, false)),
        );
        assert(line_views(lines@) =~~= diagnostics_page(*app));
        return lines;
    }
    let ghost head = line_views(lines@);
    assert(head + findings_lines(ds, 0) =~= head);
    for i in 0..diags.len()
        invariant
            ds == diagnostic_views(diags@),
            line_views(lines@) == head + findings_lines(ds, i as nat),
    {
        if i > 0 {
            push_line(&mut lines, blank_line());
        }
        push_finding(&mut lines, &diags[i]);
        assert(ds[i as int] == diags@[i as int]@);
        assert(line_views(lines@) =~= head + findings_lines(ds, (i + 1) as nat));
    }
    assert(line_views(lines@) =~~= diagnostics_page(*app));
    lines
}

/// The lines of the route inspector's current section.
pub fn route_inspector_lines(app: &App) -> (r: Vec<Vec<TextSpan>>)
    ensures
        match app.route_inspector.active_section {
            RouteInspectorSection::Summary => line_views(r@) == summary_page(*app),
            RouteInspectorSection::PathViewer => line_views(r@) == path_page(*app),
            RouteInspectorSection::RouteTable => table_page(*app, line_views(r@)),
            RouteInspectorSection::VpnRoutes => line_views(r@) == vpn_page(*app),
            RouteInspectorSection::Diagnostics => line_views(r@) == diagnostics_page(*app),
        },
{
    match app.route_inspector.active_section {
        RouteInspectorSection::Summary => route_summary_lines(app),
        RouteInspectorSection::PathViewer => route_path_lines(app),
        RouteInspectorSection::RouteTable => route_table_detail_lines(app),
        RouteInspectorSection::VpnRoutes => vpn_route_lines(app),
        RouteInspectorSection::Diagnostics => route_diagnostic_lines(app),
    }
}

// ---------------------------------------------------------------------------
// Recent events
// ---------------------------------------------------------------------------
/// The colour of an event in the recent-events list: warnings yellow,
/// errors red, the rest plain.
pub open spec fn event_style(severity: EventSeverity) -> TextStyle {
    match severity {
        EventSeverity::Warning => tinted(Tint::Yellow),
        EventSeverity::Error => tinted(Tint::Red),
        EventSeverity::Info => plain(),
    }
}

/// How many events the list shows: the newest ten at most.
pub open spec fn shown_events(n: nat) -> nat {
    if n < 10 {
        n
    } else {
        10
    }
}

/// The recent-events list: the newest events first, ten at most, each as
/// `[<time>] <message>`, where `clocks[k]` is the time of event `k` as the
/// terminal shows it.
pub open spec fn recent_event_rows(events: Seq<NetworkEvent>, clocks: Seq<Seq<char>>) -> Seq<
    (Seq<char>, TextStyle),
> {
    let n = events.len();
    Seq::new(
        shown_events(n),
        |k: int|
            (
                "["@ + clocks[n - 1 - k] + "] "@ + events[n - 1 - k].message@,
                event_style(events[n - 1 - k].severity),
            ),
    )
}

fn event_style_exec(severity: EventSeverity) -> (r: TextStyle)
    ensures
        r == event_style(severity),
{
    match severity {
        EventSeverity::Warning => style(Some(Tint::Yellow), None, false, false),
        EventSeverity::Error => style(Some(Tint::Red), None, false, false),
        EventSeverity::Info => style(None, None, false, false),
    }
}

/// The lines of the recent-events list; `clocks` holds the time of each
/// event of `app.recent_events`, in the same order.
pub fn recent_event_lines(app: &App, clocks: &[String]) -> (r: Vec<TextSpan>)
    requires
        clocks@.len() == app.recent_events@.len(),
    ensures
        span_views(r@) == recent_event_rows(app.recent_events@, crate::text::string_views(clocks@)),
{
    let n = app.recent_events.len();
    let shown: usize = if n < 10 {
        n
    } else {
        10
    };
    let ghost target = recent_event_rows(app.recent_events@, crate::text::string_views(clocks@));
    let mut out: Vec<TextSpan> = Vec::new();
    for k in 0..shown
        invariant
            n == app.recent_events@.len(),
            clocks@.len() == n,
            shown == shown_events(n as nat),
            target == recent_event_rows(app.recent_events@, crate::text::string_views(clocks@)),
            out@.len() == k,
            forall|j: int| 0 <= j < k ==> (#[trigger] out@[j]).text@ == target[j].0 && out@[j].style
                == target[j].1,
    {
        let idx = n - 1 - k;
        let event = &app.recent_events[idx];
        let mut text = concat3("[", clocks[idx].as_str(), "] ");
        push_str(&mut text, event.message.as_str());
        assert(crate::text::string_views(clocks@)[idx as int] == clocks@[idx as int]@);
        out.push(span(text, event_style_exec(event.severity)));
    }
    assert(span_views(out@) =~= target);
    out
}

// ---------------------------------------------------------------------------
// The details pane
// ---------------------------------------------------------------------------
/// What the details pane shows: the route inspector in the routes view,
/// otherwise the selected row, or a hint while nothing is selected.
#[derive(Clone, Copy, Debug, PartialEq, Eq, Structural)]
pub enum DetailsPane {
    RouteInspector,
    Placeholder,
    Selected(usize),
}

pub fn details_pane(app: &App) -> (r: DetailsPane)
    ensures
        app.view_mode == ViewMode::Routes ==> r == DetailsPane::RouteInspector,
        app.view_mode != ViewMode::Routes && app.selected_index >= app.navigation_items@.len() ==> r
            == DetailsPane::Placeholder,
        app.view_mode != ViewMode::Routes && app.selected_index < app.navigation_items@.len() ==> r
            == DetailsPane::Selected(app.selected_index),
{
    if app.view_mode == ViewMode::Routes {
        DetailsPane::RouteInspector
    } else if app.selected_index < app.navigation_items.len() {
        DetailsPane::Selected(app.selected_index)
    } else {
        DetailsPane::Placeholder
    }
}

/// The hint the details pane shows before anything was collected.
pub fn details_placeholder_lines() -> (r: Vec<Vec<TextSpan>>)
    ensures
        line_views(r@) == seq![seq![("No data collected yet. Press 'r' to refresh."@, plain())]],
{
    let line = vec![span(owned("No data collected yet. Press 'r' to refresh."), style(None, None, false, false))];
    let r = vec![line];
    assert(span_views(r@[0]@) =~= seq![("No data collected yet. Press 'r' to refresh."@, plain())]);
    assert(line_views(r@) =~= seq![seq![("No data collected yet. Press 'r' to refresh."@, plain())]]);
    r
}

} // verus!
