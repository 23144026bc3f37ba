//! What each key does: the change to the application state, and the work
//! left for the front end (quitting, refreshing, running a command, copying
//! to the clipboard).  The pop-ups and input fields take the keys first, in
//! this order: the raw output viewer (its search field first), the release
//! notes, the destination field, the route filter, the ports filter; then
//! the keys of the main screen apply.
use vstd::prelude::*;

use crate::app::{
    App, NavigationItem, RawViewerState, ReleaseNotesViewerState, RouteInspectorState, ViewMode,
    check_start_effect, details_scrolled, install_start_effect, routes_sources, section_moved,
    selected_next, selected_previous, view_mode_effect,
};
use crate::model::{CommandSourceId, EventSeverity, NetworkEvent, NetworkEventKind, RouteInspectorSection};
use crate::text::{chars_of, concat2, owned, push_str, str_eq, string_of};
use crate::update::AvailableUpdate;

verus! {

/// A key press.
#[derive(Clone, Copy, Debug, PartialEq, Eq, Structural)]
pub enum Key {
    Char(char),
    Esc,
    Enter,
    Backspace,
    Tab,
    BackTab,
    Up,
    Down,
    PageUp,
    PageDown,
    Home,
    End,
    Other,
}

/// The work a key leaves to the front end.
#[derive(Debug)]
pub enum KeyAction {
    Nothing,
    Quit,
    /// Collect a new snapshot now.
    Refresh,
    /// Fetch this release URL and hand the outcome back.
    StartCheck(String),
    /// Install this update and hand the outcome back.
    StartInstall(AvailableUpdate),
    /// Look up the route to this destination and record it.
    LookupRoute(String),
    /// Kill this process (id, command, port) and record the outcome.
    Kill { pid: String, command: String, port: String },
    /// Copy this text to the clipboard.
    Copy(String),
    /// Copy this address to the clipboard and record the outcome.
    CopyAddress(String),
    /// Look this address up with WHOIS.
    Whois(String),
}

/// A string without its last character.
pub open spec fn without_last(s: Seq<char>) -> Seq<char> {
    if s.len() > 0 {
        s.drop_last()
    } else {
        s
    }
}

fn pop_char(s: &String) -> (r: String)
    ensures
        r@ == without_last(s@),
{
    let mut v = chars_of(s.as_str());
    if v.len() > 0 {
        v.pop();
    }
    string_of(&v)
}

fn push_char(s: &String, c: char) -> (r: String)
    ensures
        r@ == s@.push(c),
{
    let mut v = chars_of(s.as_str());
    v.push(c);
    string_of(&v)
}

pub open spec fn sat_add(a: u16, b: u16) -> u16 {
    if a + b > u16::MAX {
        u16::MAX
    } else {
        (a + b) as u16
    }
}

pub open spec fn sat_sub(a: u16, b: u16) -> u16 {
    if a < b {
        0
    } else {
        (a - b) as u16
    }
}

/// The line a search match scrolls the raw viewer to.
pub open spec fn scroll_to(line_index: usize) -> u16 {
    line_index as u16
}

fn line_scroll(line_index: usize) -> (r: u16)
    ensures
        r == scroll_to(line_index),
{
    line_index as u16
}

/// The scrolling keys of a pop-up: one line, a page of `page` lines, the
/// top and the bottom.
pub open spec fn scrolled(scroll: u16, key: Key, page: u16) -> Option<u16> {
    match key {
        Key::Char('j') | Key::Down => Some(sat_add(scroll, 1)),
        Key::Char('k') | Key::Up => Some(sat_sub(scroll, 1)),
        Key::PageDown => Some(sat_add(scroll, page)),
        Key::PageUp => Some(sat_sub(scroll, page)),
        Key::Home => Some(0),
        Key::End => Some(u16::MAX),
        _ => None,
    }
}

fn scroll_key(scroll: u16, key: Key, page: u16) -> (r: Option<u16>)
    ensures
        r == scrolled(scroll, key, page),
{
    match key {
        Key::Char('j') | Key::Down => Some(scroll.saturating_add(1)),
        Key::Char('k') | Key::Up => Some(scroll.saturating_sub(1)),
        Key::PageDown => Some(scroll.saturating_add(page)),
        Key::PageUp => Some(scroll.saturating_sub(page)),
        Key::Home => Some(0),
        Key::End => Some(u16::MAX),
        _ => None,
    }
}

// ---------------------------------------------------------------------------
// The release notes pop-up
// ---------------------------------------------------------------------------
/// The release notes close on Esc, `q` or `R` and scroll by twelve lines a
/// page.
pub open spec fn notes_key_effect(old: App, key: Key, new: App) -> bool {
    let closing = key == Key::Esc || key == Key::Char('q') || key == Key::Char('R');
    if closing {
        new == (App {
            release_notes_viewer: ReleaseNotesViewerState { active: false, ..old.release_notes_viewer },
            ..old
        })
    } else {
        match scrolled(old.release_notes_viewer.scroll, key, 12) {
            Some(s) => new == (App {
                release_notes_viewer: ReleaseNotesViewerState { scroll: s, ..old.release_notes_viewer },
                ..old
            }),
            None => new == old,
        }
    }
}

impl App {
    fn notes_key(&mut self, key: Key)
        ensures
            notes_key_effect(*old(self), key, *final(self)),
    {
        if key == Key::Esc || key == Key::Char('q') || key == Key::Char('R') {
            self.release_notes_viewer.active = false;
            return;
        }
        if let Some(s) = scroll_key(self.release_notes_viewer.scroll, key, 12) {
            self.release_notes_viewer.scroll = s;
        }
    }
}

// ---------------------------------------------------------------------------
// Input fields
// ---------------------------------------------------------------------------
/// The destination field: Esc leaves it, Enter leaves it and looks the
/// destination up, Backspace and characters edit it.
pub open spec fn destination_key_effect(old: App, key: Key, new: App, action: KeyAction) -> bool {
    let ri = old.route_inspector;
    match key {
        Key::Esc => action is Nothing && new == (App {
            route_inspector: RouteInspectorState { destination_input_active: false, ..ri },
            ..old
        }),
        Key::Enter => {
            let left = App {
                route_inspector: RouteInspectorState { destination_input_active: false, ..ri },
                ..old
            };
            let d = crate::text::trim(ri.destination_input@);
            if d.len() == 0 {
                action is Nothing && (new.route_inspector.latest_path_error matches Some(e) && e@
                    == "Enter a destination first."@) && new == (App {
                    route_inspector: RouteInspectorState {
                        latest_path_result: None,
                        latest_path_error: new.route_inspector.latest_path_error,
                        ..left.route_inspector
                    },
                    ..left
                })
            } else {
                (action matches KeyAction::LookupRoute(x) && x@ == d) && new == left
            }
        },
        Key::Backspace => action is Nothing && new.route_inspector.destination_input@ == without_last(
            ri.destination_input@,
        ) && new == (App {
            route_inspector: RouteInspectorState {
                destination_input: new.route_inspector.destination_input,
                ..ri
            },
            ..old
        }),
        Key::Char(c) => action is Nothing && new.route_inspector.destination_input@
            == ri.destination_input@.push(c) && new == (App {
            route_inspector: RouteInspectorState {
                destination_input: new.route_inspector.destination_input,
                ..ri
            },
            ..old
        }),
        _ => action is Nothing && new == old,
    }
}

/// The route filter: Esc clears and leaves it, Enter leaves it, Backspace
/// and characters edit it; the rows follow and the selection goes back to
/// the top while it is edited.
pub open spec fn route_filter_key_effect(old: App, key: Key, new: App) -> bool {
    let ri = old.route_inspector;
    match key {
        Key::Esc => new.route_inspector.route_filter@.len() == 0 && crate::app::rows_for(
            new,
            crate::app::item_views(new.navigation_items@),
        ) && new == (App {
            route_inspector: RouteInspectorState {
                route_filter: new.route_inspector.route_filter,
                route_filter_active: false,
                ..ri
            },
            navigation_items: new.navigation_items,
            ..old
        }),
        Key::Enter => new == (App {
            route_inspector: RouteInspectorState { route_filter_active: false, ..ri },
            ..old
        }),
        Key::Backspace | Key::Char(_) => new.route_inspector.route_filter@ == (match key {
            Key::Char(c) => ri.route_filter@.push(c),
            _ => without_last(ri.route_filter@),
        }) && crate::app::rows_for(new, crate::app::item_views(new.navigation_items@)) && new == (App {
            route_inspector: RouteInspectorState { route_filter: new.route_inspector.route_filter, ..ri },
            navigation_items: new.navigation_items,
            selected_index: 0,
            ..old
        }),
        _ => new == old,
    }
}

/// The ports filter, like the route filter.
pub open spec fn port_filter_key_effect(old: App, key: Key, new: App) -> bool {
    match key {
        Key::Esc => new.port_filter@.len() == 0 && crate::app::rows_for(
            new,
            crate::app::item_views(new.navigation_items@),
        ) && new == (App {
            port_filter: new.port_filter,
            port_filter_active: false,
            navigation_items: new.navigation_items,
            ..old
        }),
        Key::Enter => new == (App { port_filter_active: false, ..old }),
        Key::Backspace | Key::Char(_) => new.port_filter@ == (match key {
            Key::Char(c) => old.port_filter@.push(c),
            _ => without_last(old.port_filter@),
        }) && crate::app::rows_for(new, crate::app::item_views(new.navigation_items@)) && new == (App {
            port_filter: new.port_filter,
            navigation_items: new.navigation_items,
            selected_index: 0,
            ..old
        }),
        _ => new == old,
    }
}

impl App {
    fn destination_key(&mut self, key: Key) -> (r: KeyAction)
        ensures
            destination_key_effect(*old(self), key, *final(self), r),
    {
        match key {
            Key::Esc => {
                self.route_inspector.destination_input_active = false;
                KeyAction::Nothing
            },
            Key::Enter => {
                self.route_inspector.destination_input_active = false;
                match self.begin_route_path_lookup() {
                    Some(d) => KeyAction::LookupRoute(d),
                    None => KeyAction::Nothing,
                }
            },
            Key::Backspace => {
                self.route_inspector.destination_input = pop_char(&self.route_inspector.destination_input);
                KeyAction::Nothing
            },
            Key::Char(c) => {
                self.route_inspector.destination_input = push_char(&self.route_inspector.destination_input, c);
                KeyAction::Nothing
            },
            _ => KeyAction::Nothing,
        }
    }

    fn route_filter_key(&mut self, key: Key)
        ensures
            route_filter_key_effect(*old(self), key, *final(self)),
    {
        match key {
            Key::Esc => {
                self.route_inspector.route_filter = String::new();
                self.route_inspector.route_filter_active = false;
                self.update_navigation_items();
            },
            Key::Enter => {
                self.route_inspector.route_filter_active = false;
            },
            Key::Backspace => {
                self.route_inspector.route_filter = pop_char(&self.route_inspector.route_filter);
                self.update_navigation_items();
                self.selected_index = 0;
            },
            Key::Char(c) => {
                self.route_inspector.route_filter = push_char(&self.route_inspector.route_filter, c);
                self.update_navigation_items();
                self.selected_index = 0;
            },
            _ => {},
        }
    }

    fn port_filter_key(&mut self, key: Key)
        ensures
            port_filter_key_effect(*old(self), key, *final(self)),
    {
        match key {
            Key::Esc => {
                self.port_filter = String::new();
                self.port_filter_active = false;
                self.update_navigation_items();
            },
            Key::Enter => {
                self.port_filter_active = false;
            },
            Key::Backspace => {
                self.port_filter = pop_char(&self.port_filter);
                self.update_navigation_items();
                self.selected_index = 0;
            },
            Key::Char(c) => {
                self.port_filter = push_char(&self.port_filter, c);
                self.update_navigation_items();
                self.selected_index = 0;
            },
            _ => {},
        }
    }
}

// ---------------------------------------------------------------------------
// The raw output viewer
// ---------------------------------------------------------------------------
/// The search field of the raw viewer: Esc leaves it, Enter leaves it and
/// scrolls to the first match, Backspace and characters edit the query and
/// search again.
pub open spec fn search_key_effect(old: App, key: Key, new: App) -> bool {
    let rv = old.raw_viewer;
    match key {
        Key::Esc => new == (App { raw_viewer: RawViewerState { search_active: false, ..rv }, ..old }),
        Key::Enter => new == (App {
            raw_viewer: RawViewerState {
                search_active: false,
                scroll: if rv.search_matches@.len() > 0 {
                    scroll_to(rv.search_matches@[0].line_index)
                } else {
                    rv.scroll
                },
                ..rv
            },
            ..old
        }),
        Key::Backspace | Key::Char(_) => {
            let edited = App {
                raw_viewer: RawViewerState { search_query: new.raw_viewer.search_query, ..rv },
                ..old
            };
            &&& new.raw_viewer.search_query@ == match key {
                Key::Char(c) => rv.search_query@.push(c),
                _ => without_last(rv.search_query@),
            }
            &&& new.raw_viewer.search_matches@ == crate::app::raw_search_matches(edited)
            &&& new == (App {
                raw_viewer: RawViewerState {
                    search_matches: new.raw_viewer.search_matches,
                    current_match_index: 0,
                    ..edited.raw_viewer
                },
                ..edited
            })
        },
        _ => new == old,
    }
}

/// The events a copy from the raw viewer puts on the timeline.
pub open spec fn copied_event(message: Seq<char>) -> (NetworkEventKind, EventSeverity, Seq<char>) {
    (NetworkEventKind::ActionCopied, EventSeverity::Info, message)
}

/// The keys of the raw viewer: close it (Esc, `q`, `o`), switch source
/// (Tab, Shift-Tab) and search again, scroll by one line or fifteen, start
/// a search (`/`), go to the next or previous match (`n`, `N`), copy the
/// command (`y`) or the output (`Y`).
pub open spec fn raw_key_effect(old: App, key: Key, os: Seq<char>, new: App, action: KeyAction) -> bool {
    let rv = old.raw_viewer;
    let n = rv.sources@.len();
    let m = rv.search_matches@.len();
    if key == Key::Esc || key == Key::Char('q') || key == Key::Char('o') || key == Key::Char('ㅐ') {
        action is Nothing && new == (App { raw_viewer: RawViewerState { active: false, ..rv }, ..old })
    } else if key == Key::Tab || key == Key::BackTab {
        let sel = if key == Key::Tab {
            ((rv.selected_index + 1) % (n as int)) as usize
        } else {
            ((rv.selected_index + n - 1) % (n as int)) as usize
        };
        let moved = App { raw_viewer: RawViewerState { selected_index: sel, scroll: 0, ..rv }, ..old };
        &&& action is Nothing
        &&& new.raw_viewer.search_matches@ == crate::app::raw_search_matches(moved)
        &&& new == (App {
            raw_viewer: RawViewerState {
                search_matches: new.raw_viewer.search_matches,
                current_match_index: 0,
                ..moved.raw_viewer
            },
            ..moved
        })
    } else if scrolled(rv.scroll, key, 15) is Some {
        action is Nothing && new == (App {
            raw_viewer: RawViewerState { scroll: scrolled(rv.scroll, key, 15)->0, ..rv },
            ..old
        })
    } else if key == Key::Char('/') {
        action is Nothing && new.raw_viewer.search_query@.len() == 0 && new.raw_viewer.search_matches@.len()
            == 0 && new == (App {
            raw_viewer: RawViewerState {
                search_active: true,
                search_query: new.raw_viewer.search_query,
                search_matches: new.raw_viewer.search_matches,
                ..rv
            },
            ..old
        })
    } else if key == Key::Char('n') || key == Key::Char('N') {
        action is Nothing && if m > 0 {
            let cur = if key == Key::Char('n') {
                ((rv.current_match_index + 1) % (m as int)) as usize
            } else {
                ((rv.current_match_index + m - 1) % (m as int)) as usize
            };
            new == (App {
                raw_viewer: RawViewerState {
                    current_match_index: cur,
                    scroll: scroll_to(rv.search_matches@[cur as int].line_index),
                    ..rv
                },
                ..old
            })
        } else {
            new == old
        }
    } else if key == Key::Char('y') || key == Key::Char('Y') {
        if rv.selected_index < n {
            let id = rv.sources@[rv.selected_index as int];
            let outputs = old.command_outputs.view();
            if key == Key::Char('y') {
                let command = if outputs.dom().contains(id) {
                    outputs[id].command@
                } else {
                    id.label(os)
                };
                &&& action matches KeyAction::Copy(t) && t@ == command
                &&& crate::app::event_views(new.recent_events@) == crate::app::event_views(old.recent_events@).push(
                    copied_event("Copied command: "@ + command),
                )
                &&& new == (App { recent_events: new.recent_events, ..old })
            } else if outputs.dom().contains(id) {
                let out = outputs[id];
                &&& action matches KeyAction::Copy(t) && t@ == out.stdout@ + "\n"@ + out.stderr@
                &&& crate::app::event_views(new.recent_events@) == crate::app::event_views(old.recent_events@).push(
                    copied_event("Copied raw output for: "@ + id.label(os)),
                )
                &&& new == (App { recent_events: new.recent_events, ..old })
            } else {
                action is Nothing && new == old
            }
        } else {
            action is Nothing && new == old
        }
    } else {
        action is Nothing && new == old
    }
}

/// The keys of the raw viewer can be handled without overflow: switching
/// source needs a source, and moving between matches needs room.
pub open spec fn raw_keys_ok(app: App, key: Key) -> bool {
    let rv = app.raw_viewer;
    &&& (key == Key::Tab || key == Key::BackTab) ==> rv.sources@.len() > 0 && rv.selected_index
        + rv.sources@.len() <= usize::MAX
    &&& key == Key::Char('n') && rv.search_matches@.len() > 0 ==> rv.current_match_index < usize::MAX
    &&& key == Key::Char('N') && rv.search_matches@.len() > 0 ==> rv.current_match_index
        + rv.search_matches@.len() <= usize::MAX
}

fn push_raw_event(events: &mut Vec<NetworkEvent>, message: String)
    ensures
        crate::app::event_views(final(events)@) == crate::app::event_views(old(events)@).push(
            copied_event(message@),
        ),
{
    let ghost before = crate::app::event_views(events@);
    events.push(NetworkEvent::new(NetworkEventKind::ActionCopied, EventSeverity::Info, message));
    assert(crate::app::event_views(events@) =~= before.push(copied_event(message@)));
}

impl App {
    fn search_key(&mut self, key: Key)
        ensures
            search_key_effect(*old(self), key, *final(self)),
    {
        match key {
            Key::Esc => {
                self.raw_viewer.search_active = false;
            },
            Key::Enter => {
                self.raw_viewer.search_active = false;
                if self.raw_viewer.search_matches.len() > 0 {
                    self.raw_viewer.scroll = line_scroll(self.raw_viewer.search_matches[0].line_index);
                }
            },
            Key::Backspace => {
                self.raw_viewer.search_query = pop_char(&self.raw_viewer.search_query);
                self.update_raw_viewer_search_matches();
            },
            Key::Char(c) => {
                self.raw_viewer.search_query = push_char(&self.raw_viewer.search_query, c);
                self.update_raw_viewer_search_matches();
            },
            _ => {},
        }
    }

    fn raw_key(&mut self, key: Key, os: &str) -> (r: KeyAction)
        requires
            raw_keys_ok(*old(self), key),
        ensures
            raw_key_effect(*old(self), key, os@, *final(self), r),
    {
        if key == Key::Esc || key == Key::Char('q') || key == Key::Char('o') || key == Key::Char('ㅐ') {
            self.raw_viewer.active = false;
            return KeyAction::Nothing;
        }
        if key == Key::Tab || key == Key::BackTab {
            let n = self.raw_viewer.sources.len();
            let sel = if key == Key::Tab {
                (self.raw_viewer.selected_index + 1) % n
            } else {
                (self.raw_viewer.selected_index + n - 1) % n
            };
            self.raw_viewer.selected_index = sel;
            self.raw_viewer.scroll = 0;
            self.update_raw_viewer_search_matches();
            return KeyAction::Nothing;
        }
        if let Some(s) = scroll_key(self.raw_viewer.scroll, key, 15) {
            self.raw_viewer.scroll = s;
            return KeyAction::Nothing;
        }
        if key == Key::Char('/') {
            self.raw_viewer.search_active = true;
            self.raw_viewer.search_query = String::new();
            self.raw_viewer.search_matches = Vec::new();
            return KeyAction::Nothing;
        }
        if key == Key::Char('n') || key == Key::Char('N') {
            let m = self.raw_viewer.search_matches.len();
            if m > 0 {
                let cur = if key == Key::Char('n') {
                    (self.raw_viewer.current_match_index + 1) % m
                } else {
                    (self.raw_viewer.current_match_index + m - 1) % m
                };
                self.raw_viewer.current_match_index = cur;
                self.raw_viewer.scroll = line_scroll(self.raw_viewer.search_matches[cur].line_index);
            }
            return KeyAction::Nothing;
        }
        if key == Key::Char('y') || key == Key::Char('Y') {
            if self.raw_viewer.selected_index < self.raw_viewer.sources.len() {
                let id = self.raw_viewer.sources[self.raw_viewer.selected_index];
                if key == Key::Char('y') {
                    let command = self.raw_viewer_command_to_copy(id, os);
                    push_raw_event(&mut self.recent_events, concat2("Copied command: ", command.as_str()));
                    return KeyAction::Copy(command);
                }
                let text = match self.command_outputs.get(&id) {
                    Some(out) => crate::text::concat3(out.stdout.as_str(), "\n", out.stderr.as_str()),
                    None => return KeyAction::Nothing,
                };
                push_raw_event(&mut self.recent_events, concat2("Copied raw output for: ", id.as_str(os)));
                return KeyAction::Copy(text);
            }
            return KeyAction::Nothing;
        }
        KeyAction::Nothing
    }
}

// ---------------------------------------------------------------------------
// The main screen
// ---------------------------------------------------------------------------
/// An address without the port after its last `:`.
pub open spec fn host_part(s: Seq<char>) -> Seq<char> {
    match crate::text::last_index(s, ':') {
        Some(i) => s.take(i),
        None => s,
    }
}

/// Whether an address names a host (not a wildcard).
pub open spec fn names_host(ip: Seq<char>) -> bool {
    ip != "*"@ && ip != "::"@ && ip != "0.0.0.0"@ && ip != "*.*"@
}

/// The far end's address of the selected connection, when it names a host.
pub open spec fn selected_foreign(app: App) -> Option<Seq<char>> {
    if app.selected_index < app.navigation_items@.len() {
        match app.navigation_items@[app.selected_index as int] {
            NavigationItem::Connection { foreign, .. } => {
                let ip = host_part(foreign@);
                if names_host(ip) {
                    Some(ip)
                } else {
                    None
                }
            },
            _ => None,
        }
    } else {
        None
    }
}

/// The raw outputs that each view offers.
pub open spec fn raw_sources_for(app: App) -> Seq<CommandSourceId> {
    match app.view_mode {
        ViewMode::Interface | ViewMode::Network => seq![CommandSourceId::Ifconfig],
        ViewMode::Connections => seq![CommandSourceId::NetstatConnections],
        ViewMode::Ports => seq![CommandSourceId::LsofPorts],
        ViewMode::Routes => routes_sources(app),
        ViewMode::Timeline => seq![
            CommandSourceId::Ifconfig,
            CommandSourceId::NetstatRoutes,
            CommandSourceId::DefaultRoute,
            CommandSourceId::PublicIp,
            CommandSourceId::GitHubRelease,
        ],
    }
}

/// The view that a key selects (also on a Korean keyboard layout).
pub open spec fn view_for_key(key: Key) -> Option<ViewMode> {
    match key {
        Key::Char('i') | Key::Char('ㅑ') => Some(ViewMode::Interface),
        Key::Char('n') | Key::Char('ㅜ') => Some(ViewMode::Network),
        Key::Char('p') | Key::Char('ㅔ') => Some(ViewMode::Ports),
        Key::Char('e') | Key::Char('ㄷ') => Some(ViewMode::Timeline),
        Key::Char('g') | Key::Char('ㅎ') => Some(ViewMode::Routes),
        _ => None,
    }
}

/// The keys of the main screen.
pub open spec fn main_key_effect(old: App, key: Key, new: App, action: KeyAction) -> bool {
    let hidden = App { help_visible: false, ..old };
    match key {
        Key::Esc => action is Nothing && new == hidden,
        Key::Char('?') => action is Nothing && new == (App { help_visible: !old.help_visible, ..old }),
        Key::Char('o') | Key::Char('ㅐ') => action is Nothing && new.raw_viewer.sources@ == raw_sources_for(old)
            && new.raw_viewer.search_query@.len() == 0 && new.raw_viewer.search_matches@.len() == 0 && new
            == (App {
            raw_viewer: RawViewerState {
                active: true,
                sources: new.raw_viewer.sources,
                selected_index: 0,
                scroll: 0,
                search_query: new.raw_viewer.search_query,
                search_active: false,
                search_matches: new.raw_viewer.search_matches,
                ..old.raw_viewer
            },
            ..hidden
        }),
        Key::Char('q') | Key::Char('ㅂ') => action is Quit && new == old,
        Key::Char('r') | Key::Char('ㄱ') => action is Refresh && new == hidden,
        Key::Char('u') | Key::Char('ㅕ') => exists|url: Option<String>|
            check_start_effect(hidden, true, new, url) && match url {
                Some(u) => action matches KeyAction::StartCheck(x) && x == u,
                None => action is Nothing,
            },
        Key::Char('U') => exists|upd: Option<AvailableUpdate>|
            install_start_effect(hidden, true, new, upd) && match upd {
                Some(u) => action matches KeyAction::StartInstall(x) && x == u,
                None => action is Nothing,
            },
        Key::Char('R') => action is Nothing && new == (App {
            release_notes_viewer: ReleaseNotesViewerState { active: true, scroll: 0 },
            ..hidden
        }),
        Key::Char('j') | Key::Down | Key::Char('ㅓ') => action is Nothing && new == selected_next(old),
        Key::Char('k') | Key::Up | Key::Char('ㅏ') => action is Nothing && new == selected_previous(old),
        Key::Tab => action is Nothing && new == if old.view_mode == ViewMode::Routes {
            section_moved(old, true)
        } else {
            old
        },
        Key::BackTab => action is Nothing && new == if old.view_mode == ViewMode::Routes {
            section_moved(old, false)
        } else {
            old
        },
        Key::Enter => action is Nothing && new == if old.view_mode == ViewMode::Routes {
            App {
                route_inspector: RouteInspectorState {
                    destination_input_active: true,
                    active_section: RouteInspectorSection::PathViewer,
                    ..old.route_inspector
                },
                ..old
            }
        } else {
            old
        },
        Key::Char('K') => new == hidden && if old.view_mode == ViewMode::Ports
            && old.selected_index < old.navigation_items@.len() {
            match old.navigation_items@[old.selected_index as int] {
                NavigationItem::ListeningPort { pid, command, port, .. } => action matches KeyAction::Kill {
                    pid: p,
                    command: c,
                    port: o,
                } && p@ == pid@ && c@ == command@ && o@ == port@,
                _ => action is Nothing,
            }
        } else {
            action is Nothing
        },
        Key::Char('f') | Key::Char('ㄹ') => action is Nothing && new == if old.view_mode == ViewMode::Ports {
            App { port_filter_active: true, ..hidden }
        } else {
            hidden
        },
        Key::Char('/') => action is Nothing && new == match old.view_mode {
            ViewMode::Ports => App { port_filter_active: true, ..hidden },
            ViewMode::Routes => App {
                route_inspector: RouteInspectorState { route_filter_active: true, ..old.route_inspector },
                ..hidden
            },
            _ => hidden,
        },
        Key::Char('a') | Key::Char('ㅁ') => action is Refresh && new == (App { show_all: !old.show_all, ..hidden }),
        Key::Char('c') | Key::Char('ㅊ') => if old.view_mode == ViewMode::Connections {
            new == hidden && match selected_foreign(old) {
                Some(ip) => action matches KeyAction::CopyAddress(x) && x@ == ip,
                None => action is Nothing,
            }
        } else {
            action is Nothing && view_mode_effect(hidden, ViewMode::Connections, new)
        },
        Key::Char('w') | Key::Char('ㅈ') => new == hidden && if old.view_mode == ViewMode::Connections {
            match selected_foreign(old) {
                Some(ip) => action matches KeyAction::Whois(x) && x@ == ip,
                None => action is Nothing,
            }
        } else {
            action is Nothing
        },
        Key::Char('[') => action is Nothing && new == details_scrolled(hidden, false),
        Key::Char(']') => action is Nothing && new == details_scrolled(hidden, true),
        _ => match view_for_key(key) {
            Some(m) => action is Nothing && view_mode_effect(hidden, m, new),
            None => action is Nothing && new == old,
        },
    }
}

fn view_key(key: Key) -> (r: Option<ViewMode>)
    ensures
        r == view_for_key(key),
{
    match key {
        Key::Char('i') | Key::Char('ㅑ') => Some(ViewMode::Interface),
        Key::Char('n') | Key::Char('ㅜ') => Some(ViewMode::Network),
        Key::Char('p') | Key::Char('ㅔ') => Some(ViewMode::Ports),
        Key::Char('e') | Key::Char('ㄷ') => Some(ViewMode::Timeline),
        Key::Char('g') | Key::Char('ㅎ') => Some(ViewMode::Routes),
        _ => None,
    }
}

fn host_of(foreign: &String) -> (r: String)
    ensures
        r@ == host_part(foreign@),
{
    let chars = chars_of(foreign.as_str());
    match crate::text::rfind_char(&chars, ':') {
        Some(i) => {
            let head = crate::text::slice_chars(&chars, 0, i);
            assert(head@ =~= foreign@.take(i as int));
            string_of(&head)
        },
        None => string_of(&chars),
    }
}

impl App {
    fn selected_foreign_address(&self) -> (r: Option<String>)
        ensures
            match r {
                Some(x) => selected_foreign(*self) == Some(x@),
                None => selected_foreign(*self) is None,
            },
    {
        if self.selected_index >= self.navigation_items.len() {
            return None;
        }
        match &self.navigation_items[self.selected_index] {
            NavigationItem::Connection { foreign, .. } => {
                let ip = host_of(foreign);
                if !str_eq(ip.as_str(), "*") && !str_eq(ip.as_str(), "::") && !str_eq(ip.as_str(), "0.0.0.0")
                    && !str_eq(ip.as_str(), "*.*") {
                    Some(ip)
                } else {
                    None
                }
            },
            _ => None,
        }
    }

    fn raw_sources(&self) -> (r: Vec<CommandSourceId>)
        ensures
            r@ == raw_sources_for(*self),
    {
        match self.view_mode {
            ViewMode::Interface | ViewMode::Network => vec![CommandSourceId::Ifconfig],
            ViewMode::Connections => vec![CommandSourceId::NetstatConnections],
            ViewMode::Ports => vec![CommandSourceId::LsofPorts],
            ViewMode::Routes => self.routes_raw_sources(),
            ViewMode::Timeline => {
                let r = vec![
                    CommandSourceId::Ifconfig,
                    CommandSourceId::NetstatRoutes,
                    CommandSourceId::DefaultRoute,
                    CommandSourceId::PublicIp,
                    CommandSourceId::GitHubRelease,
                ];
                assert(r@ =~= raw_sources_for(*self));
                r
            },
        }
    }

    fn main_key(&mut self, key: Key) -> (r: KeyAction)
        requires
            (key == Key::Char('j') || key == Key::Down || key == Key::Char('ㅓ')) ==> old(self).selected_index
                < usize::MAX,
        ensures
            main_key_effect(*old(self), key, *final(self), r),
    {
        match key {
            Key::Esc => {
                self.help_visible = false;
                KeyAction::Nothing
            },
            Key::Char('?') => {
                self.help_visible = !self.help_visible;
                KeyAction::Nothing
            },
            Key::Char('o') | Key::Char('ㅐ') => {
                self.help_visible = false;
                let sources = self.raw_sources();
                self.raw_viewer.active = true;
                self.raw_viewer.sources = sources;
                self.raw_viewer.selected_index = 0;
                self.raw_viewer.scroll = 0;
                self.raw_viewer.search_query = String::new();
                self.raw_viewer.search_active = false;
                self.raw_viewer.search_matches = Vec::new();
                KeyAction::Nothing
            },
            Key::Char('q') | Key::Char('ㅂ') => KeyAction::Quit,
            Key::Char('r') | Key::Char('ㄱ') => {
                self.help_visible = false;
                KeyAction::Refresh
            },
            Key::Char('u') | Key::Char('ㅕ') => {
                self.help_visible = false;
                let url = self.start_update_check(true);
                match url {
                    Some(u) => KeyAction::StartCheck(u),
                    None => KeyAction::Nothing,
                }
            },
            Key::Char('U') => {
                self.help_visible = false;
                let upd = self.start_update_install(true);
                match upd {
                    Some(u) => KeyAction::StartInstall(u),
                    None => KeyAction::Nothing,
                }
            },
            Key::Char('R') => {
                self.help_visible = false;
                self.release_notes_viewer.active = true;
                self.release_notes_viewer.scroll = 0;
                KeyAction::Nothing
            },
            Key::Char('j') | Key::Down | Key::Char('ㅓ') => {
                self.select_next();
                KeyAction::Nothing
            },
            Key::Char('k') | Key::Up | Key::Char('ㅏ') => {
                self.select_previous();
                KeyAction::Nothing
            },
            Key::Tab => {
                if self.view_mode == ViewMode::Routes {
                    self.select_next_route_section();
                }
                KeyAction::Nothing
            },
            Key::BackTab => {
                if self.view_mode == ViewMode::Routes {
                    self.select_previous_route_section();
                }
                KeyAction::Nothing
            },
            Key::Enter => {
                if self.view_mode == ViewMode::Routes {
                    self.route_inspector.destination_input_active = true;
                    self.route_inspector.active_section = RouteInspectorSection::PathViewer;
                }
                KeyAction::Nothing
            },
            Key::Char('K') => {
                self.help_visible = false;
                if self.view_mode == ViewMode::Ports && self.selected_index < self.navigation_items.len() {
                    match &self.navigation_items[self.selected_index] {
                        NavigationItem::ListeningPort { pid, command, port, .. } => KeyAction::Kill {
                            pid: pid.clone(),
                            command: command.clone(),
                            port: port.clone(),
                        },
                        _ => KeyAction::Nothing,
                    }
                } else {
                    KeyAction::Nothing
                }
            },
            Key::Char('f') | Key::Char('ㄹ') => {
                self.help_visible = false;
                if self.view_mode == ViewMode::Ports {
                    self.port_filter_active = true;
                }
                KeyAction::Nothing
            },
            Key::Char('/') => {
                self.help_visible = false;
                match self.view_mode {
                    ViewMode::Ports => self.port_filter_active = true,
                    ViewMode::Routes => self.route_inspector.route_filter_active = true,
                    _ => {},
                }
                KeyAction::Nothing
            },
            Key::Char('a') | Key::Char('ㅁ') => {
                self.help_visible = false;
                self.show_all = !self.show_all;
                KeyAction::Refresh
            },
            Key::Char('c') | Key::Char('ㅊ') => {
                self.help_visible = false;
                if self.view_mode == ViewMode::Connections {
                    match self.selected_foreign_address() {
                        Some(ip) => KeyAction::CopyAddress(ip),
                        None => KeyAction::Nothing,
                    }
                } else {
                    self.set_view_mode(ViewMode::Connections);
                    KeyAction::Nothing
                }
            },
            Key::Char('w') | Key::Char('ㅈ') => {
                self.help_visible = false;
                if self.view_mode == ViewMode::Connections {
                    match self.selected_foreign_address() {
                        Some(ip) => KeyAction::Whois(ip),
                        None => KeyAction::Nothing,
                    }
                } else {
                    KeyAction::Nothing
                }
            },
            Key::Char('[') => {
                self.help_visible = false;
                self.scroll_details_up();
                KeyAction::Nothing
            },
            Key::Char(']') => {
                self.help_visible = false;
                self.scroll_details_down();
                KeyAction::Nothing
            },
            _ => match view_key(key) {
                Some(m) => {
                    self.help_visible = false;
                    self.set_view_mode(m);
                    KeyAction::Nothing
                },
                None => KeyAction::Nothing,
            },
        }
    }
}

// ---------------------------------------------------------------------------
// All keys
// ---------------------------------------------------------------------------
/// What a key does, by the pop-up or input field that takes it.
pub open spec fn key_effect(old: App, key: Key, os: Seq<char>, new: App, action: KeyAction) -> bool {
    if old.raw_viewer.active {
        if old.raw_viewer.search_active {
            action is Nothing && search_key_effect(old, key, new)
        } else {
            raw_key_effect(old, key, os, new, action)
        }
    } else if old.release_notes_viewer.active {
        action is Nothing && notes_key_effect(old, key, new)
    } else if old.route_inspector.destination_input_active {
        destination_key_effect(old, key, new, action)
    } else if old.route_inspector.route_filter_active {
        action is Nothing && route_filter_key_effect(old, key, new)
    } else if old.port_filter_active {
        action is Nothing && port_filter_key_effect(old, key, new)
    } else {
        main_key_effect(old, key, new, action)
    }
}

/// The keys can be handled without overflow in this state.
pub open spec fn key_ok(app: App, key: Key) -> bool {
    if app.raw_viewer.active {
        app.raw_viewer.search_active || raw_keys_ok(app, key)
    } else if app.release_notes_viewer.active || app.route_inspector.destination_input_active
        || app.route_inspector.route_filter_active || app.port_filter_active {
        true
    } else {
        (key == Key::Char('j') || key == Key::Down || key == Key::Char('ㅓ')) ==> app.selected_index
            < usize::MAX
    }
}

impl App {
    /// Handles one key; `os` names the operating system (for command lines
    /// that are copied).
    pub fn handle_key(&mut self, key: Key, os: &str) -> (r: KeyAction)
        requires
            key_ok(*old(self), key),
        ensures
            key_effect(*old(self), key, os@, *final(self), r),
    {
        if self.raw_viewer.active {
            if self.raw_viewer.search_active {
                self.search_key(key);
                return KeyAction::Nothing;
            }
            return self.raw_key(key, os);
        }
        if self.release_notes_viewer.active {
            self.notes_key(key);
            return KeyAction::Nothing;
        }
        if self.route_inspector.destination_input_active {
            return self.destination_key(key);
        }
        if self.route_inspector.route_filter_active {
            self.route_filter_key(key);
            return KeyAction::Nothing;
        }
        if self.port_filter_active {
            self.port_filter_key(key);
            return KeyAction::Nothing;
        }
        self.main_key(key)
    }

    /// Records the outcome of killing a process: on success the kill and a
    /// refresh (the answer is `true`), on failure the error.
    pub fn record_kill(&mut self, pid: &str, command: &str, port: &str, result: Result<(), String>) -> (r: bool)
        ensures
            r == (result is Ok),
            crate::app::event_views(final(self).recent_events@) == keep_last_events(
                crate::app::event_views(old(self).recent_events@),
                match result {
                    Ok(()) => (
                        NetworkEventKind::ProcessKilled,
                        EventSeverity::Info,
                        "Killed "@ + command@ + " (PID: "@ + pid@ + ") on :"@ + port@,
                    ),
                    Err(e) => (
                        NetworkEventKind::SystemError,
                        EventSeverity::Error,
                        "Kill failed (PID: "@ + pid@ + "): "@ + e@,
                    ),
                },
            ),
            *final(self) == (App { recent_events: final(self).recent_events, ..*old(self) }),
    {
        let ok = result.is_ok();
        let (kind, severity, message) = match result {
            Ok(()) => {
                let mut m = crate::text::concat3("Killed ", command, " (PID: ");
                push_str(&mut m, pid);
                push_str(&mut m, ") on :");
                push_str(&mut m, port);
                (NetworkEventKind::ProcessKilled, EventSeverity::Info, m)
            },
            Err(e) => {
                let mut m = crate::text::concat3("Kill failed (PID: ", pid, "): ");
                push_str(&mut m, e.as_str());
                (NetworkEventKind::SystemError, EventSeverity::Error, m)
            },
        };
        self.push_timeline_event(kind, severity, message);
        ok
    }

    /// Records the outcome of copying an address.
    pub fn record_address_copy(&mut self, ip: &str, result: Result<(), String>)
        ensures
            crate::app::event_views(final(self).recent_events@) == keep_last_events(
                crate::app::event_views(old(self).recent_events@),
                match result {
                    Ok(()) => (
                        NetworkEventKind::ActionCopied,
                        EventSeverity::Info,
                        "Copied IP "@ + ip@ + " to clipboard"@,
                    ),
                    Err(e) => (NetworkEventKind::SystemError, EventSeverity::Error, "Failed to copy IP: "@ + e@),
                },
            ),
            *final(self) == (App { recent_events: final(self).recent_events, ..*old(self) }),
    {
        let (kind, severity, message) = match result {
            Ok(()) => (
                NetworkEventKind::ActionCopied,
                EventSeverity::Info,
                crate::text::concat3("Copied IP ", ip, " to clipboard"),
            ),
            Err(e) => (NetworkEventKind::SystemError, EventSeverity::Error, concat2("Failed to copy IP: ", e.as_str())),
        };
        self.push_timeline_event(kind, severity, message);
    }

    /// Decides whether to start a WHOIS lookup of `ip`, given what the
    /// lookup cache holds for it: unless a lookup is already loading, it
    /// starts and is put on the timeline (the answer is `true`).
    pub fn start_whois(&mut self, ip: &str, cached: Option<&str>) -> (r: bool)
        ensures
            r == !(cached matches Some(c) && c@ == "Loading..."@),
            r ==> crate::app::event_views(final(self).recent_events@) == keep_last_events(
                crate::app::event_views(old(self).recent_events@),
                (NetworkEventKind::ActionWhois, EventSeverity::Info, "Starting WHOIS lookup for "@ + ip@),
            ),
            !r ==> *final(self) == *old(self),
            *final(self) == (App { recent_events: final(self).recent_events, ..*old(self) }),
    {
        let loading = match cached {
            Some(c) => str_eq(c, "Loading..."),
            None => false,
        };
        if loading {
            return false;
        }
        self.push_timeline_event(
            NetworkEventKind::ActionWhois,
            EventSeverity::Info,
            concat2("Starting WHOIS lookup for ", ip),
        );
        true
    }

    fn push_timeline_event(&mut self, kind: NetworkEventKind, severity: EventSeverity, message: String)
        ensures
            crate::app::event_views(final(self).recent_events@) == keep_last_events(
                crate::app::event_views(old(self).recent_events@),
                (kind, severity, message@),
            ),
            *final(self) == (App { recent_events: final(self).recent_events, ..*old(self) }),
    {
        let ghost before = self.recent_events@;
        let e = NetworkEvent::new(kind, severity, message);
        self.push_event(e);
        proof {
            let all = before.push(e);
            assert(crate::app::event_views(all) =~= crate::app::event_views(before).push((kind, severity, message@)));
            if all.len() > crate::app::EVENT_LIMIT {
                assert(crate::app::event_views(all.skip(all.len() - crate::app::EVENT_LIMIT)) =~= crate::app::event_views(
                    all,
                ).skip(all.len() - crate::app::EVENT_LIMIT));
            }
        }
    }
}

/// The timeline after one more event, keeping its last hundred.
pub open spec fn keep_last_events(
    events: Seq<(NetworkEventKind, EventSeverity, Seq<char>)>,
    e: (NetworkEventKind, EventSeverity, Seq<char>),
) -> Seq<(NetworkEventKind, EventSeverity, Seq<char>)> {
    crate::app::keep_last(events.push(e), crate::app::EVENT_LIMIT as nat)
}

} // verus!
