//! The interface's state apart from the terminal: which view is shown,
//! what is selected, the recent traffic of each interface and the events
//! that two consecutive snapshots give.
use vstd::prelude::*;

use crate::model::{
    CommandOutput, CommandSourceId, EventSeverity, NetworkSnapshot, PublicIpInfo, RouteEntry,
    Subnet, InterfaceAddress, InterfaceStats, InterfaceStatus,
    InterfaceView, NetworkEvent, NetworkEventKind, NetworkInterface, NetworkKind, RouteDiagnostic,
    RouteInspectorSection, RoutePathResult, RouteSortColumn, RouteView, interface_views,
    route_views, ActiveConnection, ConnectionView, ListeningPort, PortView, connection_views,
    port_views, copy_opt, opt_chars,
};
use crate::update::{AvailableUpdate, UpdateMessage, UpdateStatus};
use crate::updater::{
    CheckStart, InstallStart, UpdateState, auto_install_due, message_effect, opt_event,
};
use crate::model::{AddressView, subnet_before};
use crate::net::{ipv4_octets_spec, ipv6_octets_spec, parse_ipv4, parse_ipv6};
use crate::view::{calculate_ipv4_subnet_u32, calculate_ipv6_subnet_arr, ipv4_mask, ipv6_mask_byte};
use crate::text::{
    find_chars, first_match, lemma_chars_before_order, lines, lines_of, slice_chars, views,
    chars_before, chars_eq, chars_of, chars_precede, concat2, concat3, contains, contains_chars,
    lowercase, owned, push_str, str_eq, string_views, to_lowercase_spec,
};

verus! {

#[derive(Clone, Copy, Debug, PartialEq, Eq, Structural)]
pub enum ViewMode {
    Interface,
    Network,
    Connections,
    Ports,
    Timeline,
    Routes,
}

/// Recent transfer rates of an interface, oldest first.
#[derive(Clone, Debug, Default)]
pub struct InterfaceHistory {
    pub rx_rates: Vec<u64>,
    pub tx_rates: Vec<u64>,
}

/// How many rates a history keeps.
pub const HISTORY_LIMIT: usize = 40;

/// The last `limit` values of `s` (all of them when there are fewer).
pub open spec fn keep_last<T>(s: Seq<T>, limit: nat) -> Seq<T> {
    if s.len() > limit {
        s.skip(s.len() - limit)
    } else {
        s
    }
}

impl InterfaceHistory {
    /// Adds one pair of rates; each list keeps its last forty values.
    pub fn record(&mut self, rx_rate: u64, tx_rate: u64)
        requires
            old(self).rx_rates@.len() <= HISTORY_LIMIT,
            old(self).tx_rates@.len() <= HISTORY_LIMIT,
        ensures
            final(self).rx_rates@ == keep_last(old(self).rx_rates@.push(rx_rate), HISTORY_LIMIT as nat),
            final(self).tx_rates@ == keep_last(old(self).tx_rates@.push(tx_rate), HISTORY_LIMIT as nat),
            final(self).rx_rates@.len() <= HISTORY_LIMIT,
            final(self).tx_rates@.len() <= HISTORY_LIMIT,
    {
        self.rx_rates.push(rx_rate);
        self.tx_rates.push(tx_rate);
        let ghost rx = self.rx_rates@;
        let ghost tx = self.tx_rates@;
        if self.rx_rates.len() > HISTORY_LIMIT {
            self.rx_rates.remove(0);
            assert(self.rx_rates@ =~= rx.skip(1));
        }
        if self.tx_rates.len() > HISTORY_LIMIT {
            self.tx_rates.remove(0);
            assert(self.tx_rates@ =~= tx.skip(1));
        }
    }
}

/// The rate of a counter between two snapshots `elapsed` seconds apart; a
/// counter that went down counts as no traffic.
pub open spec fn rate(current: u64, previous: u64, elapsed: u64) -> u64 {
    if current >= previous {
        ((current - previous) / (elapsed as int)) as u64
    } else {
        0
    }
}

pub fn traffic_rates(current: &InterfaceStats, previous: &InterfaceStats, elapsed: u64) -> (r: (
    u64,
    u64,
))
    requires
        elapsed > 0,
    ensures
        r.0 == rate(current.rx_bytes, previous.rx_bytes, elapsed),
        r.1 == rate(current.tx_bytes, previous.tx_bytes, elapsed),
{
    (
        current.rx_bytes.saturating_sub(previous.rx_bytes) / elapsed,
        current.tx_bytes.saturating_sub(previous.tx_bytes) / elapsed,
    )
}

impl View for InterfaceHistory {
    type V = (Seq<u64>, Seq<u64>);

    open spec fn view(&self) -> (Seq<u64>, Seq<u64>) {
        (self.rx_rates@, self.tx_rates@)
    }
}

/// A history after one more pair of rates; a missing history starts empty.
pub open spec fn history_recorded(h: Option<(Seq<u64>, Seq<u64>)>, rx: u64, tx: u64) -> (
    Seq<u64>,
    Seq<u64>,
) {
    let (rxs, txs) = match h {
        Some(v) => v,
        None => (Seq::empty(), Seq::empty()),
    };
    (
        keep_last(rxs.push(rx), HISTORY_LIMIT as nat),
        keep_last(txs.push(tx), HISTORY_LIMIT as nat),
    )
}

/// The histories that a list of named entries holds, by name.
pub open spec fn entries_map(s: Seq<(String, InterfaceHistory)>) -> Map<
    Seq<char>,
    (Seq<u64>, Seq<u64>),
>
    decreases s.len(),
{
    if s.len() == 0 {
        Map::empty()
    } else {
        entries_map(s.drop_last()).insert(s.last().0@, s.last().1@)
    }
}

pub open spec fn entry_names_distinct(s: Seq<(String, InterfaceHistory)>) -> bool {
    forall|i: int, j: int| 0 <= i < j < s.len() ==> #[trigger] s[i].0@ != #[trigger] s[j].0@
}

proof fn lemma_entries_map(s: Seq<(String, InterfaceHistory)>)
    requires
        entry_names_distinct(s),
    ensures
        forall|i: int| 0 <= i < s.len() ==> #[trigger] entries_map(s).dom().contains(s[i].0@)
            && entries_map(s)[s[i].0@] == s[i].1@,
        forall|k: Seq<char>| #[trigger]
            entries_map(s).dom().contains(k) ==> exists|i: int| 0 <= i < s.len() && s[i].0@ == k,
    decreases s.len(),
{
    if s.len() > 0 {
        let t = s.drop_last();
        assert(entry_names_distinct(t)) by {
            assert forall|i: int, j: int| 0 <= i < j < t.len() implies #[trigger] t[i].0@
                != #[trigger] t[j].0@ by {
                assert(t[i] == s[i] && t[j] == s[j]);
            }
        }
        lemma_entries_map(t);
        assert forall|i: int| 0 <= i < s.len() implies #[trigger] entries_map(s).dom().contains(
            s[i].0@,
        ) && entries_map(s)[s[i].0@] == s[i].1@ by {
            if i < s.len() - 1 {
                assert(t[i] == s[i]);
                assert(entries_map(t).dom().contains(t[i].0@));
                assert(s[i].0@ != s[s.len() - 1].0@);
            }
        }
        assert forall|k: Seq<char>| #[trigger]
            entries_map(s).dom().contains(k) implies exists|i: int| 0 <= i < s.len() && s[i].0@ == k by {
            if k != s.last().0@ {
                assert(entries_map(t).dom().contains(k));
                let i = choose|i: int| 0 <= i < t.len() && t[i].0@ == k;
                assert(s[i] == t[i]);
            } else {
                assert(s[s.len() - 1].0@ == k);
            }
        }
    }
}

/// The names of a list of interfaces.
pub open spec fn interface_names(s: Seq<InterfaceView>) -> Set<Seq<char>> {
    Set::new(|n: Seq<char>| exists|i: int| 0 <= i < s.len() && #[trigger] s[i].name == n)
}

/// Whether some interface of `interfaces` is called `name`.
pub fn has_interface_named(interfaces: &[NetworkInterface], name: &String) -> (r: bool)
    ensures
        r == interface_names(interface_views(interfaces@)).contains(name@),
{
    for i in 0..interfaces.len()
        invariant
            forall|j: int| 0 <= j < i ==> interfaces@[j].name@ != name@,
    {
        if str_eq(interfaces[i].name.as_str(), name.as_str()) {
            assert(interface_views(interfaces@)[i as int].name == name@);
            return true;
        }
    }
    assert(!interface_names(interface_views(interfaces@)).contains(name@)) by {
        if interface_names(interface_views(interfaces@)).contains(name@) {
            let j = choose|j: int| 0 <= j < interfaces@.len() && #[trigger] interface_views(interfaces@)[j].name == name@;
            assert(interfaces@[j].name@ == name@);
        }
    }
    false
}

/// The recent transfer rates of each interface, by interface name.
#[derive(Debug)]
pub struct TrafficHistory {
    entries: Vec<(String, InterfaceHistory)>,
}

impl TrafficHistory {
    #[verifier::type_invariant]
    spec fn wf(self) -> bool {
        &&& entry_names_distinct(self.entries@)
        &&& forall|i: int|
            0 <= i < self.entries@.len() ==> (#[trigger] self.entries@[i]).1.rx_rates@.len()
                <= HISTORY_LIMIT && self.entries@[i].1.tx_rates@.len() <= HISTORY_LIMIT
    }

    /// The histories by interface name.
    pub closed spec fn view(&self) -> Map<Seq<char>, (Seq<u64>, Seq<u64>)> {
        entries_map(self.entries@)
    }

    pub fn new() -> (r: Self)
        ensures
            r.view() == Map::<Seq<char>, (Seq<u64>, Seq<u64>)>::empty(),
    {
        TrafficHistory { entries: Vec::new() }
    }

    fn position(&self, name: &str) -> (r: Option<usize>)
        ensures
            match r {
                Some(i) => i < self.entries@.len() && self.entries@[i as int].0@ == name@,
                None => forall|i: int| 0 <= i < self.entries@.len() ==> self.entries@[i].0@ != name@,
            },
    {
        for i in 0..self.entries.len()
            invariant
                forall|j: int| 0 <= j < i ==> self.entries@[j].0@ != name@,
        {
            if str_eq(self.entries[i].0.as_str(), name) {
                return Some(i);
            }
        }
        None
    }

    /// The history of the interface called `name`, whose two lists hold at
    /// most forty rates each.
    pub fn get(&self, name: &str) -> (r: Option<&InterfaceHistory>)
        ensures
            r is Some <==> self.view().dom().contains(name@),
            r matches Some(h) ==> h@ == self.view()[name@] && h.rx_rates@.len() <= HISTORY_LIMIT
                && h.tx_rates@.len() <= HISTORY_LIMIT,
    {
        proof {
            use_type_invariant(self);
            lemma_entries_map(self.entries@);
        }
        match self.position(name) {
            Some(i) => {
                assert(self.entries@[i as int].1.rx_rates@.len() <= HISTORY_LIMIT);
                assert(entries_map(self.entries@).dom().contains(self.entries@[i as int].0@));
                Some(&self.entries[i].1)
            },
            None => {
                assert(!self.view().dom().contains(name@)) by {
                    if self.view().dom().contains(name@) {
                        let i = choose|i: int|
                            0 <= i < self.entries@.len() && self.entries@[i].0@ == name@;
                    }
                }
                None
            },
        }
    }

    /// Adds a pair of rates to the history of the interface called `name`,
    /// which starts empty if there is none yet.
    pub fn record(&mut self, name: &String, rx_rate: u64, tx_rate: u64)
        ensures
            final(self).view() == old(self).view().insert(
                name@,
                history_recorded(old(self).view().get(name@), rx_rate, tx_rate),
            ),
    {
        proof {
            use_type_invariant(&*self);
            lemma_entries_map(self.entries@);
        }
        let ghost m0 = self.view();
        let mut entries: Vec<(String, InterfaceHistory)> = Vec::new();
        std::mem::swap(&mut entries, &mut self.entries);
        let ghost s0 = entries@;
        match self.position_in(&entries, name.as_str()) {
            Some(i) => {
                let (n, mut h) = entries.remove(i);
                assert(m0.get(name@) == Some(s0[i as int].1@));
                h.record(rx_rate, tx_rate);
                entries.insert(i, (n, h));
                let ghost s1 = entries@;
                assert(s1 =~= s0.update(i as int, s1[i as int]));
                assert(entry_names_distinct(s1)) by {
                    assert forall|a: int, b: int| 0 <= a < b < s1.len() implies #[trigger] s1[a].0@
                        != #[trigger] s1[b].0@ by {
                        assert(s1[a].0@ == s0[a].0@ && s1[b].0@ == s0[b].0@);
                    }
                }
                proof {
                    lemma_entries_map(s1);
                }
                let ghost target = m0.insert(name@, history_recorded(m0.get(name@), rx_rate, tx_rate));
                assert(s1[i as int].0@ == name@);
                assert(s1[i as int].1@ == history_recorded(m0.get(name@), rx_rate, tx_rate));
                assert forall|k: Seq<char>| #[trigger] entries_map(s1).dom().contains(k) == target.dom().contains(k) by {
                    if entries_map(s1).dom().contains(k) {
                        let j = choose|j: int| 0 <= j < s1.len() && s1[j].0@ == k;
                        if j != i {
                            assert(s1[j] == s0[j]);
                            assert(m0.dom().contains(s0[j].0@));
                        }
                    }
                    if target.dom().contains(k) && k != name@ {
                        let j = choose|j: int| 0 <= j < s0.len() && s0[j].0@ == k;
                        assert(s1[j] == s0[j]);
                        assert(entries_map(s1).dom().contains(s1[j].0@));
                    }
                }
                assert forall|k: Seq<char>| #[trigger] entries_map(s1).dom().contains(k) implies entries_map(s1)[k] == target[k] by {
                    let j = choose|j: int| 0 <= j < s1.len() && s1[j].0@ == k;
                    assert(entries_map(s1)[s1[j].0@] == s1[j].1@);
                    if j != i {
                        assert(s1[j] == s0[j]);
                        assert(m0[s0[j].0@] == s0[j].1@);
                        assert(k != name@);
                    }
                }
                assert(entries_map(s1) =~= target);
            },
            None => {
                assert(m0.get(name@) is None) by {
                    if m0.dom().contains(name@) {
                        let j = choose|j: int| 0 <= j < s0.len() && s0[j].0@ == name@;
                    }
                }
                let mut h = InterfaceHistory { rx_rates: Vec::new(), tx_rates: Vec::new() };
                h.record(rx_rate, tx_rate);
                assert(h.rx_rates@ =~= keep_last(Seq::<u64>::empty().push(rx_rate), HISTORY_LIMIT as nat));
                entries.push((name.clone(), h));
                assert(entries@.drop_last() =~= s0);
            },
        }
        self.entries = entries;
    }

    /// Keeps the histories of the interfaces that `interfaces` names and
    /// drops the others.
    pub fn retain_interfaces(&mut self, interfaces: &[NetworkInterface])
        ensures
            final(self).view() == old(self).view().restrict(
                interface_names(interface_views(interfaces@)),
            ),
    {
        proof {
            use_type_invariant(&*self);
        }
        let ghost names = interface_names(interface_views(interfaces@));
        let mut src: Vec<(String, InterfaceHistory)> = Vec::new();
        std::mem::swap(&mut src, &mut self.entries);
        let ghost s0 = src@;
        let mut dst: Vec<(String, InterfaceHistory)> = Vec::new();
        assert(s0.skip(0) =~= s0);
        assert(entries_map(dst@) =~= entries_map(s0.take(0)).restrict(names));
        while src.len() > 0
            invariant
                entry_names_distinct(s0),
                forall|i: int|
                    0 <= i < s0.len() ==> (#[trigger] s0[i]).1.rx_rates@.len() <= HISTORY_LIMIT
                        && s0[i].1.tx_rates@.len() <= HISTORY_LIMIT,
                names == interface_names(interface_views(interfaces@)),
                src.len() <= s0.len(),
                src@ == s0.skip(s0.len() - src.len()),
                forall|j: int|
                    0 <= j < dst@.len() ==> exists|i: int|
                        0 <= i < s0.len() - src.len() && #[trigger] dst@[j] == s0[i],
                entry_names_distinct(dst@),
                entries_map(dst@) == entries_map(s0.take(s0.len() - src.len())).restrict(names),
            decreases src.len(),
        {
            let ghost k = s0.len() - src.len();
            let item = src.remove(0);
            assert(item == s0[k]);
            assert(src@ =~= s0.skip(k + 1));
            assert(s0.take(k + 1).drop_last() =~= s0.take(k));
            assert(s0.take(k + 1).last() == s0[k]);
            let ghost d0 = dst@;
            if has_interface_named(interfaces, &item.0) {
                dst.push(item);
                assert(dst@.drop_last() =~= d0);
                assert(entry_names_distinct(dst@)) by {
                    assert forall|a: int, b: int| 0 <= a < b < dst@.len() implies #[trigger] dst@[a].0@
                        != #[trigger] dst@[b].0@ by {
                        if b == dst@.len() - 1 {
                            assert(dst@[a] == d0[a]);
                            let i = choose|i: int| 0 <= i < k && #[trigger] d0[a] == s0[i];
                            assert(s0[i].0@ != s0[k].0@);
                        } else {
                            assert(dst@[a] == d0[a] && dst@[b] == d0[b]);
                        }
                    }
                }
                assert forall|j: int| 0 <= j < dst@.len() implies exists|i: int|
                    0 <= i < k + 1 && #[trigger] dst@[j] == s0[i] by {
                    if j < dst@.len() - 1 {
                        assert(dst@[j] == d0[j]);
                        let i = choose|i: int| 0 <= i < k && #[trigger] d0[j] == s0[i];
                    } else {
                        assert(dst@[j] == s0[k]);
                    }
                }
                assert(entries_map(dst@) =~= entries_map(s0.take(k + 1)).restrict(names));
            } else {
                assert(entries_map(dst@) =~= entries_map(s0.take(k + 1)).restrict(names));
            }
        }
        assert(s0.take(s0.len() as int) =~= s0);
        assert forall|j: int| 0 <= j < dst@.len() implies (#[trigger] dst@[j]).1.rx_rates@.len()
            <= HISTORY_LIMIT && dst@[j].1.tx_rates@.len() <= HISTORY_LIMIT by {
            let i = choose|i: int| 0 <= i < s0.len() && #[trigger] dst@[j] == s0[i];
        }
        self.entries = dst;
    }

    fn position_in(&self, entries: &Vec<(String, InterfaceHistory)>, name: &str) -> (r: Option<usize>)
        ensures
            match r {
                Some(i) => i < entries@.len() && entries@[i as int].0@ == name@,
                None => forall|i: int| 0 <= i < entries@.len() ==> entries@[i].0@ != name@,
            },
    {
        for i in 0..entries.len()
            invariant
                forall|j: int| 0 <= j < i ==> entries@[j].0@ != name@,
        {
            if str_eq(entries[i].0.as_str(), name) {
                return Some(i);
            }
        }
        None
    }
}

/// The outputs that a list of entries holds, by source.
pub open spec fn outputs_map(s: Seq<(CommandSourceId, CommandOutput)>) -> Map<
    CommandSourceId,
    CommandOutput,
>
    decreases s.len(),
{
    if s.len() == 0 {
        Map::empty()
    } else {
        outputs_map(s.drop_last()).insert(s.last().0, s.last().1)
    }
}

pub open spec fn sources_distinct(s: Seq<(CommandSourceId, CommandOutput)>) -> bool {
    forall|i: int, j: int| 0 <= i < j < s.len() ==> #[trigger] s[i].0 != #[trigger] s[j].0
}

proof fn lemma_outputs_map(s: Seq<(CommandSourceId, CommandOutput)>)
    requires
        sources_distinct(s),
    ensures
        forall|i: int| 0 <= i < s.len() ==> #[trigger] outputs_map(s).dom().contains(s[i].0)
            && outputs_map(s)[s[i].0] == s[i].1,
        forall|k: CommandSourceId| #[trigger]
            outputs_map(s).dom().contains(k) ==> exists|i: int| 0 <= i < s.len() && s[i].0 == k,
    decreases s.len(),
{
    if s.len() > 0 {
        let t = s.drop_last();
        assert(sources_distinct(t)) by {
            assert forall|i: int, j: int| 0 <= i < j < t.len() implies #[trigger] t[i].0
                != #[trigger] t[j].0 by {
                assert(t[i] == s[i] && t[j] == s[j]);
            }
        }
        lemma_outputs_map(t);
        assert forall|i: int| 0 <= i < s.len() implies #[trigger] outputs_map(s).dom().contains(
            s[i].0,
        ) && outputs_map(s)[s[i].0] == s[i].1 by {
            if i < s.len() - 1 {
                assert(t[i] == s[i]);
                assert(outputs_map(t).dom().contains(t[i].0));
                assert(s[i].0 != s[s.len() - 1].0);
            }
        }
        assert forall|k: CommandSourceId| #[trigger]
            outputs_map(s).dom().contains(k) implies exists|i: int| 0 <= i < s.len() && s[i].0 == k by {
            if k != s.last().0 {
                assert(outputs_map(t).dom().contains(k));
                let i = choose|i: int| 0 <= i < t.len() && t[i].0 == k;
                assert(s[i] == t[i]);
            } else {
                assert(s[s.len() - 1].0 == k);
            }
        }
    }
}

/// The latest output of each command source.
#[derive(Debug)]
pub struct CommandOutputs {
    entries: Vec<(CommandSourceId, CommandOutput)>,
}

impl CommandOutputs {
    #[verifier::type_invariant]
    spec fn wf(self) -> bool {
        sources_distinct(self.entries@)
    }

    /// The outputs by source.
    pub closed spec fn view(&self) -> Map<CommandSourceId, CommandOutput> {
        outputs_map(self.entries@)
    }

    pub fn new() -> (r: Self)
        ensures
            r.view() == Map::<CommandSourceId, CommandOutput>::empty(),
    {
        CommandOutputs { entries: Vec::new() }
    }

    fn position(entries: &Vec<(CommandSourceId, CommandOutput)>, id: CommandSourceId) -> (r: Option<usize>)
        ensures
            match r {
                Some(i) => i < entries@.len() && entries@[i as int].0 == id,
                None => forall|i: int| 0 <= i < entries@.len() ==> entries@[i].0 != id,
            },
    {
        for i in 0..entries.len()
            invariant
                forall|j: int| 0 <= j < i ==> entries@[j].0 != id,
        {
            if entries[i].0 == id {
                return Some(i);
            }
        }
        None
    }

    /// The latest output of `id`, if there is one.
    pub fn get(&self, id: &CommandSourceId) -> (r: Option<&CommandOutput>)
        ensures
            r is Some <==> self.view().dom().contains(*id),
            r matches Some(o) ==> *o == self.view()[*id],
    {
        proof {
            use_type_invariant(self);
            lemma_outputs_map(self.entries@);
        }
        match Self::position(&self.entries, *id) {
            Some(i) => {
                assert(outputs_map(self.entries@).dom().contains(self.entries@[i as int].0));
                Some(&self.entries[i].1)
            },
            None => {
                assert(!self.view().dom().contains(*id)) by {
                    if self.view().dom().contains(*id) {
                        let i = choose|i: int| 0 <= i < self.entries@.len() && self.entries@[i].0 == *id;
                    }
                }
                None
            },
        }
    }

    /// Stores `output` as the latest output of `id` and returns the one it
    /// replaces.
    pub fn insert(&mut self, id: CommandSourceId, output: CommandOutput) -> (r: Option<CommandOutput>)
        ensures
            final(self).view() == old(self).view().insert(id, output),
            r == old(self).view().get(id),
    {
        proof {
            use_type_invariant(&*self);
            lemma_outputs_map(self.entries@);
        }
        let ghost m0 = self.view();
        let mut entries: Vec<(CommandSourceId, CommandOutput)> = Vec::new();
        std::mem::swap(&mut entries, &mut self.entries);
        let ghost s0 = entries@;
        let r = match Self::position(&entries, id) {
            Some(i) => {
                let (k, previous) = entries.remove(i);
                assert(outputs_map(s0).dom().contains(s0[i as int].0));
                entries.insert(i, (k, output));
                let ghost s1 = entries@;
                assert(s1 =~= s0.update(i as int, (id, output)));
                assert(sources_distinct(s1)) by {
                    assert forall|a: int, b: int| 0 <= a < b < s1.len() implies #[trigger] s1[a].0
                        != #[trigger] s1[b].0 by {
                        assert(s1[a].0 == s0[a].0 && s1[b].0 == s0[b].0);
                    }
                }
                proof {
                    lemma_outputs_map(s1);
                }
                let ghost target = m0.insert(id, output);
                assert forall|k: CommandSourceId| #[trigger] outputs_map(s1).dom().contains(k)
                    == target.dom().contains(k) by {
                    if outputs_map(s1).dom().contains(k) {
                        let j = choose|j: int| 0 <= j < s1.len() && s1[j].0 == k;
                        if j != i {
                            assert(s1[j] == s0[j]);
                            assert(m0.dom().contains(s0[j].0));
                        }
                    }
                    if target.dom().contains(k) && k != id {
                        let j = choose|j: int| 0 <= j < s0.len() && s0[j].0 == k;
                        assert(s1[j] == s0[j]);
                        assert(outputs_map(s1).dom().contains(s1[j].0));
                    }
                    assert(outputs_map(s1).dom().contains(s1[i as int].0));
                }
                assert forall|k: CommandSourceId| #[trigger] outputs_map(s1).dom().contains(k) implies outputs_map(
                    s1,
                )[k] == target[k] by {
                    let j = choose|j: int| 0 <= j < s1.len() && s1[j].0 == k;
                    assert(outputs_map(s1)[s1[j].0] == s1[j].1);
                    if j != i {
                        assert(s1[j] == s0[j]);
                        assert(m0[s0[j].0] == s0[j].1);
                    }
                }
                assert(outputs_map(s1) =~= target);
                Some(previous)
            },
            None => {
                assert(m0.get(id) is None) by {
                    if m0.dom().contains(id) {
                        let j = choose|j: int| 0 <= j < s0.len() && s0[j].0 == id;
                    }
                }
                entries.push((id, output));
                assert(entries@.drop_last() =~= s0);
                None
            },
        };
        self.entries = entries;
        r
    }
}

/// A match of the raw-output search: a line and a byte range in it.
#[derive(Clone, Copy, Debug, PartialEq, Eq, Structural)]
pub struct SearchMatch {
    pub line_index: usize,
    pub start_byte: usize,
    pub end_byte: usize,
}

/// The raw-output viewer.
#[derive(Clone, Debug)]
pub struct RawViewerState {
    pub active: bool,
    pub sources: Vec<CommandSourceId>,
    pub selected_index: usize,
    pub scroll: u16,
    pub search_query: String,
    pub search_active: bool,
    pub search_matches: Vec<SearchMatch>,
    pub current_match_index: usize,
}

impl Default for RawViewerState {
    fn default() -> (r: Self)
        ensures
            !r.active,
            r.sources@.len() == 0,
            r.selected_index == 0,
            r.scroll == 0,
            r.search_query@.len() == 0,
            !r.search_active,
            r.search_matches@.len() == 0,
            r.current_match_index == 0,
    {
        RawViewerState {
            active: false,
            sources: Vec::new(),
            selected_index: 0,
            scroll: 0,
            search_query: String::new(),
            search_active: false,
            search_matches: Vec::new(),
            current_match_index: 0,
        }
    }
}

/// The route inspector: its section, the destination to look up, the last
/// lookup, the diagnostics and the route table's filter and order.
#[derive(Clone, Debug)]
pub struct RouteInspectorState {
    pub active_section: RouteInspectorSection,
    pub destination_input: String,
    pub destination_input_active: bool,
    pub latest_path_result: Option<RoutePathResult>,
    pub latest_path_error: Option<String>,
    pub diagnostics: Vec<RouteDiagnostic>,
    pub route_filter: String,
    pub route_filter_active: bool,
    pub sort_column: RouteSortColumn,
}

impl Default for RouteInspectorState {
    fn default() -> (r: Self)
        ensures
            r.active_section == RouteInspectorSection::Summary,
            r.destination_input@ == "8.8.8.8"@,
            !r.destination_input_active,
            r.latest_path_result is None,
            r.latest_path_error is None,
            r.diagnostics@.len() == 0,
            r.route_filter@.len() == 0,
            !r.route_filter_active,
            r.sort_column == RouteSortColumn::Destination,
    {
        RouteInspectorState {
            active_section: RouteInspectorSection::Summary,
            destination_input: owned("8.8.8.8"),
            destination_input_active: false,
            latest_path_result: None,
            latest_path_error: None,
            diagnostics: Vec::new(),
            route_filter: String::new(),
            route_filter_active: false,
            sort_column: RouteSortColumn::Destination,
        }
    }
}

/// The release-notes pop-up.
#[derive(Clone, Copy, Debug, PartialEq, Eq, Structural)]
pub struct ReleaseNotesViewerState {
    pub active: bool,
    pub scroll: u16,
}

impl Default for ReleaseNotesViewerState {
    fn default() -> (r: Self)
        ensures
            !r.active,
            r.scroll == 0,
    {
        ReleaseNotesViewerState { active: false, scroll: 0 }
    }
}

// ---------------------------------------------------------------------------
// Moving through sections and lists
// ---------------------------------------------------------------------------
/// The section after `s` in the inspector's tab order, wrapping around.
pub open spec fn section_after(s: RouteInspectorSection) -> RouteInspectorSection {
    match s {
        RouteInspectorSection::Summary => RouteInspectorSection::PathViewer,
        RouteInspectorSection::PathViewer => RouteInspectorSection::RouteTable,
        RouteInspectorSection::RouteTable => RouteInspectorSection::VpnRoutes,
        RouteInspectorSection::VpnRoutes => RouteInspectorSection::Diagnostics,
        RouteInspectorSection::Diagnostics => RouteInspectorSection::Summary,
    }
}

/// The section before `s`, wrapping around.
pub open spec fn section_before(s: RouteInspectorSection) -> RouteInspectorSection {
    match s {
        RouteInspectorSection::Summary => RouteInspectorSection::Diagnostics,
        RouteInspectorSection::PathViewer => RouteInspectorSection::Summary,
        RouteInspectorSection::RouteTable => RouteInspectorSection::PathViewer,
        RouteInspectorSection::VpnRoutes => RouteInspectorSection::RouteTable,
        RouteInspectorSection::Diagnostics => RouteInspectorSection::VpnRoutes,
    }
}

pub fn next_route_section(s: RouteInspectorSection) -> (r: RouteInspectorSection)
    ensures
        r == section_after(s),
{
    match s {
        RouteInspectorSection::Summary => RouteInspectorSection::PathViewer,
        RouteInspectorSection::PathViewer => RouteInspectorSection::RouteTable,
        RouteInspectorSection::RouteTable => RouteInspectorSection::VpnRoutes,
        RouteInspectorSection::VpnRoutes => RouteInspectorSection::Diagnostics,
        RouteInspectorSection::Diagnostics => RouteInspectorSection::Summary,
    }
}

pub fn previous_route_section(s: RouteInspectorSection) -> (r: RouteInspectorSection)
    ensures
        r == section_before(s),
{
    match s {
        RouteInspectorSection::Summary => RouteInspectorSection::Diagnostics,
        RouteInspectorSection::PathViewer => RouteInspectorSection::Summary,
        RouteInspectorSection::RouteTable => RouteInspectorSection::PathViewer,
        RouteInspectorSection::VpnRoutes => RouteInspectorSection::RouteTable,
        RouteInspectorSection::Diagnostics => RouteInspectorSection::VpnRoutes,
    }
}

/// Stepping forward and then back (or back and then forward) returns to the
/// same section, and five steps forward go all the way round.
pub proof fn lemma_route_sections_cycle(s: RouteInspectorSection)
    ensures
        section_before(section_after(s)) == s,
        section_after(section_before(s)) == s,
        section_after(section_after(section_after(section_after(section_after(s))))) == s,
        section_after(s) != s,
{
}

/// The position after `i` in a list of `len` items, wrapping to the start.
pub open spec fn index_after(i: nat, len: nat) -> nat {
    if len == 0 {
        i
    } else {
        ((i + 1) % len) as nat
    }
}

/// The position before `i`, wrapping to the end.
pub open spec fn index_before(i: nat, len: nat) -> nat {
    if len == 0 {
        i
    } else if i == 0 {
        (len - 1) as nat
    } else {
        (i - 1) as nat
    }
}

pub fn select_next_index(selected: usize, len: usize) -> (r: usize)
    requires
        len == 0 || selected < len,
    ensures
        r == index_after(selected as nat, len as nat),
        len > 0 ==> r < len,
{
    if len > 0 {
        (selected + 1) % len
    } else {
        selected
    }
}

pub fn select_previous_index(selected: usize, len: usize) -> (r: usize)
    requires
        len == 0 || selected < len,
    ensures
        r == index_before(selected as nat, len as nat),
        len > 0 ==> r < len,
{
    if len > 0 {
        if selected == 0 {
            len - 1
        } else {
            selected - 1
        }
    } else {
        selected
    }
}

/// In a non-empty list, moving down then up (or up then down) keeps the
/// selection, and both moves stay inside the list.
pub proof fn lemma_selection_round_trip(i: nat, len: nat)
    requires
        i < len,
    ensures
        index_before(index_after(i, len), len) == i,
        index_after(index_before(i, len), len) == i,
        index_after(i, len) < len,
        index_before(i, len) < len,
{
    if i + 1 < len {
        assert((i + 1) % len == i + 1) by (nonlinear_arith)
            requires
                i + 1 < len,
        ;
    } else {
        assert((i + 1) % len == 0) by (nonlinear_arith)
            requires
                i + 1 == len,
        ;
    }
    if i == 0 {
        assert(((len - 1) + 1) % (len as int) == 0) by (nonlinear_arith)
            requires
                len > 0,
        ;
    } else {
        assert(((i - 1) + 1) % (len as int) == i) by (nonlinear_arith)
            requires
                0 < i < len,
        ;
    }
}

// ---------------------------------------------------------------------------
// Events between two snapshots
// ---------------------------------------------------------------------------
/// An event as plain values: its kind, its severity and its message.
pub type EventView = (NetworkEventKind, EventSeverity, Seq<char>);

pub open spec fn event_views(v: Seq<NetworkEvent>) -> Seq<EventView> {
    v.map_values(|e: NetworkEvent| (e.kind, e.severity, e.message@))
}

/// A new interface: a tunnel connected, a container network appeared, or
/// an interface appeared.
pub open spec fn appeared_event(i: InterfaceView) -> EventView {
    match i.network_kind {
        NetworkKind::Vpn => (
            NetworkEventKind::VpnConnected,
            EventSeverity::Info,
            i.name + " connected (VPN appeared)"@,
        ),
        NetworkKind::Container => (
            NetworkEventKind::ContainerNetworkAppeared,
            EventSeverity::Info,
            i.name + " appeared (Docker/Bridge)"@,
        ),
        _ => (NetworkEventKind::InterfaceAppeared, EventSeverity::Info, i.name + " appeared"@),
    }
}

/// An interface that is gone.
pub open spec fn removed_event(i: InterfaceView) -> EventView {
    match i.network_kind {
        NetworkKind::Vpn => (
            NetworkEventKind::VpnDisconnected,
            EventSeverity::Warning,
            i.name + " disconnected (VPN disappeared)"@,
        ),
        NetworkKind::Container => (
            NetworkEventKind::ContainerNetworkRemoved,
            EventSeverity::Info,
            i.name + " removed (Docker/Bridge)"@,
        ),
        _ => (NetworkEventKind::InterfaceRemoved, EventSeverity::Warning, i.name + " disappeared"@),
    }
}

pub open spec fn status_word(s: InterfaceStatus) -> Seq<char> {
    match s {
        InterfaceStatus::Up => "up"@,
        InterfaceStatus::Down => "down"@,
    }
}

/// The kind and severity of a status change, by the new status and the
/// kind of network.
pub open spec fn status_change_kind(i: InterfaceView) -> (NetworkEventKind, EventSeverity) {
    match i.status {
        InterfaceStatus::Up => match i.network_kind {
            NetworkKind::Vpn => (NetworkEventKind::VpnConnected, EventSeverity::Info),
            NetworkKind::Container => (NetworkEventKind::ContainerNetworkAppeared, EventSeverity::Info),
            _ => (NetworkEventKind::InterfaceUp, EventSeverity::Info),
        },
        InterfaceStatus::Down => match i.network_kind {
            NetworkKind::Vpn => (NetworkEventKind::VpnDisconnected, EventSeverity::Warning),
            NetworkKind::Container => (NetworkEventKind::ContainerNetworkRemoved, EventSeverity::Info),
            _ => (NetworkEventKind::InterfaceDown, EventSeverity::Warning),
        },
    }
}

pub open spec fn status_events(prev: InterfaceView, cur: InterfaceView) -> Seq<EventView> {
    if prev.status == cur.status {
        Seq::empty()
    } else {
        let (kind, severity) = status_change_kind(cur);
        let message = match kind {
            NetworkEventKind::VpnConnected => cur.name + " connected"@,
            NetworkEventKind::VpnDisconnected => cur.name + " disconnected"@,
            NetworkEventKind::ContainerNetworkAppeared => cur.name + " appeared"@,
            NetworkEventKind::ContainerNetworkRemoved => cur.name + " removed"@,
            _ => cur.name + " status changed: "@ + status_word(prev.status) + " -> "@ + status_word(
                cur.status,
            ),
        };
        seq![(kind, severity, message)]
    }
}

pub open spec fn address_values(addrs: Seq<crate::model::AddressView>) -> Seq<Seq<char>> {
    addrs.map_values(|a: crate::model::AddressView| a.value)
}

/// One event per value of `xs` that `ys` does not hold, in order.
pub open spec fn missing_from(
    xs: Seq<Seq<char>>,
    ys: Seq<Seq<char>>,
    kind: NetworkEventKind,
    prefix: Seq<char>,
) -> Seq<EventView>
    decreases xs.len(),
{
    if xs.len() == 0 {
        Seq::empty()
    } else {
        missing_from(xs.drop_last(), ys, kind, prefix) + if ys.contains(xs.last()) {
            Seq::empty()
        } else {
            seq![(kind, EventSeverity::Info, prefix + xs.last())]
        }
    }
}

/// The address events of one family: a single address that changed is one
/// change event; otherwise each new address is added and each lost one is
/// removed.
pub open spec fn address_events(
    name: Seq<char>,
    prev: Seq<Seq<char>>,
    cur: Seq<Seq<char>>,
    v6: bool,
) -> Seq<EventView> {
    let family = if v6 {
        "IPv6 "@
    } else {
        "IPv4 "@
    };
    let changed = if v6 {
        NetworkEventKind::Ipv6Changed
    } else {
        NetworkEventKind::Ipv4Changed
    };
    let added = if v6 {
        NetworkEventKind::Ipv6Added
    } else {
        NetworkEventKind::Ipv4Added
    };
    let removed = if v6 {
        NetworkEventKind::Ipv6Removed
    } else {
        NetworkEventKind::Ipv4Removed
    };
    if prev.len() == 1 && cur.len() == 1 && prev[0] != cur[0] {
        seq![(changed, EventSeverity::Info, name + ": "@ + prev[0] + " -> "@ + cur[0])]
    } else {
        missing_from(cur, prev, added, name + ": added "@ + family) + missing_from(
            prev,
            cur,
            removed,
            name + ": removed "@ + family,
        )
    }
}

/// The events for the values of `xs` that `ys` lacks: one each, in the
/// order of `xs`.
pub proof fn lemma_missing_from_is_filter(
    xs: Seq<Seq<char>>,
    ys: Seq<Seq<char>>,
    kind: NetworkEventKind,
    prefix: Seq<char>,
)
    ensures
        missing_from(xs, ys, kind, prefix) == xs.filter(|x: Seq<char>| !ys.contains(x)).map_values(
            |x: Seq<char>| (kind, EventSeverity::Info, prefix + x),
        ),
    decreases xs.len(),
{
    reveal(Seq::filter);
    let pred = |x: Seq<char>| !ys.contains(x);
    let f = |x: Seq<char>| (kind, EventSeverity::Info, prefix + x);
    if xs.len() == 0 {
        assert(xs.filter(pred) =~= Seq::<Seq<char>>::empty());
        assert(missing_from(xs, ys, kind, prefix) =~= xs.filter(pred).map_values(f));
    } else {
        lemma_missing_from_is_filter(xs.drop_last(), ys, kind, prefix);
        let sub = xs.drop_last().filter(pred);
        if pred(xs.last()) {
            assert(xs.filter(pred) == sub.push(xs.last()));
            assert(sub.push(xs.last()).map_values(f) =~= sub.map_values(f) + seq![f(xs.last())]);
        } else {
            assert(xs.filter(pred) == sub);
            assert(missing_from(xs, ys, kind, prefix) =~= sub.map_values(f));
        }
    }
}

proof fn lemma_nothing_missing_from(xs: Seq<Seq<char>>, ys: Seq<Seq<char>>, kind: NetworkEventKind, prefix: Seq<char>)
    requires
        forall|i: int| 0 <= i < xs.len() ==> ys.contains(#[trigger] xs[i]),
    ensures
        missing_from(xs, ys, kind, prefix).len() == 0,
    decreases xs.len(),
{
    if xs.len() > 0 {
        assert forall|i: int| 0 <= i < xs.drop_last().len() implies ys.contains(#[trigger] xs.drop_last()[i]) by {
            assert(xs.drop_last()[i] == xs[i]);
        }
        lemma_nothing_missing_from(xs.drop_last(), ys, kind, prefix);
        assert(ys.contains(xs[xs.len() - 1]));
    }
}

/// The IPv4 events of an interface present in both snapshots, whose IPv4
/// addresses were `pv` and are `cv`: a single address replaced by another
/// is one change event; otherwise one "added" event for each address of
/// `cv` that `pv` lacks, in the order of `cv`, then one "removed" event for
/// each address of `pv` that `cv` lacks, in the order of `pv`; none at all
/// when the addresses are the same.
pub proof fn lemma_ipv4_event_rule(name: Seq<char>, pv: Seq<Seq<char>>, cv: Seq<Seq<char>>)
    ensures
        pv.len() == 1 && cv.len() == 1 && pv[0] != cv[0] ==> address_events(name, pv, cv, false)
            == seq![(NetworkEventKind::Ipv4Changed, EventSeverity::Info, name + ": "@ + pv[0] + " -> "@ + cv[0])],
        !(pv.len() == 1 && cv.len() == 1 && pv[0] != cv[0]) ==> address_events(name, pv, cv, false)
            == cv.filter(|x: Seq<char>| !pv.contains(x)).map_values(
            |x: Seq<char>| (NetworkEventKind::Ipv4Added, EventSeverity::Info, name + ": added "@ + "IPv4 "@ + x),
        ) + pv.filter(|x: Seq<char>| !cv.contains(x)).map_values(
            |x: Seq<char>| (NetworkEventKind::Ipv4Removed, EventSeverity::Info, name + ": removed "@ + "IPv4 "@ + x),
        ),
        pv == cv ==> address_events(name, pv, cv, false).len() == 0,
{
    lemma_missing_from_is_filter(cv, pv, NetworkEventKind::Ipv4Added, name + ": added "@ + "IPv4 "@);
    lemma_missing_from_is_filter(pv, cv, NetworkEventKind::Ipv4Removed, name + ": removed "@ + "IPv4 "@);
    if pv == cv {
        assert forall|i: int| 0 <= i < pv.len() implies cv.contains(#[trigger] pv[i]) by {
            assert(cv[i] == pv[i]);
        }
        lemma_nothing_missing_from(pv, cv, NetworkEventKind::Ipv4Removed, name + ": removed "@ + "IPv4 "@);
        lemma_nothing_missing_from(cv, pv, NetworkEventKind::Ipv4Added, name + ": added "@ + "IPv4 "@);
    }
}

/// The events for one interface of the new snapshot, given the interfaces
/// of the old one.
pub open spec fn interface_events(previous: Seq<InterfaceView>, cur: InterfaceView) -> Seq<
    EventView,
> {
    match crate::route_inspector::diagnostics::last_named(previous, cur.name) {
        None => seq![appeared_event(cur)] + missing_from(
            address_values(cur.ipv4),
            Seq::empty(),
            NetworkEventKind::Ipv4Added,
            cur.name + ": added IPv4 "@,
        ) + missing_from(
            address_values(cur.ipv6),
            Seq::empty(),
            NetworkEventKind::Ipv6Added,
            cur.name + ": added IPv6 "@,
        ),
        Some(k) => {
            let prev = previous[k];
            status_events(prev, cur) + address_events(
                cur.name,
                address_values(prev.ipv4),
                address_values(cur.ipv4),
                false,
            ) + address_events(cur.name, address_values(prev.ipv6), address_values(cur.ipv6), true)
        },
    }
}

pub open spec fn current_events(previous: Seq<InterfaceView>, current: Seq<InterfaceView>) -> Seq<
    EventView,
>
    decreases current.len(),
{
    if current.len() == 0 {
        Seq::empty()
    } else {
        current_events(previous, current.drop_last()) + interface_events(previous, current.last())
    }
}

pub open spec fn removal_events(previous: Seq<InterfaceView>, current: Seq<InterfaceView>) -> Seq<
    EventView,
>
    decreases previous.len(),
{
    if previous.len() == 0 {
        Seq::empty()
    } else {
        removal_events(previous.drop_last(), current) + if crate::route_inspector::diagnostics::last_named(
            current,
            previous.last().name,
        ) is None {
            seq![removed_event(previous.last())]
        } else {
            Seq::empty()
        }
    }
}

/// What changed between two snapshots: for each current interface, in
/// order, its appearance or its status and address changes; then each
/// previous interface that is gone.
pub open spec fn snapshot_events(previous: Seq<InterfaceView>, current: Seq<InterfaceView>) -> Seq<
    EventView,
> {
    current_events(previous, current) + removal_events(previous, current)
}

fn push_event_view(events: &mut Vec<NetworkEvent>, kind: NetworkEventKind, severity: EventSeverity, message: String)
    ensures
        event_views(final(events)@) == event_views(old(events)@).push((kind, severity, message@)),
{
    let ghost before = events@;
    let e = NetworkEvent::new(kind, severity, message);
    events.push(e);
    assert(event_views(events@) =~= event_views(before).push((kind, severity, message@)));
}

fn values_of(addrs: &Vec<InterfaceAddress>) -> (r: Vec<String>)
    ensures
        string_views(r@) == address_values(crate::model::address_views(addrs@)),
{
    let mut r: Vec<String> = Vec::new();
    for i in 0..addrs.len()
        invariant
            string_views(r@) == address_values(crate::model::address_views(addrs@.take(i as int))),
    {
        let ghost before = r@;
        r.push(addrs[i].value.clone());
        proof {
            crate::text::lemma_string_views_push(before, addrs@[i as int].value);
        }
        assert(address_values(crate::model::address_views(addrs@.take(i + 1))) =~= address_values(
            crate::model::address_views(addrs@.take(i as int)),
        ).push(addrs@[i as int].value@));
    }
    assert(addrs@.take(addrs.len() as int) =~= addrs@);
    r
}

fn contains_value(values: &Vec<String>, v: &String) -> (r: bool)
    ensures
        r == string_views(values@).contains(v@),
{
    for i in 0..values.len()
        invariant
            forall|j: int| 0 <= j < i ==> values@[j]@ != v@,
    {
        if str_eq(values[i].as_str(), v.as_str()) {
            assert(string_views(values@)[i as int] == v@);
            return true;
        }
    }
    assert(!string_views(values@).contains(v@)) by {
        if string_views(values@).contains(v@) {
            let k = choose|k: int| 0 <= k < string_views(values@).len() && string_views(values@)[k] == v@;
            assert(values@[k]@ == v@);
        }
    }
    false
}

fn push_missing(
    events: &mut Vec<NetworkEvent>,
    xs: &Vec<String>,
    ys: &Vec<String>,
    kind: NetworkEventKind,
    prefix: &String,
)
    ensures
        event_views(final(events)@) == event_views(old(events)@) + missing_from(
            string_views(xs@),
            string_views(ys@),
            kind,
            prefix@,
        ),
{
    let ghost start = event_views(events@);
    let ghost xv = string_views(xs@);
    let ghost yv = string_views(ys@);
    assert(start =~= start + missing_from(xv.take(0), yv, kind, prefix@));
    for i in 0..xs.len()
        invariant
            xv == string_views(xs@),
            yv == string_views(ys@),
            event_views(events@) == start + missing_from(xv.take(i as int), yv, kind, prefix@),
    {
        assert(xv.take(i + 1).drop_last() =~= xv.take(i as int));
        assert(xv.take(i + 1).last() == xs@[i as int]@);
        if !contains_value(ys, &xs[i]) {
            let message = concat2(prefix.as_str(), xs[i].as_str());
            push_event_view(events, kind, EventSeverity::Info, message);
        }
        assert(event_views(events@) =~= start + missing_from(xv.take(i + 1), yv, kind, prefix@));
    }
    assert(xv.take(xs.len() as int) =~= xv);
}

fn status_label(status: InterfaceStatus) -> (r: &'static str)
    ensures
        r@ == status_word(status),
{
    match status {
        InterfaceStatus::Up => "up",
        InterfaceStatus::Down => "down",
    }
}

fn push_status_events(events: &mut Vec<NetworkEvent>, prev: &NetworkInterface, cur: &NetworkInterface)
    ensures
        event_views(final(events)@) == event_views(old(events)@) + status_events(prev@, cur@),
{
    if prev.status == cur.status {
        assert(event_views(events@) =~= event_views(events@) + status_events(prev@, cur@));
        return;
    }
    let (kind, severity) = match cur.status {
        InterfaceStatus::Up => match cur.network_kind {
            NetworkKind::Vpn => (NetworkEventKind::VpnConnected, EventSeverity::Info),
            NetworkKind::Container => (NetworkEventKind::ContainerNetworkAppeared, EventSeverity::Info),
            _ => (NetworkEventKind::InterfaceUp, EventSeverity::Info),
        },
        InterfaceStatus::Down => match cur.network_kind {
            NetworkKind::Vpn => (NetworkEventKind::VpnDisconnected, EventSeverity::Warning),
            NetworkKind::Container => (NetworkEventKind::ContainerNetworkRemoved, EventSeverity::Info),
            _ => (NetworkEventKind::InterfaceDown, EventSeverity::Warning),
        },
    };
    let message = match kind {
        NetworkEventKind::VpnConnected => concat2(cur.name.as_str(), " connected"),
        NetworkEventKind::VpnDisconnected => concat2(cur.name.as_str(), " disconnected"),
        NetworkEventKind::ContainerNetworkAppeared => concat2(cur.name.as_str(), " appeared"),
        NetworkEventKind::ContainerNetworkRemoved => concat2(cur.name.as_str(), " removed"),
        _ => {
            let mut m = concat2(cur.name.as_str(), " status changed: ");
            push_str(&mut m, status_label(prev.status));
            push_str(&mut m, " -> ");
            push_str(&mut m, status_label(cur.status));
            m
        },
    };
    let ghost before = event_views(events@);
    push_event_view(events, kind, severity, message);
    assert(event_views(events@) =~= before + status_events(prev@, cur@));
}

fn push_address_events(
    events: &mut Vec<NetworkEvent>,
    name: &String,
    prev: &Vec<String>,
    cur: &Vec<String>,
    v6: bool,
)
    ensures
        event_views(final(events)@) == event_views(old(events)@) + address_events(
            name@,
            string_views(prev@),
            string_views(cur@),
            v6,
        ),
{
    let ghost before = event_views(events@);
    let family = if v6 {
        "IPv6 "
    } else {
        "IPv4 "
    };
    if prev.len() == 1 && cur.len() == 1 && !str_eq(prev[0].as_str(), cur[0].as_str()) {
        let kind = if v6 {
            NetworkEventKind::Ipv6Changed
        } else {
            NetworkEventKind::Ipv4Changed
        };
        let mut m = concat2(name.as_str(), ": ");
        push_str(&mut m, prev[0].as_str());
        push_str(&mut m, " -> ");
        push_str(&mut m, cur[0].as_str());
        push_event_view(events, kind, EventSeverity::Info, m);
        assert(string_views(prev@)[0] == prev@[0]@ && string_views(cur@)[0] == cur@[0]@);
        assert(event_views(events@) =~= before + address_events(
            name@,
            string_views(prev@),
            string_views(cur@),
            v6,
        ));
    } else {
        proof {
            if prev.len() == 1 && cur.len() == 1 {
                assert(string_views(prev@)[0] == prev@[0]@ && string_views(cur@)[0] == cur@[0]@);
            }
        }
        let added = if v6 {
            NetworkEventKind::Ipv6Added
        } else {
            NetworkEventKind::Ipv4Added
        };
        let removed = if v6 {
            NetworkEventKind::Ipv6Removed
        } else {
            NetworkEventKind::Ipv4Removed
        };
        let added_prefix = concat3(name.as_str(), ": added ", family);
        let removed_prefix = concat3(name.as_str(), ": removed ", family);
        push_missing(events, cur, prev, added, &added_prefix);
        push_missing(events, prev, cur, removed, &removed_prefix);
        assert(event_views(events@) =~= before + address_events(
            name@,
            string_views(prev@),
            string_views(cur@),
            v6,
        ));
    }
}

#[verifier::spinoff_prover]
#[verifier::rlimit(40)]
fn push_interface_events(events: &mut Vec<NetworkEvent>, previous: &[NetworkInterface], cur: &NetworkInterface)
    ensures
        event_views(final(events)@) == event_views(old(events)@) + interface_events(
            interface_views(previous@),
            cur@,
        ),
{
    let ghost before = event_views(events@);
    match crate::route_inspector::diagnostics::find_last_named(previous, &cur.name) {
        None => {
            let (kind, severity, message) = match cur.network_kind {
                NetworkKind::Vpn => (
                    NetworkEventKind::VpnConnected,
                    EventSeverity::Info,
                    concat2(cur.name.as_str(), " connected (VPN appeared)"),
                ),
                NetworkKind::Container => (
                    NetworkEventKind::ContainerNetworkAppeared,
                    EventSeverity::Info,
                    concat2(cur.name.as_str(), " appeared (Docker/Bridge)"),
                ),
                _ => (
                    NetworkEventKind::InterfaceAppeared,
                    EventSeverity::Info,
                    concat2(cur.name.as_str(), " appeared"),
                ),
            };
            push_event_view(events, kind, severity, message);
            let none: Vec<String> = Vec::new();
            assert(string_views(none@) =~= Seq::<Seq<char>>::empty());
            let v4 = values_of(&cur.ipv4);
            let v6 = values_of(&cur.ipv6);
            push_missing(events, &v4, &none, NetworkEventKind::Ipv4Added, &concat2(cur.name.as_str(), ": added IPv4 "));
            push_missing(events, &v6, &none, NetworkEventKind::Ipv6Added, &concat2(cur.name.as_str(), ": added IPv6 "));
            assert(event_views(events@) =~= before + interface_events(interface_views(previous@), cur@));
        },
        Some(k) => {
            let prev = &previous[k];
            assert(interface_views(previous@)[k as int] == prev@);
            push_status_events(events, prev, cur);
            let p4 = values_of(&prev.ipv4);
            let c4 = values_of(&cur.ipv4);
            push_address_events(events, &cur.name, &p4, &c4, false);
            let p6 = values_of(&prev.ipv6);
            let c6 = values_of(&cur.ipv6);
            push_address_events(events, &cur.name, &p6, &c6, true);
            assert(event_views(events@) =~= before + interface_events(interface_views(previous@), cur@));
        },
    }
}

/// The events between two consecutive snapshots of the interfaces.
pub fn generate_interface_events(previous: &[NetworkInterface], current: &[NetworkInterface]) -> (r:
    Vec<NetworkEvent>)
    ensures
        event_views(r@) == snapshot_events(interface_views(previous@), interface_views(current@)),
{
    let ghost pv = interface_views(previous@);
    let ghost cv = interface_views(current@);
    let mut events: Vec<NetworkEvent> = Vec::new();
    assert(event_views(events@) =~= current_events(pv, cv.take(0)));
    for i in 0..current.len()
        invariant
            pv == interface_views(previous@),
            cv == interface_views(current@),
            event_views(events@) == current_events(pv, cv.take(i as int)),
    {
        assert(cv.take(i + 1).drop_last() =~= cv.take(i as int));
        assert(cv.take(i + 1).last() == current@[i as int]@);
        push_interface_events(&mut events, previous, &current[i]);
    }
    assert(cv.take(current.len() as int) =~= cv);
    let ghost after_current = event_views(events@);
    assert(after_current =~= after_current + removal_events(pv.take(0), cv));
    for i in 0..previous.len()
        invariant
            pv == interface_views(previous@),
            cv == interface_views(current@),
            event_views(events@) == after_current + removal_events(pv.take(i as int), cv),
    {
        assert(pv.take(i + 1).drop_last() =~= pv.take(i as int));
        assert(pv.take(i + 1).last() == previous@[i as int]@);
        let ghost before = event_views(events@);
        let p = &previous[i];
        if crate::route_inspector::diagnostics::find_last_named(current, &p.name).is_none() {
            let (kind, severity, message) = match p.network_kind {
                NetworkKind::Vpn => (
                    NetworkEventKind::VpnDisconnected,
                    EventSeverity::Warning,
                    concat2(p.name.as_str(), " disconnected (VPN disappeared)"),
                ),
                NetworkKind::Container => (
                    NetworkEventKind::ContainerNetworkRemoved,
                    EventSeverity::Info,
                    concat2(p.name.as_str(), " removed (Docker/Bridge)"),
                ),
                _ => (
                    NetworkEventKind::InterfaceRemoved,
                    EventSeverity::Warning,
                    concat2(p.name.as_str(), " disappeared"),
                ),
            };
            push_event_view(&mut events, kind, severity, message);
        }
        assert(event_views(events@) =~= after_current + removal_events(pv.take(i + 1), cv));
    }
    assert(pv.take(previous.len() as int) =~= pv);
    events
}

/// How many events the timeline keeps.
pub const EVENT_LIMIT: usize = 100;

/// Appends events to the timeline, which keeps its last hundred.
pub fn push_events_bounded(events: &mut Vec<NetworkEvent>, new_events: Vec<NetworkEvent>)
    ensures
        final(events)@ == keep_last(old(events)@ + new_events@, EVENT_LIMIT as nat),
        final(events)@.len() <= EVENT_LIMIT || final(events)@.len() == old(events)@.len() + new_events@.len(),
{
    let ghost start = events@;
    let ghost added = new_events@;
    let mut new_events = new_events;
    events.append(&mut new_events);
    assert(events@ =~= start + added);
    if events.len() > EVENT_LIMIT {
        let overflow = events.len() - EVENT_LIMIT;
        let ghost all = events@;
        let kept = events.split_off(overflow);
        *events = kept;
        assert(events@ =~= all.skip(overflow as int));
    }
}

// ---------------------------------------------------------------------------
// No change, no events
// ---------------------------------------------------------------------------
/// No two interfaces share a name.
pub open spec fn names_distinct(s: Seq<InterfaceView>) -> bool {
    forall|i: int, j: int| 0 <= i < j < s.len() ==> #[trigger] s[i].name != #[trigger] s[j].name
}

proof fn lemma_last_named_finds(s: Seq<InterfaceView>, i: int)
    requires
        names_distinct(s),
        0 <= i < s.len(),
    ensures
        crate::route_inspector::diagnostics::last_named(s, s[i].name) == Some(i),
    decreases s.len(),
{
    if i < s.len() - 1 {
        assert(s[i].name != s[s.len() - 1].name);
        assert(s.drop_last()[i] == s[i]);
        assert(names_distinct(s.drop_last()));
        lemma_last_named_finds(s.drop_last(), i);
    }
}

proof fn lemma_nothing_missing(
    xs: Seq<Seq<char>>,
    ys: Seq<Seq<char>>,
    kind: NetworkEventKind,
    prefix: Seq<char>,
)
    requires
        forall|k: int| 0 <= k < xs.len() ==> ys.contains(#[trigger] xs[k]),
    ensures
        missing_from(xs, ys, kind, prefix).len() == 0,
    decreases xs.len(),
{
    if xs.len() > 0 {
        assert(ys.contains(xs[xs.len() - 1]));
        assert forall|k: int| 0 <= k < xs.drop_last().len() implies ys.contains(
            #[trigger] xs.drop_last()[k],
        ) by {
            assert(xs.drop_last()[k] == xs[k]);
        }
        lemma_nothing_missing(xs.drop_last(), ys, kind, prefix);
    }
}

proof fn lemma_same_addresses(name: Seq<char>, vals: Seq<Seq<char>>, v6: bool)
    ensures
        address_events(name, vals, vals, v6).len() == 0,
{
    assert forall|k: int| 0 <= k < vals.len() implies vals.contains(#[trigger] vals[k]) by {}
    let family = if v6 {
        "IPv6 "@
    } else {
        "IPv4 "@
    };
    let added = if v6 {
        NetworkEventKind::Ipv6Added
    } else {
        NetworkEventKind::Ipv4Added
    };
    let removed = if v6 {
        NetworkEventKind::Ipv6Removed
    } else {
        NetworkEventKind::Ipv4Removed
    };
    lemma_nothing_missing(vals, vals, added, name + ": added "@ + family);
    lemma_nothing_missing(vals, vals, removed, name + ": removed "@ + family);
}

proof fn lemma_unchanged_prefix(s: Seq<InterfaceView>, k: int)
    requires
        names_distinct(s),
        0 <= k <= s.len(),
    ensures
        current_events(s, s.take(k)).len() == 0,
    decreases k,
{
    if k > 0 {
        lemma_unchanged_prefix(s, k - 1);
        assert(s.take(k).drop_last() =~= s.take(k - 1));
        let cur = s[k - 1];
        assert(s.take(k).last() == cur);
        lemma_last_named_finds(s, k - 1);
        lemma_same_addresses(cur.name, address_values(cur.ipv4), false);
        lemma_same_addresses(cur.name, address_values(cur.ipv6), true);
        assert(interface_events(s, cur).len() == 0);
    }
}

proof fn lemma_nothing_removed(prev: Seq<InterfaceView>, s: Seq<InterfaceView>)
    requires
        names_distinct(s),
        forall|i: int| 0 <= i < prev.len() ==> s.contains(#[trigger] prev[i]),
    ensures
        removal_events(prev, s).len() == 0,
    decreases prev.len(),
{
    if prev.len() > 0 {
        let p = prev.last();
        assert(s.contains(prev[prev.len() - 1]));
        let j = choose|j: int| 0 <= j < s.len() && s[j] == p;
        lemma_last_named_finds(s, j);
        assert forall|i: int| 0 <= i < prev.drop_last().len() implies s.contains(
            #[trigger] prev.drop_last()[i],
        ) by {
            assert(prev.drop_last()[i] == prev[i]);
        }
        lemma_nothing_removed(prev.drop_last(), s);
    }
}

/// Two equal snapshots whose interface names are distinct give no events.
pub proof fn lemma_unchanged_snapshot_has_no_events(s: Seq<InterfaceView>)
    requires
        names_distinct(s),
    ensures
        snapshot_events(s, s).len() == 0,
{
    lemma_unchanged_prefix(s, s.len() as int);
    assert(s.take(s.len() as int) =~= s);
    assert forall|i: int| 0 <= i < s.len() implies s.contains(#[trigger] s[i]) by {}
    lemma_nothing_removed(s, s);
}

/// An interface of the new snapshot whose name the old one lacks is
/// announced: its events, which follow those of the interfaces before it,
/// start with its appearance.
pub proof fn lemma_new_interface_is_announced(previous: Seq<InterfaceView>, current: Seq<InterfaceView>, i: int)
    requires
        0 <= i < current.len(),
        crate::route_inspector::diagnostics::last_named(previous, current[i].name) is None,
    ensures
        current_events(previous, current.take(i + 1)) == current_events(previous, current.take(i))
            + interface_events(previous, current[i]),
        interface_events(previous, current[i])[0] == appeared_event(current[i]),
{
    assert(current.take(i + 1).drop_last() =~= current.take(i));
    assert(current.take(i + 1).last() == current[i]);
}

// ---------------------------------------------------------------------------
// The application state
// ---------------------------------------------------------------------------
/// A row of the list that the current view shows.
#[derive(Clone, Debug)]
pub enum NavigationItem {
    Interface { name: String, associated_ip: Option<String> },
    SubnetHeader(Subnet),
    Connection {
        proto: String,
        local: String,
        foreign: String,
        state: Option<String>,
        index: usize,
    },
    ListeningPort {
        proto: String,
        port: String,
        command: String,
        pid: String,
        user: String,
        index: usize,
    },
    Event {
        index: usize,
        kind: NetworkEventKind,
        timestamp: std::time::SystemTime,
        message: String,
    },
    Route { destination: String, gateway: String, interface: String, index: usize },
}

/// Everything the interface shows apart from the terminal itself: the last
/// two snapshots, the current view and its list, the selection, the
/// timeline, the traffic histories, the raw command outputs and the state
/// of the pop-ups, the route inspector and the updater.
#[derive(Debug)]
pub struct App {
    pub current_snapshot: Option<NetworkSnapshot>,
    pub previous_snapshot: Option<NetworkSnapshot>,
    pub selected_index: usize,
    pub recent_events: Vec<NetworkEvent>,
    pub show_all: bool,
    pub view_mode: ViewMode,
    pub navigation_items: Vec<NavigationItem>,
    pub traffic_history: TrafficHistory,
    pub details_scroll: u16,
    pub port_filter: String,
    pub port_filter_active: bool,
    pub current_public_ip_info: Option<PublicIpInfo>,
    pub command_outputs: CommandOutputs,
    pub raw_viewer: RawViewerState,
    pub help_visible: bool,
    pub update_status: UpdateStatus,
    pub pending_update: Option<AvailableUpdate>,
    pub attempted_update_version: Option<String>,
    pub release_notes_viewer: ReleaseNotesViewerState,
    pub route_inspector: RouteInspectorState,
}

impl Default for App {
    fn default() -> (r: Self)
        ensures
            r.current_snapshot is None,
            r.previous_snapshot is None,
            r.selected_index == 0,
            r.recent_events@.len() == 0,
            !r.show_all,
            r.view_mode == ViewMode::Interface,
            r.navigation_items@.len() == 0,
            r.traffic_history.view() == Map::<Seq<char>, (Seq<u64>, Seq<u64>)>::empty(),
            r.details_scroll == 0,
            r.port_filter@.len() == 0,
            !r.port_filter_active,
            r.current_public_ip_info is None,
            r.command_outputs.view() == Map::<CommandSourceId, CommandOutput>::empty(),
            !r.raw_viewer.active,
            r.raw_viewer.sources@.len() == 0,
            r.raw_viewer.search_query@.len() == 0,
            r.raw_viewer.search_matches@.len() == 0,
            !r.help_visible,
            r.update_status is Idle,
            r.pending_update is None,
            r.attempted_update_version is None,
            !r.release_notes_viewer.active,
            r.route_inspector.active_section == RouteInspectorSection::Summary,
            r.route_inspector.destination_input@ == "8.8.8.8"@,
            r.route_inspector.diagnostics@.len() == 0,
            r.route_inspector.route_filter@.len() == 0,
            !r.route_inspector.route_filter_active,
            r.route_inspector.sort_column == RouteSortColumn::Destination,
    {
        App {
            current_snapshot: None,
            previous_snapshot: None,
            selected_index: 0,
            recent_events: Vec::new(),
            show_all: false,
            view_mode: ViewMode::Interface,
            navigation_items: Vec::new(),
            traffic_history: TrafficHistory::new(),
            details_scroll: 0,
            port_filter: String::new(),
            port_filter_active: false,
            current_public_ip_info: None,
            command_outputs: CommandOutputs::new(),
            raw_viewer: RawViewerState::default(),
            help_visible: false,
            update_status: UpdateStatus::default(),
            pending_update: None,
            attempted_update_version: None,
            release_notes_viewer: ReleaseNotesViewerState::default(),
            route_inspector: RouteInspectorState::default(),
        }
    }
}

/// The interface name that a row shows, if it is an interface row.
pub open spec fn item_interface_name(item: NavigationItem) -> Option<Seq<char>> {
    match item {
        NavigationItem::Interface { name, .. } => Some(name@),
        _ => None,
    }
}

/// The interface name of the selected row, if the selection is an
/// interface row.
pub open spec fn selected_name(items: Seq<NavigationItem>, index: int) -> Option<Seq<char>> {
    if 0 <= index < items.len() {
        item_interface_name(items[index])
    } else {
        None
    }
}

/// What switching to view `mode` does: nothing when it is the current
/// view; otherwise the details scroll back, the ports and route filters are
/// cleared, the rows are rebuilt and the selected interface stays selected
/// where it can; where it cannot, the first row is selected.
pub open spec fn view_mode_effect(old: App, mode: ViewMode, new: App) -> bool {
    if old.view_mode == mode {
        new == old
    } else {
        let mid = App {
            view_mode: mode,
            details_scroll: 0,
            port_filter: new.port_filter,
            port_filter_active: false,
            route_inspector: RouteInspectorState {
                route_filter: new.route_inspector.route_filter,
                route_filter_active: false,
                ..old.route_inspector
            },
            ..old
        };
        &&& new.port_filter@.len() == 0
        &&& new.route_inspector.route_filter@.len() == 0
        &&& rows_for(mid, item_views(new.navigation_items@))
        &&& new.selected_index == restored_index(
            new.navigation_items@,
            selected_name(old.navigation_items@, old.selected_index as int),
            0,
        )
        &&& new == (App { navigation_items: new.navigation_items, selected_index: new.selected_index, ..mid })
    }
}

/// The state after moving the selection one row down, wrapping to the top.
pub open spec fn selected_next(app: App) -> App {
    if app.navigation_items@.len() > 0 {
        App {
            selected_index: ((app.selected_index + 1) % (app.navigation_items@.len() as int)) as usize,
            details_scroll: 0,
            ..app
        }
    } else {
        app
    }
}

/// The state after moving the selection one row up, wrapping to the bottom.
pub open spec fn selected_previous(app: App) -> App {
    if app.navigation_items@.len() > 0 {
        App {
            selected_index: if app.selected_index == 0 {
                (app.navigation_items@.len() - 1) as usize
            } else {
                (app.selected_index - 1) as usize
            },
            details_scroll: 0,
            ..app
        }
    } else {
        app
    }
}

/// The state after moving to the next (or previous) inspector section.
pub open spec fn section_moved(app: App, forward: bool) -> App {
    App {
        route_inspector: RouteInspectorState {
            active_section: if forward {
                section_after(app.route_inspector.active_section)
            } else {
                section_before(app.route_inspector.active_section)
            },
            ..app.route_inspector
        },
        details_scroll: 0,
        ..app
    }
}

/// The state after scrolling the details one line down (or up).
pub open spec fn details_scrolled(app: App, down: bool) -> App {
    App {
        details_scroll: if down {
            if app.details_scroll == u16::MAX {
                u16::MAX
            } else {
                (app.details_scroll + 1) as u16
            }
        } else {
            if app.details_scroll == 0 {
                0
            } else {
                (app.details_scroll - 1) as u16
            }
        },
        ..app
    }
}

impl App {
    /// The name of the selected interface, if an interface row is selected.
    pub fn selected_interface_name(&self) -> (r: Option<&str>)
        ensures
            match r {
                Some(n) => selected_name(self.navigation_items@, self.selected_index as int) == Some(n@),
                None => selected_name(self.navigation_items@, self.selected_index as int) is None,
            },
    {
        if self.selected_index >= self.navigation_items.len() {
            return None;
        }
        match &self.navigation_items[self.selected_index] {
            NavigationItem::Interface { name, .. } => Some(name.as_str()),
            _ => None,
        }
    }

    /// Moves the selection one row down, wrapping to the top.
    pub fn select_next(&mut self)
        requires
            old(self).selected_index < usize::MAX,
        ensures
            *final(self) == selected_next(*old(self)),
    {
        let len = self.navigation_items.len();
        if len > 0 {
            self.selected_index = (self.selected_index + 1) % len;
            self.details_scroll = 0;
        }
    }

    /// Moves the selection one row up, wrapping to the bottom.
    pub fn select_previous(&mut self)
        ensures
            *final(self) == selected_previous(*old(self)),
    {
        let len = self.navigation_items.len();
        if len > 0 {
            if self.selected_index == 0 {
                self.selected_index = len - 1;
            } else {
                self.selected_index = self.selected_index - 1;
            }
            self.details_scroll = 0;
        }
    }

    pub fn scroll_details_down(&mut self)
        ensures
            *final(self) == details_scrolled(*old(self), true),
    {
        self.details_scroll = self.details_scroll.saturating_add(1);
    }

    pub fn scroll_details_up(&mut self)
        ensures
            *final(self) == details_scrolled(*old(self), false),
    {
        self.details_scroll = self.details_scroll.saturating_sub(1);
    }

    /// Shows the next section of the route inspector.
    pub fn select_next_route_section(&mut self)
        ensures
            *final(self) == section_moved(*old(self), true),
    {
        self.route_inspector.active_section = next_route_section(self.route_inspector.active_section);
        self.details_scroll = 0;
    }

    /// Shows the previous section of the route inspector.
    pub fn select_previous_route_section(&mut self)
        ensures
            *final(self) == section_moved(*old(self), false),
    {
        self.route_inspector.active_section = previous_route_section(self.route_inspector.active_section);
        self.details_scroll = 0;
    }
}

// ---------------------------------------------------------------------------
// The route table
// ---------------------------------------------------------------------------
/// A route passes the route table's filter (already lower-cased): the filter
/// is empty, or the lower-cased destination, gateway or interface holds it.
pub open spec fn route_passes(r: RouteView, query: Seq<char>) -> bool {
    query.len() == 0 || contains(to_lowercase_spec(r.destination), query) || contains(
        to_lowercase_spec(r.gateway),
        query,
    ) || contains(to_lowercase_spec(r.interface), query)
}

/// The order of metrics: no metric first, then by value.
pub open spec fn metric_before(a: Option<u32>, b: Option<u32>) -> bool {
    match (a, b) {
        (None, Some(_)) => true,
        (Some(x), Some(y)) => x < y,
        _ => false,
    }
}

/// Route `a` sorts strictly before route `b` by the column.
pub open spec fn route_key_before(col: RouteSortColumn, a: RouteView, b: RouteView) -> bool {
    match col {
        RouteSortColumn::Destination => chars_before(a.destination, b.destination),
        RouteSortColumn::Gateway => chars_before(a.gateway, b.gateway),
        RouteSortColumn::Interface => chars_before(a.interface, b.interface),
        RouteSortColumn::Metric => metric_before(a.metric, b.metric),
    }
}

/// The order of the route table's rows, given by the positions `i` and `j`
/// of two routes: by the column, and routes that tie keep their order.
pub open spec fn route_row_before(col: RouteSortColumn, routes: Seq<RouteView>, i: int, j: int) -> bool {
    route_key_before(col, routes[i], routes[j]) || (!route_key_before(col, routes[j], routes[i]) && i
        < j)
}

/// The route table: each route that passes the filter, once, by its
/// position, in the order of the rows.
pub open spec fn is_route_table(
    idx: Seq<usize>,
    routes: Seq<RouteView>,
    col: RouteSortColumn,
    query: Seq<char>,
) -> bool {
    &&& forall|a: int|
        0 <= a < idx.len() ==> (#[trigger] idx[a]) < routes.len() && route_passes(
            routes[idx[a] as int],
            query,
        )
    &&& forall|i: int|
        0 <= i < routes.len() && route_passes(routes[i], query) ==> exists|a: int|
            0 <= a < idx.len() && #[trigger] idx[a] == i
    &&& forall|a: int, b: int|
        0 <= a < b < idx.len() ==> route_row_before(col, routes, #[trigger] idx[a] as int, #[trigger] idx[b] as int)
}

/// The order of rows is a strict total order.
pub proof fn lemma_route_row_order(col: RouteSortColumn, routes: Seq<RouteView>, i: int, j: int, k: int)
    requires
        0 <= i < routes.len(),
        0 <= j < routes.len(),
        0 <= k < routes.len(),
    ensures
        !route_row_before(col, routes, i, i),
        i != j ==> route_row_before(col, routes, i, j) || route_row_before(col, routes, j, i),
        route_row_before(col, routes, i, j) ==> !route_row_before(col, routes, j, i),
        route_row_before(col, routes, i, j) && route_row_before(col, routes, j, k) ==> route_row_before(
            col,
            routes,
            i,
            k,
        ),
{
    let (a, b, c) = (routes[i], routes[j], routes[k]);
    match col {
        RouteSortColumn::Destination => {
            crate::text::lemma_chars_before_order(a.destination, b.destination, c.destination);
            crate::text::lemma_chars_before_order(b.destination, c.destination, a.destination);
            crate::text::lemma_chars_before_order(c.destination, a.destination, b.destination);
            crate::text::lemma_chars_before_order(a.destination, c.destination, b.destination);
            crate::text::lemma_chars_before_order(b.destination, a.destination, c.destination);
            crate::text::lemma_chars_before_order(c.destination, b.destination, a.destination);
        },
        RouteSortColumn::Gateway => {
            crate::text::lemma_chars_before_order(a.gateway, b.gateway, c.gateway);
            crate::text::lemma_chars_before_order(b.gateway, c.gateway, a.gateway);
            crate::text::lemma_chars_before_order(c.gateway, a.gateway, b.gateway);
            crate::text::lemma_chars_before_order(a.gateway, c.gateway, b.gateway);
            crate::text::lemma_chars_before_order(b.gateway, a.gateway, c.gateway);
            crate::text::lemma_chars_before_order(c.gateway, b.gateway, a.gateway);
        },
        RouteSortColumn::Interface => {
            crate::text::lemma_chars_before_order(a.interface, b.interface, c.interface);
            crate::text::lemma_chars_before_order(b.interface, c.interface, a.interface);
            crate::text::lemma_chars_before_order(c.interface, a.interface, b.interface);
            crate::text::lemma_chars_before_order(a.interface, c.interface, b.interface);
            crate::text::lemma_chars_before_order(b.interface, a.interface, c.interface);
            crate::text::lemma_chars_before_order(c.interface, b.interface, a.interface);
        },
        RouteSortColumn::Metric => {},
    }
}

fn route_key_precedes(col: RouteSortColumn, a: &RouteEntry, b: &RouteEntry) -> (r: bool)
    ensures
        r == route_key_before(col, a@, b@),
{
    match col {
        RouteSortColumn::Destination => chars_precede(
            &chars_of(a.destination.as_str()),
            &chars_of(b.destination.as_str()),
        ),
        RouteSortColumn::Gateway => chars_precede(
            &chars_of(a.gateway.as_str()),
            &chars_of(b.gateway.as_str()),
        ),
        RouteSortColumn::Interface => chars_precede(
            &chars_of(a.interface.as_str()),
            &chars_of(b.interface.as_str()),
        ),
        RouteSortColumn::Metric => match (a.metric, b.metric) {
            (None, Some(_)) => true,
            (Some(x), Some(y)) => x < y,
            _ => false,
        },
    }
}

fn route_row_precedes(col: RouteSortColumn, routes: &[RouteEntry], i: usize, j: usize) -> (r: bool)
    requires
        i < routes.len(),
        j < routes.len(),
    ensures
        r == route_row_before(col, route_views(routes@), i as int, j as int),
{
    route_key_precedes(col, &routes[i], &routes[j]) || (!route_key_precedes(
        col,
        &routes[j],
        &routes[i],
    ) && i < j)
}

/// Whether a route passes the filter `query` (already lower-cased).
pub fn route_matches_filter(route: &RouteEntry, query: &Vec<char>) -> (r: bool)
    ensures
        r == route_passes(route@, query@),
{
    query.len() == 0 || contains_chars(&lowercase(&chars_of(route.destination.as_str())), query)
        || contains_chars(&lowercase(&chars_of(route.gateway.as_str())), query) || contains_chars(
        &lowercase(&chars_of(route.interface.as_str())),
        query,
    )
}

/// The positions of the route table's rows: the routes that pass the
/// filter, sorted by the column, ties in table order.
pub fn route_table_indices(routes: &[RouteEntry], col: RouteSortColumn, query: &Vec<char>) -> (idx: Vec<
    usize,
>)
    ensures
        is_route_table(idx@, route_views(routes@), col, query@),
{
    let ghost rv = route_views(routes@);
    let mut idx: Vec<usize> = Vec::new();
    for i in 0..routes.len()
        invariant
            rv == route_views(routes@),
            forall|a: int| 0 <= a < idx@.len() ==> (#[trigger] idx@[a]) < i && route_passes(rv[idx@[a] as int], query@),
            forall|j: int|
                0 <= j < i && route_passes(rv[j], query@) ==> exists|a: int|
                    0 <= a < idx@.len() && #[trigger] idx@[a] == j,
            forall|a: int, b: int|
                0 <= a < b < idx@.len() ==> route_row_before(col, rv, #[trigger] idx@[a] as int, #[trigger] idx@[b] as int),
    {
        if route_matches_filter(&routes[i], query) {
            let mut p: usize = 0;
            while p < idx.len() && !route_row_precedes(col, routes, i, idx[p])
                invariant
                    rv == route_views(routes@),
                    p <= idx@.len(),
                    i < routes.len(),
                    forall|a: int| 0 <= a < idx@.len() ==> (#[trigger] idx@[a]) < i,
                    forall|q: int| 0 <= q < p ==> !route_row_before(col, rv, i as int, #[trigger] idx@[q] as int),
                decreases idx@.len() - p,
            {
                p = p + 1;
            }
            let ghost old_idx = idx@;
            idx.insert(p, i);
            proof {
                assert(idx@ == old_idx.insert(p as int, i));
                assert forall|a: int, b: int| 0 <= a < b < idx@.len() implies route_row_before(
                    col,
                    rv,
                    #[trigger] idx@[a] as int,
                    #[trigger] idx@[b] as int,
                ) by {
                    if a < p && b < p {
                        assert(idx@[a] == old_idx[a] && idx@[b] == old_idx[b]);
                    } else if a < p && b == p {
                        assert(idx@[a] == old_idx[a]);
                        lemma_route_row_order(col, rv, i as int, old_idx[a] as int, i as int);
                    } else if a < p && b > p {
                        assert(idx@[a] == old_idx[a] && idx@[b] == old_idx[b - 1]);
                    } else if a == p {
                        assert(idx@[b] == old_idx[b - 1]);
                        assert(route_row_before(col, rv, i as int, old_idx[p as int] as int));
                        if b - 1 > p {
                            assert(route_row_before(col, rv, old_idx[p as int] as int, old_idx[b - 1] as int));
                            lemma_route_row_order(col, rv, i as int, old_idx[p as int] as int, old_idx[b - 1] as int);
                        }
                    } else {
                        assert(idx@[a] == old_idx[a - 1] && idx@[b] == old_idx[b - 1]);
                    }
                }
                assert forall|j: int|
                    0 <= j < i + 1 && route_passes(rv[j], query@) implies exists|a: int|
                        0 <= a < idx@.len() && #[trigger] idx@[a] == j by {
                    if j == i {
                        assert(idx@[p as int] == i);
                    } else {
                        let a = choose|a: int| 0 <= a < old_idx.len() && #[trigger] old_idx[a] == j;
                        if a < p {
                            assert(idx@[a] == old_idx[a]);
                        } else {
                            assert(idx@[a + 1] == old_idx[a]);
                        }
                    }
                }
                assert forall|a: int| 0 <= a < idx@.len() implies (#[trigger] idx@[a]) < i + 1 && route_passes(rv[idx@[a] as int], query@) by {
                    if a < p {
                        assert(idx@[a] == old_idx[a]);
                    } else if a > p {
                        assert(idx@[a] == old_idx[a - 1]);
                    }
                }
            }
        }
    }
    idx
}

/// The positions that the rows of a route table name.
pub open spec fn row_positions<'a>(rows: Seq<(usize, &'a RouteEntry)>) -> Seq<usize> {
    rows.map_values(|x: (usize, &'a RouteEntry)| x.0)
}

impl App {
    /// The routes of the current snapshot that pass the route filter, with
    /// their positions in the snapshot, sorted by the chosen column (routes
    /// that tie keep their order); none without a snapshot.
    pub fn filtered_sorted_routes(&self) -> (r: Vec<(usize, &RouteEntry)>)
        ensures
            match self.current_snapshot {
                None => r@.len() == 0,
                Some(s) => is_route_table(
                    row_positions(r@),
                    route_views(s.routes@),
                    self.route_inspector.sort_column,
                    to_lowercase_spec(self.route_inspector.route_filter@),
                ) && forall|a: int| 0 <= a < r@.len() ==> *(#[trigger] r@[a]).1 == s.routes@[r@[a].0 as int],
            },
    {
        match &self.current_snapshot {
            None => Vec::new(),
            Some(snapshot) => {
                let query = lowercase(&chars_of(self.route_inspector.route_filter.as_str()));
                let idx = route_table_indices(
                    snapshot.routes.as_slice(),
                    self.route_inspector.sort_column,
                    &query,
                );
                let mut rows: Vec<(usize, &RouteEntry)> = Vec::new();
                for k in 0..idx.len()
                    invariant
                        rows@.len() == k,
                        forall|a: int| 0 <= a < idx@.len() ==> (#[trigger] idx@[a]) < snapshot.routes@.len(),
                        forall|a: int| 0 <= a < k ==> (#[trigger] rows@[a]).0 == idx@[a] && *rows@[a].1 == snapshot.routes@[idx@[a] as int],
                {
                    let i = idx[k];
                    rows.push((i, &snapshot.routes[i]));
                }
                assert(row_positions(rows@) =~= idx@);
                rows
            },
        }
    }
}

// ---------------------------------------------------------------------------
// The rows of each view
// ---------------------------------------------------------------------------
/// A row as plain values.
pub enum ItemView {
    Interface { name: Seq<char>, associated_ip: Option<Seq<char>> },
    SubnetHeader(Subnet),
    Connection {
        proto: Seq<char>,
        local: Seq<char>,
        foreign: Seq<char>,
        state: Option<Seq<char>>,
        index: usize,
    },
    ListeningPort {
        proto: Seq<char>,
        port: Seq<char>,
        command: Seq<char>,
        pid: Seq<char>,
        user: Seq<char>,
        index: usize,
    },
    Event { index: usize, kind: NetworkEventKind, timestamp: std::time::SystemTime, message: Seq<char> },
    Route { destination: Seq<char>, gateway: Seq<char>, interface: Seq<char>, index: usize },
}

impl View for NavigationItem {
    type V = ItemView;

    open spec fn view(&self) -> ItemView {
        match self {
            NavigationItem::Interface { name, associated_ip } => ItemView::Interface {
                name: name@,
                associated_ip: opt_chars(*associated_ip),
            },
            NavigationItem::SubnetHeader(s) => ItemView::SubnetHeader(*s),
            NavigationItem::Connection { proto, local, foreign, state, index } => ItemView::Connection {
                proto: proto@,
                local: local@,
                foreign: foreign@,
                state: opt_chars(*state),
                index: *index,
            },
            NavigationItem::ListeningPort { proto, port, command, pid, user, index } =>
            ItemView::ListeningPort {
                proto: proto@,
                port: port@,
                command: command@,
                pid: pid@,
                user: user@,
                index: *index,
            },
            NavigationItem::Event { index, kind, timestamp, message } => ItemView::Event {
                index: *index,
                kind: *kind,
                timestamp: *timestamp,
                message: message@,
            },
            NavigationItem::Route { destination, gateway, interface, index } => ItemView::Route {
                destination: destination@,
                gateway: gateway@,
                interface: interface@,
                index: *index,
            },
        }
    }
}

pub open spec fn item_views(v: Seq<NavigationItem>) -> Seq<ItemView> {
    v.map_values(|i: NavigationItem| i@)
}

/// The interface view's rows: each interface with its first IPv4 address.
pub open spec fn interface_rows(ifaces: Seq<InterfaceView>) -> Seq<ItemView> {
    ifaces.map_values(
        |i: InterfaceView|
            ItemView::Interface {
                name: i.name,
                associated_ip: if i.ipv4.len() > 0 {
                    Some(i.ipv4[0].value)
                } else {
                    None
                },
            },
    )
}

/// The connections view's rows: each connection, its two ends written as
/// `address:port`.
pub open spec fn connection_rows(conns: Seq<ConnectionView>) -> Seq<ItemView> {
    Seq::new(
        conns.len(),
        |k: int|
            ItemView::Connection {
                proto: conns[k].proto,
                local: conns[k].local_ip + ":"@ + conns[k].local_port,
                foreign: conns[k].foreign_ip + ":"@ + conns[k].foreign_port,
                state: conns[k].state,
                index: k as usize,
            },
    )
}

/// A listening port passes the ports filter (already lower-cased): the
/// filter is empty, or the port, the lower-cased command, the process id or
/// the lower-cased protocol holds it.
pub open spec fn port_passes(p: PortView, query: Seq<char>) -> bool {
    query.len() == 0 || contains(p.local_port, query) || contains(to_lowercase_spec(p.command), query)
        || contains(p.pid, query) || contains(to_lowercase_spec(p.proto), query)
}

/// The ports view's rows for the first `n` ports: those that pass the
/// filter, in order.
pub open spec fn port_rows(ports: Seq<PortView>, query: Seq<char>, n: nat) -> Seq<ItemView>
    decreases n,
{
    if n == 0 {
        Seq::empty()
    } else {
        let k = (n - 1) as nat;
        let p = ports[k as int];
        port_rows(ports, query, k) + if port_passes(p, query) {
            seq![
                ItemView::ListeningPort {
                    proto: p.proto,
                    port: p.local_port,
                    command: p.command,
                    pid: p.pid,
                    user: p.user,
                    index: k as usize,
                },
            ]
        } else {
            Seq::empty()
        }
    }
}

/// The timeline's rows: each recent event.
pub open spec fn event_rows(events: Seq<NetworkEvent>) -> Seq<ItemView> {
    Seq::new(
        events.len(),
        |k: int|
            ItemView::Event {
                index: k as usize,
                kind: events[k].kind,
                timestamp: events[k].timestamp,
                message: events[k].message@,
            },
    )
}

/// The routes view's rows for the routes at positions `idx`.
pub open spec fn route_rows(routes: Seq<RouteView>, idx: Seq<usize>) -> Seq<ItemView> {
    Seq::new(
        idx.len(),
        |a: int|
            ItemView::Route {
                destination: routes[idx[a] as int].destination,
                gateway: routes[idx[a] as int].gateway,
                interface: routes[idx[a] as int].interface,
                index: idx[a],
            },
    )
}

fn interface_items(ifaces: &Vec<NetworkInterface>) -> (r: Vec<NavigationItem>)
    ensures
        item_views(r@) == interface_rows(interface_views(ifaces@)),
{
    let mut r: Vec<NavigationItem> = Vec::new();
    for k in 0..ifaces.len()
        invariant
            item_views(r@) == interface_rows(interface_views(ifaces@)).take(k as int),
    {
        let i = &ifaces[k];
        let ip = if i.ipv4.len() > 0 {
            Some(i.ipv4[0].value.clone())
        } else {
            None
        };
        let ghost before = item_views(r@);
        r.push(NavigationItem::Interface { name: i.name.clone(), associated_ip: ip });
        assert(item_views(r@) =~= before.push(r@[k as int]@));
        assert(interface_rows(interface_views(ifaces@)).take(k + 1) =~= interface_rows(
            interface_views(ifaces@),
        ).take(k as int).push(interface_rows(interface_views(ifaces@))[k as int]));
    }
    assert(interface_rows(interface_views(ifaces@)).take(ifaces.len() as int) =~= interface_rows(
        interface_views(ifaces@),
    ));
    r
}

fn connection_items(conns: &Vec<ActiveConnection>) -> (r: Vec<NavigationItem>)
    ensures
        item_views(r@) == connection_rows(connection_views(conns@)),
{
    let mut r: Vec<NavigationItem> = Vec::new();
    for k in 0..conns.len()
        invariant
            item_views(r@) == connection_rows(connection_views(conns@)).take(k as int),
    {
        let c = &conns[k];
        let ghost before = item_views(r@);
        r.push(
            NavigationItem::Connection {
                proto: c.proto.clone(),
                local: concat3(c.local_ip.as_str(), ":", c.local_port.as_str()),
                foreign: concat3(c.foreign_ip.as_str(), ":", c.foreign_port.as_str()),
                state: copy_opt(&c.state),
                index: k,
            },
        );
        assert(item_views(r@) =~= before.push(r@[k as int]@));
        assert(connection_rows(connection_views(conns@)).take(k + 1) =~= connection_rows(
            connection_views(conns@),
        ).take(k as int).push(connection_rows(connection_views(conns@))[k as int]));
    }
    assert(connection_rows(connection_views(conns@)).take(conns.len() as int) =~= connection_rows(
        connection_views(conns@),
    ));
    r
}

/// Whether a listening port passes the filter `query` (already lower-cased).
pub fn port_matches_filter(p: &ListeningPort, query: &Vec<char>) -> (r: bool)
    ensures
        r == port_passes(p@, query@),
{
    query.len() == 0 || contains_chars(&chars_of(p.local_port.as_str()), query) || contains_chars(
        &lowercase(&chars_of(p.command.as_str())),
        query,
    ) || contains_chars(&chars_of(p.pid.as_str()), query) || contains_chars(
        &lowercase(&chars_of(p.proto.as_str())),
        query,
    )
}

fn port_items(ports: &Vec<ListeningPort>, query: &Vec<char>) -> (r: Vec<NavigationItem>)
    ensures
        item_views(r@) == port_rows(port_views(ports@), query@, ports@.len()),
{
    let mut r: Vec<NavigationItem> = Vec::new();
    for k in 0..ports.len()
        invariant
            item_views(r@) == port_rows(port_views(ports@), query@, k as nat),
    {
        let p = &ports[k];
        if port_matches_filter(p, query) {
            let ghost before = item_views(r@);
            r.push(
                NavigationItem::ListeningPort {
                    proto: p.proto.clone(),
                    port: p.local_port.clone(),
                    command: p.command.clone(),
                    pid: p.pid.clone(),
                    user: p.user.clone(),
                    index: k,
                },
            );
            assert(item_views(r@) =~= before.push(r@[before.len() as int]@));
            assert(item_views(r@) =~= port_rows(port_views(ports@), query@, (k + 1) as nat));
        } else {
            assert(port_rows(port_views(ports@), query@, (k + 1) as nat) =~= port_rows(port_views(ports@), query@, k as nat));
        }
    }
    r
}

/// The port number a ports row is ordered by; none when the port is not a
/// number.
pub open spec fn row_port_key(r: ItemView) -> Option<u64> {
    match r {
        ItemView::ListeningPort { port, .. } => crate::text::parse_u64_spec(port),
        _ => None,
    }
}

/// Port numbers ascend, and ports that are not numbers come last.
pub open spec fn key_le(a: Option<u64>, b: Option<u64>) -> bool {
    match (a, b) {
        (Some(x), Some(y)) => x <= y,
        (_, None) => true,
        (None, Some(_)) => false,
    }
}

/// `r` inserted after every row whose key is not greater than its own.
pub open spec fn insert_by_port(s: Seq<ItemView>, r: ItemView) -> Seq<ItemView>
    decreases s.len(),
{
    if s.len() == 0 {
        seq![r]
    } else if key_le(row_port_key(s.last()), row_port_key(r)) {
        s.push(r)
    } else {
        insert_by_port(s.drop_last(), r).push(s.last())
    }
}

/// The rows in ascending order of port number; rows with equal keys keep
/// their order.
pub open spec fn sort_by_port(s: Seq<ItemView>) -> Seq<ItemView>
    decreases s.len(),
{
    if s.len() == 0 {
        s
    } else {
        insert_by_port(sort_by_port(s.drop_last()), s.last())
    }
}

fn item_port_key(item: &NavigationItem) -> (r: Option<u64>)
    ensures
        r == row_port_key(item@),
{
    match item {
        NavigationItem::ListeningPort { port, .. } => crate::text::parse_u64(&chars_of(port.as_str())),
        _ => None,
    }
}

fn key_le_exec(a: Option<u64>, b: Option<u64>) -> (r: bool)
    ensures
        r == key_le(a, b),
{
    match (a, b) {
        (Some(x), Some(y)) => x <= y,
        (_, None) => true,
        (None, Some(_)) => false,
    }
}

fn insert_item_by_port(s: &mut Vec<NavigationItem>, x: NavigationItem)
    ensures
        item_views(final(s)@) == insert_by_port(item_views(old(s)@), x@),
    decreases old(s)@.len(),
{
    let ghost before = item_views(s@);
    if s.len() == 0 {
        s.push(x);
        assert(item_views(s@) =~= seq![x@]);
        return;
    }
    let last_key = item_port_key(&s[s.len() - 1]);
    let x_key = item_port_key(&x);
    assert(before.last() == s@[s@.len() - 1]@);
    if key_le_exec(last_key, x_key) {
        s.push(x);
        assert(item_views(s@) =~= before.push(x@));
    } else {
        let last = s.pop().unwrap();
        assert(item_views(s@) =~= before.drop_last());
        let ghost mid = item_views(s@);
        insert_item_by_port(s, x);
        let ghost inserted = item_views(s@);
        s.push(last);
        assert(item_views(s@) =~= inserted.push(last@));
    }
}

fn sort_items_by_port(items: Vec<NavigationItem>) -> (r: Vec<NavigationItem>)
    ensures
        item_views(r@) == sort_by_port(item_views(items@)),
{
    let ghost iv = item_views(items@);
    let ghost n = items@.len();
    let mut r: Vec<NavigationItem> = Vec::new();
    let mut rest = items;
    let mut k: usize = 0;
    assert(rest.len() == n);
    assert(iv.take(0) =~= Seq::<ItemView>::empty());
    while rest.len() > 0
        invariant
            n == iv.len(),
            n <= usize::MAX,
            k + rest@.len() == n,
            forall|j: int| 0 <= j < rest@.len() ==> #[trigger] rest@[j]@ == iv[k + j],
            item_views(r@) == sort_by_port(iv.take(k as int)),
        decreases rest@.len(),
    {
        let x = rest.remove(0);
        assert(x@ == iv[k as int]);
        assert(iv.take(k + 1).drop_last() =~= iv.take(k as int));
        insert_item_by_port(&mut r, x);
        k = k + 1;
    }
    assert(iv.take(n as int) =~= iv);
    r
}

fn event_items(events: &Vec<NetworkEvent>) -> (r: Vec<NavigationItem>)
    ensures
        item_views(r@) == event_rows(events@),
{
    let mut r: Vec<NavigationItem> = Vec::new();
    for k in 0..events.len()
        invariant
            item_views(r@) == event_rows(events@).take(k as int),
    {
        let e = &events[k];
        let ghost before = item_views(r@);
        r.push(
            NavigationItem::Event {
                index: k,
                kind: e.kind,
                timestamp: e.timestamp.clone(),
                message: e.message.clone(),
            },
        );
        assert(item_views(r@) =~= before.push(r@[k as int]@));
        assert(event_rows(events@).take(k + 1) =~= event_rows(events@).take(k as int).push(
            event_rows(events@)[k as int],
        ));
    }
    assert(event_rows(events@).take(events.len() as int) =~= event_rows(events@));
    r
}

fn route_items(routes: &Vec<RouteEntry>, idx: &Vec<usize>) -> (r: Vec<NavigationItem>)
    requires
        forall|a: int| 0 <= a < idx@.len() ==> (#[trigger] idx@[a]) < routes@.len(),
    ensures
        item_views(r@) == route_rows(route_views(routes@), idx@),
{
    let mut r: Vec<NavigationItem> = Vec::new();
    for a in 0..idx.len()
        invariant
            forall|a: int| 0 <= a < idx@.len() ==> (#[trigger] idx@[a]) < routes@.len(),
            item_views(r@) == route_rows(route_views(routes@), idx@).take(a as int),
    {
        let route = &routes[idx[a]];
        let ghost before = item_views(r@);
        r.push(
            NavigationItem::Route {
                destination: route.destination.clone(),
                gateway: route.gateway.clone(),
                interface: route.interface.clone(),
                index: idx[a],
            },
        );
        assert(item_views(r@) =~= before.push(r@[a as int]@));
        assert(route_rows(route_views(routes@), idx@).take(a + 1) =~= route_rows(
            route_views(routes@),
            idx@,
        ).take(a as int).push(route_rows(route_views(routes@), idx@)[a as int]));
    }
    assert(route_rows(route_views(routes@), idx@).take(idx.len() as int) =~= route_rows(
        route_views(routes@),
        idx@,
    ));
    r
}

// ---------------------------------------------------------------------------
// The network view: interfaces grouped by subnet
// ---------------------------------------------------------------------------
/// The value of octets read most significant first.
pub open spec fn be_value(o: Seq<u8>) -> nat
    decreases o.len(),
{
    if o.len() == 0 {
        0
    } else {
        be_value(o.drop_last()) * 256 + o.last() as nat
    }
}

pub open spec fn pow256(n: nat) -> nat
    decreases n,
{
    if n == 0 {
        1
    } else {
        pow256((n - 1) as nat) * 256
    }
}

proof fn lemma_pow256_monotonic(i: nat, j: nat)
    requires
        i <= j,
    ensures
        pow256(i) <= pow256(j),
    decreases j,
{
    if i < j {
        lemma_pow256_monotonic(i, (j - 1) as nat);
    }
}

proof fn lemma_pow256_values()
    ensures
        pow256(4) == 0x1_0000_0000,
        pow256(16) == 0x1_0000_0000_0000_0000_0000_0000_0000_0000,
{
    assert(pow256(0) == 1);
    assert(pow256(1) == 0x100);
    assert(pow256(2) == 0x1_0000);
    assert(pow256(3) == 0x100_0000);
    assert(pow256(4) == 0x1_0000_0000);
    assert(pow256(5) == 0x100_0000_0000);
    assert(pow256(6) == 0x1_0000_0000_0000);
    assert(pow256(7) == 0x100_0000_0000_0000);
    assert(pow256(8) == 0x1_0000_0000_0000_0000);
    assert(pow256(9) == 0x100_0000_0000_0000_0000);
    assert(pow256(10) == 0x1_0000_0000_0000_0000_0000);
    assert(pow256(11) == 0x100_0000_0000_0000_0000_0000);
    assert(pow256(12) == 0x1_0000_0000_0000_0000_0000_0000);
    assert(pow256(13) == 0x100_0000_0000_0000_0000_0000_0000);
    assert(pow256(14) == 0x1_0000_0000_0000_0000_0000_0000_0000);
    assert(pow256(15) == 0x100_0000_0000_0000_0000_0000_0000_0000);
}

/// The value of up to sixteen octets.
fn octets_value(o: &Vec<u8>) -> (r: u128)
    requires
        o@.len() <= 16,
    ensures
        r == be_value(o@),
        r < pow256(o@.len()),
{
    proof {
        lemma_pow256_values();
    }
    let mut v: u128 = 0;
    for i in 0..o.len()
        invariant
            o@.len() <= 16,
            v == be_value(o@.take(i as int)),
            v < pow256(i as nat),
    {
        assert(o@.take(i + 1).drop_last() =~= o@.take(i as int));
        proof {
            lemma_pow256_monotonic((i + 1) as nat, 16);
            lemma_pow256_values();
        }
        let b = o[i];
        assert(v * 256 + b < pow256((i + 1) as nat)) by (nonlinear_arith)
            requires
                v < pow256(i as nat),
                pow256((i + 1) as nat) == pow256(i as nat) * 256,
                b < 256,
        ;
        v = v * 256 + b as u128;
    }
    assert(o@.take(o@.len() as int) =~= o@);
    v
}

/// The subnet of an IPv4 address given by its octets.
pub open spec fn v4_subnet(o: Seq<u8>, prefix_len: u8) -> Subnet {
    Subnet::Ipv4 { network: (be_value(o) as u32) & ipv4_mask(prefix_len), prefix_len }
}

/// The subnet of an IPv6 address given by its octets.
pub open spec fn v6_subnet(o: Seq<u8>, prefix_len: u8) -> Subnet {
    Subnet::Ipv6 {
        network: be_value(Seq::new(16, |i: int| o[i] & ipv6_mask_byte(i, prefix_len))) as u128,
        prefix_len,
    }
}

/// An address of an interface placed in a subnet: the subnet, the
/// interface's name and the address (none for the unassigned group).
pub type GroupEntry = (Subnet, Seq<char>, Option<Seq<char>>);

/// The IPv4 addresses with a prefix length that read as IPv4 addresses.
pub open spec fn v4_entries(name: Seq<char>, addrs: Seq<AddressView>) -> Seq<GroupEntry>
    decreases addrs.len(),
{
    if addrs.len() == 0 {
        Seq::empty()
    } else {
        let rest = v4_entries(name, addrs.drop_last());
        let a = addrs.last();
        match (a.prefix_len, ipv4_octets_spec(a.value)) {
            (Some(p), Some(o)) => rest.push((v4_subnet(o, p), name, Some(a.value))),
            _ => rest,
        }
    }
}

/// The IPv6 addresses with a prefix length that read as IPv6 addresses.
pub open spec fn v6_entries(name: Seq<char>, addrs: Seq<AddressView>) -> Seq<GroupEntry>
    decreases addrs.len(),
{
    if addrs.len() == 0 {
        Seq::empty()
    } else {
        let rest = v6_entries(name, addrs.drop_last());
        let a = addrs.last();
        match (a.prefix_len, ipv6_octets_spec(a.value)) {
            (Some(p), Some(o)) => rest.push((v6_subnet(o, p), name, Some(a.value))),
            _ => rest,
        }
    }
}

/// Where an interface goes: each of its addresses in its subnet, or, with
/// no such address, the unassigned group.
pub open spec fn interface_entries(i: InterfaceView) -> Seq<GroupEntry> {
    let e = v4_entries(i.name, i.ipv4) + v6_entries(i.name, i.ipv6);
    if e.len() == 0 {
        seq![(Subnet::Unassigned, i.name, None)]
    } else {
        e
    }
}

pub open spec fn all_entries(ifaces: Seq<InterfaceView>) -> Seq<GroupEntry>
    decreases ifaces.len(),
{
    if ifaces.len() == 0 {
        Seq::empty()
    } else {
        all_entries(ifaces.drop_last()) + interface_entries(ifaces.last())
    }
}

/// A member of a group: an interface name and the address that put it there.
pub type Member = (Seq<char>, Option<Seq<char>>);

/// The members of group `g`, in the order of the entries.
pub open spec fn members_in(entries: Seq<GroupEntry>, g: Subnet) -> Seq<Member>
    decreases entries.len(),
{
    if entries.len() == 0 {
        Seq::empty()
    } else {
        let rest = members_in(entries.drop_last(), g);
        let e = entries.last();
        if e.0 == g {
            rest.push((e.1, e.2))
        } else {
            rest
        }
    }
}

/// The subnets that the entries use.
pub open spec fn entry_subnets(entries: Seq<GroupEntry>) -> Set<Subnet> {
    Set::new(|g: Subnet| exists|i: int| 0 <= i < entries.len() && #[trigger] entries[i].0 == g)
}

/// `gs` holds the subnets of the entries, each once, in increasing order.
pub open spec fn is_group_order(gs: Seq<Subnet>, entries: Seq<GroupEntry>) -> bool {
    &&& forall|a: int, b: int| 0 <= a < b < gs.len() ==> subnet_before(#[trigger] gs[a], #[trigger] gs[b])
    &&& forall|g: Subnet| #[trigger] entry_subnets(entries).contains(g) <==> gs.contains(g)
}

/// The position at which a stable insertion by name puts a member called
/// `name`: after every member whose name does not come after it.
pub open spec fn insertion_point(s: Seq<Member>, name: Seq<char>) -> nat
    decreases s.len(),
{
    if s.len() == 0 {
        0
    } else if chars_before(name, s[0].0) {
        0
    } else {
        1 + insertion_point(s.drop_first(), name)
    }
}

/// The members sorted by name, stably (members with the same name keep
/// their order).
pub open spec fn sort_by_name(s: Seq<Member>) -> Seq<Member>
    decreases s.len(),
{
    if s.len() == 0 {
        Seq::empty()
    } else {
        let sorted = sort_by_name(s.drop_last());
        sorted.insert(insertion_point(sorted, s.last().0) as int, s.last())
    }
}

/// The members without repeats of the member just before (`Vec::dedup`).
pub open spec fn dedup_members(s: Seq<Member>) -> Seq<Member>
    decreases s.len(),
{
    if s.len() <= 1 {
        s
    } else {
        let rest = dedup_members(s.drop_last());
        if s.last() == s[s.len() - 2] {
            rest
        } else {
            rest.push(s.last())
        }
    }
}

/// The rows of one group: its header, then its members sorted by name
/// without repeats.
pub open spec fn group_rows(entries: Seq<GroupEntry>, g: Subnet) -> Seq<ItemView> {
    seq![ItemView::SubnetHeader(g)] + dedup_members(sort_by_name(members_in(entries, g))).map_values(
        |m: Member| ItemView::Interface { name: m.0, associated_ip: m.1 },
    )
}

pub open spec fn grouped_rows(entries: Seq<GroupEntry>, gs: Seq<Subnet>) -> Seq<ItemView>
    decreases gs.len(),
{
    if gs.len() == 0 {
        Seq::empty()
    } else {
        grouped_rows(entries, gs.drop_last()) + group_rows(entries, gs.last())
    }
}

/// The network view's rows: the groups in increasing subnet order.
pub open spec fn network_rows(ifaces: Seq<InterfaceView>, rows: Seq<ItemView>) -> bool {
    exists|gs: Seq<Subnet>|
        is_group_order(gs, all_entries(ifaces)) && rows == grouped_rows(all_entries(ifaces), gs)
}

/// No member comes after a later one by name.
pub open spec fn members_sorted(s: Seq<Member>) -> bool {
    forall|i: int, j: int| 0 <= i < j < s.len() ==> !chars_before(#[trigger] s[j].0, #[trigger] s[i].0)
}

proof fn lemma_insertion_point(s: Seq<Member>, name: Seq<char>)
    ensures
        insertion_point(s, name) <= s.len(),
        forall|i: int| 0 <= i < insertion_point(s, name) ==> !chars_before(name, #[trigger] s[i].0),
        insertion_point(s, name) < s.len() ==> chars_before(name, s[insertion_point(s, name) as int].0),
    decreases s.len(),
{
    if s.len() > 0 && !chars_before(name, s[0].0) {
        let t = s.drop_first();
        lemma_insertion_point(t, name);
        assert forall|i: int| 0 <= i < insertion_point(s, name) implies !chars_before(
            name,
            #[trigger] s[i].0,
        ) by {
            if i > 0 {
                assert(s[i] == t[i - 1]);
            }
        }
        if insertion_point(s, name) < s.len() {
            assert(s[insertion_point(s, name) as int] == t[insertion_point(t, name) as int]);
        }
    }
}

/// Sorting by name orders the members by name and keeps exactly the
/// members it was given.
pub proof fn lemma_sort_by_name(s: Seq<Member>)
    ensures
        members_sorted(sort_by_name(s)),
        sort_by_name(s).len() == s.len(),
        forall|m: Member| sort_by_name(s).contains(m) <==> s.contains(m),
    decreases s.len(),
{
    if s.len() > 0 {
        let prev = s.drop_last();
        let sorted = sort_by_name(prev);
        let x = s.last();
        lemma_sort_by_name(prev);
        lemma_insertion_point(sorted, x.0);
        let p = insertion_point(sorted, x.0) as int;
        let r = sorted.insert(p, x);
        assert(r == sort_by_name(s));
        assert forall|i: int, j: int| 0 <= i < j < r.len() implies !chars_before(
            #[trigger] r[j].0,
            #[trigger] r[i].0,
        ) by {
            if j < p {
                assert(r[i] == sorted[i] && r[j] == sorted[j]);
            } else if j == p {
                assert(r[i] == sorted[i] && r[j] == x);
            } else if i < p {
                assert(r[i] == sorted[i] && r[j] == sorted[j - 1]);
            } else if i == p {
                assert(r[i] == x && r[j] == sorted[j - 1]);
                lemma_chars_before_order(sorted[j - 1].0, x.0, sorted[p].0);
                if j - 1 > p {
                    assert(!chars_before(sorted[j - 1].0, sorted[p].0));
                }
            } else {
                assert(r[i] == sorted[i - 1] && r[j] == sorted[j - 1]);
            }
        }
        assert forall|m: Member| r.contains(m) <==> s.contains(m) by {
            if r.contains(m) {
                let k = choose|k: int| 0 <= k < r.len() && r[k] == m;
                if k < p {
                    assert(sorted[k] == m);
                    assert(sorted.contains(m));
                } else if k == p {
                    assert(s[s.len() - 1] == m);
                } else {
                    assert(sorted[k - 1] == m);
                    assert(sorted.contains(m));
                }
                if sorted.contains(m) {
                    assert(prev.contains(m));
                    let q = choose|q: int| 0 <= q < prev.len() && prev[q] == m;
                    assert(prev[q] == s[q]);
                }
            }
            if s.contains(m) {
                let k = choose|k: int| 0 <= k < s.len() && s[k] == m;
                if k == s.len() - 1 {
                    assert(r[p] == m);
                } else {
                    assert(prev[k] == m);
                    assert(prev.contains(m));
                    let q = choose|q: int| 0 <= q < sorted.len() && sorted[q] == m;
                    if q < p {
                        assert(r[q] == m);
                    } else {
                        assert(r[q + 1] == m);
                    }
                }
            }
        }
    }
}

/// Dropping repeats keeps a sorted list sorted and keeps every member.
pub proof fn lemma_dedup_members(s: Seq<Member>)
    requires
        members_sorted(s),
    ensures
        members_sorted(dedup_members(s)),
        forall|m: Member| dedup_members(s).contains(m) <==> s.contains(m),
        dedup_members(s).len() <= s.len(),
        s.len() > 0 ==> dedup_members(s).len() > 0 && dedup_members(s).last() == s.last(),
    decreases s.len(),
{
    if s.len() > 1 {
        let prev = s.drop_last();
        assert(members_sorted(prev)) by {
            assert forall|i: int, j: int| 0 <= i < j < prev.len() implies !chars_before(
                #[trigger] prev[j].0,
                #[trigger] prev[i].0,
            ) by {
                assert(prev[i] == s[i] && prev[j] == s[j]);
            }
        }
        lemma_dedup_members(prev);
        let rest = dedup_members(prev);
        assert forall|m: Member| prev.contains(m) implies s.contains(m) by {
            let q = choose|q: int| 0 <= q < prev.len() && prev[q] == m;
            assert(s[q] == m);
        }
        assert forall|m: Member| s.contains(m) && m != s.last() implies prev.contains(m) by {
            let q = choose|q: int| 0 <= q < s.len() && s[q] == m;
            assert(prev[q] == m);
        }
        if s.last() == s[s.len() - 2] {
            assert(prev.contains(s.last())) by {
                assert(prev[s.len() - 2] == s.last());
            }
            assert(prev.last() == s.last());
        } else {
            let r = rest.push(s.last());
            assert(s.contains(s.last())) by {
                assert(s[s.len() - 1] == s.last());
            }
            assert forall|i: int, j: int| 0 <= i < j < r.len() implies !chars_before(
                #[trigger] r[j].0,
                #[trigger] r[i].0,
            ) by {
                assert(r[i] == rest[i]);
                if j < rest.len() {
                    assert(r[j] == rest[j]);
                } else {
                    assert(rest.contains(rest[i]));
                    assert(prev.contains(rest[i]));
                    let q = choose|q: int| 0 <= q < prev.len() && prev[q] == rest[i];
                    assert(prev[q] == s[q]);
                    assert(s[q] == rest[i]);
                    assert(r[j] == s[s.len() - 1]);
                }
            }
            assert forall|m: Member| r.contains(m) <==> s.contains(m) by {
                if r.contains(m) {
                    let k = choose|k: int| 0 <= k < r.len() && r[k] == m;
                    if k < rest.len() {
                        assert(rest[k] == m);
                        assert(rest.contains(m));
                    }
                }
                if s.contains(m) && m != s.last() {
                    assert(rest.contains(m));
                    let k = choose|k: int| 0 <= k < rest.len() && rest[k] == m;
                    assert(r[k] == m);
                }
                if m == s.last() {
                    assert(r[r.len() - 1] == m);
                }
            }
        }
    }
}

/// An IPv4 address of `addrs` with text `ip` and a prefix length places
/// the interface in subnet `g`: the address masked to that prefix.
pub open spec fn v4_placed(addrs: Seq<AddressView>, g: Subnet, ip: Seq<char>) -> bool {
    exists|a: int|
        0 <= a < addrs.len() && (#[trigger] addrs[a]).value == ip && match (
            addrs[a].prefix_len,
            ipv4_octets_spec(ip),
        ) {
            (Some(p), Some(o)) => v4_subnet(o, p) == g,
            _ => false,
        }
}

/// The same for an IPv6 address.
pub open spec fn v6_placed(addrs: Seq<AddressView>, g: Subnet, ip: Seq<char>) -> bool {
    exists|a: int|
        0 <= a < addrs.len() && (#[trigger] addrs[a]).value == ip && match (
            addrs[a].prefix_len,
            ipv6_octets_spec(ip),
        ) {
            (Some(p), Some(o)) => v6_subnet(o, p) == g,
            _ => false,
        }
}

/// No address of the interface has a prefix length and reads as an
/// address of its family.
pub open spec fn no_grouped_address(i: InterfaceView) -> bool {
    &&& forall|a: int|
        0 <= a < i.ipv4.len() ==> !((#[trigger] i.ipv4[a]).prefix_len is Some && ipv4_octets_spec(
            i.ipv4[a].value,
        ) is Some)
    &&& forall|a: int|
        0 <= a < i.ipv6.len() ==> !((#[trigger] i.ipv6[a]).prefix_len is Some && ipv6_octets_spec(
            i.ipv6[a].value,
        ) is Some)
}

/// Interface `i` belongs to group `g` with associated address `ip`: an
/// address of it lies in that subnet, or, for the unassigned group, it has
/// no address that can be placed.
pub open spec fn placed_in(i: InterfaceView, g: Subnet, ip: Option<Seq<char>>) -> bool {
    match g {
        Subnet::Unassigned => ip is None && no_grouped_address(i),
        _ => ip matches Some(v) && (v4_placed(i.ipv4, g, v) || v6_placed(i.ipv6, g, v)),
    }
}

proof fn lemma_members_in_contains(entries: Seq<GroupEntry>, g: Subnet, m: Member)
    ensures
        members_in(entries, g).contains(m) <==> entries.contains((g, m.0, m.1)),
    decreases entries.len(),
{
    if entries.len() > 0 {
        let prev = entries.drop_last();
        lemma_members_in_contains(prev, g, m);
        let e = entries.last();
        let rest = members_in(prev, g);
        if prev.contains((g, m.0, m.1)) {
            let q = choose|q: int| 0 <= q < prev.len() && prev[q] == (g, m.0, m.1);
            assert(entries[q] == prev[q]);
        }
        if entries.contains((g, m.0, m.1)) {
            let q = choose|q: int| 0 <= q < entries.len() && entries[q] == (g, m.0, m.1);
            if q < prev.len() {
                assert(prev[q] == entries[q]);
            }
        }
        if e.0 == g {
            let r = rest.push((e.1, e.2));
            if rest.contains(m) {
                let q = choose|q: int| 0 <= q < rest.len() && rest[q] == m;
                assert(r[q] == m);
            }
            if r.contains(m) {
                let q = choose|q: int| 0 <= q < r.len() && r[q] == m;
                if q < rest.len() {
                    assert(rest[q] == m);
                }
            }
            if m == (e.1, e.2) {
                assert(r[rest.len() as int] == m);
                assert(entries[entries.len() - 1] == (g, m.0, m.1));
            }
        }
    }
}

proof fn lemma_all_entries_contains(ifaces: Seq<InterfaceView>, e: GroupEntry)
    ensures
        all_entries(ifaces).contains(e) <==> exists|k: int|
            0 <= k < ifaces.len() && interface_entries(#[trigger] ifaces[k]).contains(e),
    decreases ifaces.len(),
{
    if ifaces.len() > 0 {
        let prev = ifaces.drop_last();
        lemma_all_entries_contains(prev, e);
        let a = all_entries(prev);
        let b = interface_entries(ifaces.last());
        if (a + b).contains(e) {
            let q = choose|q: int| 0 <= q < (a + b).len() && (a + b)[q] == e;
            if q < a.len() {
                assert(a[q] == e);
                assert(a.contains(e));
                let k = choose|k: int| 0 <= k < prev.len() && interface_entries(#[trigger] prev[k]).contains(e);
                assert(ifaces[k] == prev[k]);
            } else {
                assert(b[q - a.len()] == e);
                assert(b.contains(e));
                assert(ifaces[ifaces.len() - 1] == ifaces.last());
            }
        }
        if exists|k: int| 0 <= k < ifaces.len() && interface_entries(#[trigger] ifaces[k]).contains(e) {
            let k = choose|k: int| 0 <= k < ifaces.len() && interface_entries(#[trigger] ifaces[k]).contains(e);
            if k < prev.len() {
                assert(prev[k] == ifaces[k]);
                assert(a.contains(e));
                let q = choose|q: int| 0 <= q < a.len() && a[q] == e;
                assert((a + b)[q] == e);
            } else {
                assert(b.contains(e));
                let q = choose|q: int| 0 <= q < b.len() && b[q] == e;
                assert((a + b)[a.len() + q] == e);
            }
        }
    }
}

proof fn lemma_v4_entries_contains(name: Seq<char>, addrs: Seq<AddressView>, e: GroupEntry)
    ensures
        v4_entries(name, addrs).contains(e) <==> (e.1 == name && e.2 is Some && v4_placed(addrs, e.0, e.2->0)),
        v4_entries(name, addrs).contains(e) ==> e.0 is Ipv4,
        v4_entries(name, addrs).len() == 0 <==> forall|a: int|
            0 <= a < addrs.len() ==> !((#[trigger] addrs[a]).prefix_len is Some && ipv4_octets_spec(
                addrs[a].value,
            ) is Some),
    decreases addrs.len(),
{
    if addrs.len() > 0 {
        let prev = addrs.drop_last();
        lemma_v4_entries_contains(name, prev, e);
        let rest = v4_entries(name, prev);
        let x = addrs.last();
        assert(addrs[addrs.len() - 1] == x);
        assert forall|a: int| 0 <= a < prev.len() implies prev[a] == addrs[a] by {}
        match (x.prefix_len, ipv4_octets_spec(x.value)) {
            (Some(p), Some(o)) => {
                let r = rest.push((v4_subnet(o, p), name, Some(x.value)));
                assert(r[rest.len() as int] == (v4_subnet(o, p), name, Some(x.value)));
                if r.contains(e) {
                    let q = choose|q: int| 0 <= q < r.len() && r[q] == e;
                    if q < rest.len() {
                        assert(rest[q] == e);
                        assert(rest.contains(e));
                        let v = e.2->0;
                        let a = choose|a: int|
                            0 <= a < prev.len() && (#[trigger] prev[a]).value == v && match (
                                prev[a].prefix_len,
                                ipv4_octets_spec(v),
                            ) {
                                (Some(p), Some(o)) => v4_subnet(o, p) == e.0,
                                _ => false,
                            };
                        assert(addrs[a] == prev[a]);
                    } else {
                        assert(e == (v4_subnet(o, p), name, Some(x.value)));
                    }
                }
                if e.1 == name && e.2 is Some && v4_placed(addrs, e.0, e.2->0) {
                    let v = e.2->0;
                    let a = choose|a: int|
                        0 <= a < addrs.len() && (#[trigger] addrs[a]).value == v && match (
                            addrs[a].prefix_len,
                            ipv4_octets_spec(v),
                        ) {
                            (Some(p), Some(o)) => v4_subnet(o, p) == e.0,
                            _ => false,
                        };
                    if a < prev.len() {
                        assert(prev[a] == addrs[a]);
                        assert(v4_placed(prev, e.0, v));
                        assert(rest.contains(e));
                        let q = choose|q: int| 0 <= q < rest.len() && rest[q] == e;
                        assert(r[q] == e);
                    } else {
                        assert(r[rest.len() as int] == e);
                    }
                }
            },
            _ => {
                if e.1 == name && e.2 is Some && v4_placed(addrs, e.0, e.2->0) {
                    let v = e.2->0;
                    let a = choose|a: int|
                        0 <= a < addrs.len() && (#[trigger] addrs[a]).value == v && match (
                            addrs[a].prefix_len,
                            ipv4_octets_spec(v),
                        ) {
                            (Some(p), Some(o)) => v4_subnet(o, p) == e.0,
                            _ => false,
                        };
                    if a < prev.len() {
                        assert(prev[a] == addrs[a]);
                        assert(v4_placed(prev, e.0, v));
                    }
                }
                if rest.contains(e) {
                    let v = e.2->0;
                    let a = choose|a: int|
                        0 <= a < prev.len() && (#[trigger] prev[a]).value == v && match (
                            prev[a].prefix_len,
                            ipv4_octets_spec(v),
                        ) {
                            (Some(p), Some(o)) => v4_subnet(o, p) == e.0,
                            _ => false,
                        };
                    assert(addrs[a] == prev[a]);
                }
            },
        }
    }
}

proof fn lemma_v6_entries_contains(name: Seq<char>, addrs: Seq<AddressView>, e: GroupEntry)
    ensures
        v6_entries(name, addrs).contains(e) <==> (e.1 == name && e.2 is Some && v6_placed(addrs, e.0, e.2->0)),
        v6_entries(name, addrs).contains(e) ==> e.0 is Ipv6,
        v6_entries(name, addrs).len() == 0 <==> forall|a: int|
            0 <= a < addrs.len() ==> !((#[trigger] addrs[a]).prefix_len is Some && ipv6_octets_spec(
                addrs[a].value,
            ) is Some),
    decreases addrs.len(),
{
    if addrs.len() > 0 {
        let prev = addrs.drop_last();
        lemma_v6_entries_contains(name, prev, e);
        let rest = v6_entries(name, prev);
        let x = addrs.last();
        assert(addrs[addrs.len() - 1] == x);
        assert forall|a: int| 0 <= a < prev.len() implies prev[a] == addrs[a] by {}
        match (x.prefix_len, ipv6_octets_spec(x.value)) {
            (Some(p), Some(o)) => {
                let r = rest.push((v6_subnet(o, p), name, Some(x.value)));
                assert(r[rest.len() as int] == (v6_subnet(o, p), name, Some(x.value)));
                if r.contains(e) {
                    let q = choose|q: int| 0 <= q < r.len() && r[q] == e;
                    if q < rest.len() {
                        assert(rest[q] == e);
                        assert(rest.contains(e));
                        let v = e.2->0;
                        let a = choose|a: int|
                            0 <= a < prev.len() && (#[trigger] prev[a]).value == v && match (
                                prev[a].prefix_len,
                                ipv6_octets_spec(v),
                            ) {
                                (Some(p), Some(o)) => v6_subnet(o, p) == e.0,
                                _ => false,
                            };
                        assert(addrs[a] == prev[a]);
                    } else {
                        assert(e == (v6_subnet(o, p), name, Some(x.value)));
                    }
                }
                if e.1 == name && e.2 is Some && v6_placed(addrs, e.0, e.2->0) {
                    let v = e.2->0;
                    let a = choose|a: int|
                        0 <= a < addrs.len() && (#[trigger] addrs[a]).value == v && match (
                            addrs[a].prefix_len,
                            ipv6_octets_spec(v),
                        ) {
                            (Some(p), Some(o)) => v6_subnet(o, p) == e.0,
                            _ => false,
                        };
                    if a < prev.len() {
                        assert(prev[a] == addrs[a]);
                        assert(v6_placed(prev, e.0, v));
                        assert(rest.contains(e));
                        let q = choose|q: int| 0 <= q < rest.len() && rest[q] == e;
                        assert(r[q] == e);
                    } else {
                        assert(r[rest.len() as int] == e);
                    }
                }
            },
            _ => {
                if e.1 == name && e.2 is Some && v6_placed(addrs, e.0, e.2->0) {
                    let v = e.2->0;
                    let a = choose|a: int|
                        0 <= a < addrs.len() && (#[trigger] addrs[a]).value == v && match (
                            addrs[a].prefix_len,
                            ipv6_octets_spec(v),
                        ) {
                            (Some(p), Some(o)) => v6_subnet(o, p) == e.0,
                            _ => false,
                        };
                    if a < prev.len() {
                        assert(prev[a] == addrs[a]);
                        assert(v6_placed(prev, e.0, v));
                    }
                }
                if rest.contains(e) {
                    let v = e.2->0;
                    let a = choose|a: int|
                        0 <= a < prev.len() && (#[trigger] prev[a]).value == v && match (
                            prev[a].prefix_len,
                            ipv6_octets_spec(v),
                        ) {
                            (Some(p), Some(o)) => v6_subnet(o, p) == e.0,
                            _ => false,
                        };
                    assert(addrs[a] == prev[a]);
                }
            },
        }
    }
}

proof fn lemma_interface_entries_contains(i: InterfaceView, e: GroupEntry)
    ensures
        interface_entries(i).contains(e) <==> (e.1 == i.name && placed_in(i, e.0, e.2)),
{
    let a = v4_entries(i.name, i.ipv4);
    let b = v6_entries(i.name, i.ipv6);
    lemma_v4_entries_contains(i.name, i.ipv4, e);
    lemma_v6_entries_contains(i.name, i.ipv6, e);
    if (a + b).contains(e) {
        let q = choose|q: int| 0 <= q < (a + b).len() && (a + b)[q] == e;
        if q < a.len() {
            assert(a[q] == e);
            assert(a.contains(e));
        } else {
            assert(b[q - a.len()] == e);
            assert(b.contains(e));
        }
    }
    if a.contains(e) {
        let q = choose|q: int| 0 <= q < a.len() && a[q] == e;
        assert((a + b)[q] == e);
    }
    if b.contains(e) {
        let q = choose|q: int| 0 <= q < b.len() && b[q] == e;
        assert((a + b)[a.len() + q] == e);
    }
    if (a + b).len() == 0 {
        assert(interface_entries(i) == seq![(Subnet::Unassigned, i.name, None::<Seq<char>>)]);
        assert(interface_entries(i)[0] == (Subnet::Unassigned, i.name, None::<Seq<char>>));
        if interface_entries(i).contains(e) {
            let q = choose|q: int| 0 <= q < interface_entries(i).len() && interface_entries(i)[q] == e;
            assert(q == 0);
        }
    } else {
        if a.len() > 0 {
            assert(a.contains(a[0]));
            lemma_v4_entries_contains(i.name, i.ipv4, a[0]);
        } else {
            assert(b.contains(b[0]));
            lemma_v6_entries_contains(i.name, i.ipv6, b[0]);
        }
    }
}

/// In the network view an interface is listed under a subnet, with an
/// address, exactly when that address of it has a prefix length and lies
/// in the subnet (the address masked to the prefix is the network); an
/// interface none of whose addresses can be placed is listed in the
/// unassigned group with no address. Within a group the members come in
/// order of name, each once.
pub proof fn lemma_network_groups(ifaces: Seq<InterfaceView>, g: Subnet, name: Seq<char>, ip: Option<Seq<char>>)
    ensures
        group_rows(all_entries(ifaces), g)[0] == ItemView::SubnetHeader(g),
        group_rows(all_entries(ifaces), g).contains(ItemView::Interface { name, associated_ip: ip })
            <==> exists|k: int| 0 <= k < ifaces.len() && (#[trigger] ifaces[k]).name == name && placed_in(ifaces[k], g, ip),
        forall|a: int, b: int|
            1 <= a < b < group_rows(all_entries(ifaces), g).len() ==> (#[trigger] group_rows(all_entries(ifaces), g)[a]) is Interface
                && (#[trigger] group_rows(all_entries(ifaces), g)[b]) is Interface
                && !chars_before(group_rows(all_entries(ifaces), g)[b]->Interface_name, group_rows(all_entries(ifaces), g)[a]->Interface_name),
{
    let entries = all_entries(ifaces);
    let ms = members_in(entries, g);
    lemma_sort_by_name(ms);
    lemma_dedup_members(sort_by_name(ms));
    let d = dedup_members(sort_by_name(ms));
    let f = |m: Member| ItemView::Interface { name: m.0, associated_ip: m.1 };
    let items = d.map_values(f);
    let rows = group_rows(entries, g);
    assert(rows =~= seq![ItemView::SubnetHeader(g)] + items);
    assert(rows[0] == ItemView::SubnetHeader(g));
    let m = (name, ip);
    lemma_members_in_contains(entries, g, m);
    lemma_all_entries_contains(ifaces, (g, name, ip));
    if exists|k: int| 0 <= k < ifaces.len() && interface_entries(#[trigger] ifaces[k]).contains((g, name, ip)) {
        let k = choose|k: int| 0 <= k < ifaces.len() && interface_entries(#[trigger] ifaces[k]).contains((g, name, ip));
        lemma_interface_entries_contains(ifaces[k], (g, name, ip));
    }
    if exists|k: int| 0 <= k < ifaces.len() && (#[trigger] ifaces[k]).name == name && placed_in(ifaces[k], g, ip) {
        let k = choose|k: int| 0 <= k < ifaces.len() && (#[trigger] ifaces[k]).name == name && placed_in(ifaces[k], g, ip);
        lemma_interface_entries_contains(ifaces[k], (g, name, ip));
    }
    if rows.contains(ItemView::Interface { name, associated_ip: ip }) {
        let q = choose|q: int| 0 <= q < rows.len() && rows[q] == ItemView::Interface { name, associated_ip: ip };
        assert(q > 0);
        assert(items[q - 1] == f(d[q - 1]));
        assert(d[q - 1] == m);
        assert(d.contains(m));
    }
    if d.contains(m) {
        let q = choose|q: int| 0 <= q < d.len() && d[q] == m;
        assert(rows[q + 1] == items[q]);
    }
    assert forall|a: int, b: int| 1 <= a < b < rows.len() implies (#[trigger] rows[a]) is Interface
        && (#[trigger] rows[b]) is Interface && !chars_before(rows[b]->Interface_name, rows[a]->Interface_name) by {
        assert(rows[a] == items[a - 1] && rows[b] == items[b - 1]);
        assert(items[a - 1] == f(d[a - 1]) && items[b - 1] == f(d[b - 1]));
    }
}

pub type ExecEntry = (Subnet, String, Option<String>);

pub open spec fn entry_views(v: Seq<ExecEntry>) -> Seq<GroupEntry> {
    v.map_values(|e: ExecEntry| (e.0, e.1@, opt_chars(e.2)))
}

pub open spec fn member_views(v: Seq<(String, Option<String>)>) -> Seq<Member> {
    v.map_values(|m: (String, Option<String>)| (m.0@, opt_chars(m.1)))
}

pub(crate) fn address_entries(name: &String, addrs: &Vec<InterfaceAddress>, v6: bool) -> (r: Vec<ExecEntry>)
    ensures
        entry_views(r@) == if v6 {
            v6_entries(name@, crate::model::address_views(addrs@))
        } else {
            v4_entries(name@, crate::model::address_views(addrs@))
        },
{
    let ghost av = crate::model::address_views(addrs@);
    let mut r: Vec<ExecEntry> = Vec::new();
    for k in 0..addrs.len()
        invariant
            av == crate::model::address_views(addrs@),
            entry_views(r@) == if v6 {
                v6_entries(name@, av.take(k as int))
            } else {
                v4_entries(name@, av.take(k as int))
            },
    {
        assert(av.take(k + 1).drop_last() =~= av.take(k as int));
        assert(av.take(k + 1).last() == addrs@[k as int]@);
        let a = &addrs[k];
        let ghost before = entry_views(r@);
        if let Some(p) = a.prefix_len {
            if v6 {
                if let Some(o) = parse_ipv6(a.value.as_str()) {
                    let masked = calculate_ipv6_subnet_arr(o.as_slice(), p);
                    let network = octets_value(&masked);
                    assert(masked@ =~= Seq::new(16, |i: int| o@[i] & ipv6_mask_byte(i, p)));
                    r.push((Subnet::Ipv6 { network, prefix_len: p }, name.clone(), Some(a.value.clone())));
                    assert(entry_views(r@) =~= before.push(entry_views(r@)[before.len() as int]));
                }
            } else {
                if let Some(o) = parse_ipv4(a.value.as_str()) {
                    let value = octets_value(&o);
                    proof {
                        lemma_pow256_values();
                    }
                    let network = calculate_ipv4_subnet_u32(value as u32, p);
                    r.push((Subnet::Ipv4 { network, prefix_len: p }, name.clone(), Some(a.value.clone())));
                    assert(entry_views(r@) =~= before.push(entry_views(r@)[before.len() as int]));
                }
            }
        }
    }
    assert(av.take(addrs.len() as int) =~= av);
    r
}

fn interface_entry_list(i: &NetworkInterface) -> (r: Vec<ExecEntry>)
    ensures
        entry_views(r@) == interface_entries(i@),
{
    let mut e = address_entries(&i.name, &i.ipv4, false);
    let mut e6 = address_entries(&i.name, &i.ipv6, true);
    let ghost a = entry_views(e@);
    let ghost b = entry_views(e6@);
    e.append(&mut e6);
    assert(entry_views(e@) =~= a + b);
    if e.len() == 0 {
        e.push((Subnet::Unassigned, i.name.clone(), None));
        assert(entry_views(e@) =~= seq![(Subnet::Unassigned, i.name@, None::<Seq<char>>)]);
    }
    e
}

fn clone_entry(e: &ExecEntry) -> (r: ExecEntry)
    ensures
        (r.0, r.1@, opt_chars(r.2)) == (e.0, e.1@, opt_chars(e.2)),
{
    (e.0, e.1.clone(), copy_opt(&e.2))
}

fn clone_member(m: &(String, Option<String>)) -> (r: (String, Option<String>))
    ensures
        (r.0@, opt_chars(r.1)) == (m.0@, opt_chars(m.1)),
{
    (m.0.clone(), copy_opt(&m.1))
}

/// A group being built: its subnet and its members in the order found.
pub type ExecGroup = (Subnet, Vec<(String, Option<String>)>);

pub open spec fn group_keys(groups: Seq<ExecGroup>) -> Seq<Subnet> {
    groups.map_values(|g: ExecGroup| g.0)
}

/// The groups hold the subnets of the entries in increasing order, each
/// with its members in the order of the entries.
pub open spec fn groups_ok(groups: Seq<ExecGroup>, entries: Seq<GroupEntry>) -> bool {
    &&& is_group_order(group_keys(groups), entries)
    &&& forall|a: int|
        0 <= a < groups.len() ==> member_views((#[trigger] groups[a]).1@) == members_in(
            entries,
            groups[a].0,
        )
}

proof fn lemma_members_absent(entries: Seq<GroupEntry>, g: Subnet)
    requires
        !entry_subnets(entries).contains(g),
    ensures
        members_in(entries, g).len() == 0,
    decreases entries.len(),
{
    if entries.len() > 0 {
        let t = entries.drop_last();
        assert(entries[entries.len() - 1].0 != g);
        assert(!entry_subnets(t).contains(g)) by {
            if entry_subnets(t).contains(g) {
                let i = choose|i: int| 0 <= i < t.len() && #[trigger] t[i].0 == g;
                assert(entries[i] == t[i]);
            }
        }
        lemma_members_absent(t, g);
    }
}

proof fn lemma_entry_subnets_push(entries: Seq<GroupEntry>, e: GroupEntry)
    ensures
        entry_subnets(entries.push(e)) == entry_subnets(entries).insert(e.0),
{
    let s = entries.push(e);
    assert forall|g: Subnet| #[trigger] entry_subnets(s).contains(g) == entry_subnets(entries).insert(e.0).contains(g) by {
        if entry_subnets(s).contains(g) && g != e.0 {
            let i = choose|i: int| 0 <= i < s.len() && #[trigger] s[i].0 == g;
            assert(i < entries.len());
            assert(entries[i] == s[i]);
        }
        if entry_subnets(entries).contains(g) {
            let i = choose|i: int| 0 <= i < entries.len() && #[trigger] entries[i].0 == g;
            assert(s[i] == entries[i]);
        }
        if g == e.0 {
            assert(s[entries.len() as int] == e);
        }
    }
    assert(entry_subnets(s) =~= entry_subnets(entries).insert(e.0));
}

fn add_entry(groups: &mut Vec<ExecGroup>, e: ExecEntry, Ghost(entries): Ghost<Seq<GroupEntry>>)
    requires
        groups_ok(old(groups)@, entries),
    ensures
        groups_ok(final(groups)@, entries.push((e.0, e.1@, opt_chars(e.2)))),
{
    let ghost ev = (e.0, e.1@, opt_chars(e.2));
    let ghost e2 = entries.push(ev);
    let ghost g0 = groups@;
    proof {
        lemma_entry_subnets_push(entries, ev);
        assert(e2.drop_last() =~= entries);
    }
    let (g, name, ip) = e;
    let mut q: usize = 0;
    while q < groups.len() && groups[q].0.precedes(&g)
        invariant
            groups@ == g0,
            q <= groups@.len(),
            forall|a: int| 0 <= a < q ==> subnet_before(#[trigger] groups@[a].0, g),
        decreases groups@.len() - q,
    {
        q = q + 1;
    }
    let ghost keys0 = group_keys(g0);
    if q < groups.len() && groups[q].0 == g {
        let (k, mut ms) = groups.remove(q);
        let ghost before = member_views(ms@);
        ms.push((name, ip));
        assert(member_views(ms@) =~= before.push((ev.1, ev.2)));
        groups.insert(q, (k, ms));
        let ghost g1 = groups@;
        assert(group_keys(g1) =~= keys0);
        assert forall|a: int| 0 <= a < g1.len() implies member_views((#[trigger] g1[a]).1@) == members_in(
            e2,
            g1[a].0,
        ) by {
            if a != q {
                assert(g1[a] == g0[a]);
                assert(keys0[a] != keys0[q as int]) by {
                    if a < q {
                        assert(subnet_before(keys0[a], keys0[q as int]));
                    } else {
                        assert(subnet_before(keys0[q as int], keys0[a]));
                    }
                    crate::model::lemma_subnet_order(keys0[a], keys0[q as int], keys0[a]);
                }
            }
        }
        assert forall|h: Subnet| #[trigger] entry_subnets(e2).contains(h) <==> group_keys(g1).contains(h) by {
            if h == g {
                assert(group_keys(g1)[q as int] == g);
            }
        }
    } else {
        proof {
            if q < groups@.len() {
                crate::model::lemma_subnet_order(groups@[q as int].0, g, g);
            }
        }
        assert(!entry_subnets(entries).contains(g)) by {
            if entry_subnets(entries).contains(g) {
                assert(keys0.contains(g));
                let a = choose|a: int| 0 <= a < keys0.len() && keys0[a] == g;
                if a < q {
                    assert(subnet_before(keys0[a], g));
                    crate::model::lemma_subnet_order(g, g, g);
                } else if a > q {
                    assert(subnet_before(keys0[q as int], keys0[a]));
                    crate::model::lemma_subnet_order(keys0[q as int], g, g);
                    crate::model::lemma_subnet_order(g, keys0[q as int], g);
                }
            }
        }
        proof {
            lemma_members_absent(entries, g);
        }
        let mut ms: Vec<(String, Option<String>)> = Vec::new();
        ms.push((name, ip));
        assert(member_views(ms@) =~= members_in(entries, g).push((ev.1, ev.2)));
        groups.insert(q, (g, ms));
        let ghost g1 = groups@;
        assert(group_keys(g1) =~= keys0.insert(q as int, g));
        assert forall|a: int, b: int| 0 <= a < b < g1.len() implies subnet_before(
            #[trigger] group_keys(g1)[a],
            #[trigger] group_keys(g1)[b],
        ) by {
            let k1 = group_keys(g1);
            if a < q && b < q {
                assert(k1[a] == keys0[a] && k1[b] == keys0[b]);
            } else if a < q && b == q {
                assert(k1[a] == keys0[a]);
            } else if a < q {
                assert(k1[a] == keys0[a] && k1[b] == keys0[b - 1]);
            } else if a == q {
                assert(k1[b] == keys0[b - 1]);
                assert(subnet_before(g, keys0[q as int]));
                if b - 1 > q {
                    assert(subnet_before(keys0[q as int], keys0[b - 1]));
                    crate::model::lemma_subnet_order(g, keys0[q as int], keys0[b - 1]);
                }
            } else {
                assert(k1[a] == keys0[a - 1] && k1[b] == keys0[b - 1]);
            }
        }
        assert forall|a: int| 0 <= a < g1.len() implies member_views((#[trigger] g1[a]).1@) == members_in(
            e2,
            g1[a].0,
        ) by {
            if a < q {
                assert(g1[a] == g0[a]);
                assert(g0[a].0 != g) by {
                    crate::model::lemma_subnet_order(g, g, g);
                }
            } else if a > q {
                assert(g1[a] == g0[a - 1]);
                assert(g0[a - 1].0 != g) by {
                    assert(subnet_before(g, keys0[q as int]));
                    if a - 1 > q {
                        assert(subnet_before(keys0[q as int], keys0[a - 1]));
                        crate::model::lemma_subnet_order(g, keys0[q as int], keys0[a - 1]);
                    }
                    crate::model::lemma_subnet_order(g, g, g);
                }
            }
        }
        assert forall|h: Subnet| #[trigger] entry_subnets(e2).contains(h) <==> group_keys(g1).contains(h) by {
            if h == g {
                assert(group_keys(g1)[q as int] == g);
            }
            if entry_subnets(entries).contains(h) {
                assert(keys0.contains(h));
                let a = choose|a: int| 0 <= a < keys0.len() && keys0[a] == h;
                if a < q {
                    assert(group_keys(g1)[a] == h);
                } else {
                    assert(group_keys(g1)[a + 1] == h);
                }
            }
            if group_keys(g1).contains(h) && h != g {
                let a = choose|a: int| 0 <= a < group_keys(g1).len() && group_keys(g1)[a] == h;
                if a < q {
                    assert(keys0[a] == h);
                } else {
                    assert(a != q);
                    assert(keys0[a - 1] == h);
                }
            }
        }
    }
}

fn subnet_groups(ifaces: &Vec<NetworkInterface>) -> (groups: Vec<ExecGroup>)
    ensures
        groups_ok(groups@, all_entries(interface_views(ifaces@))),
{
    let ghost iv = interface_views(ifaces@);
    let mut groups: Vec<ExecGroup> = Vec::new();
    assert(groups_ok(groups@, all_entries(iv.take(0)))) by {
        assert(all_entries(iv.take(0)) =~= Seq::<GroupEntry>::empty());
        assert forall|g: Subnet| #[trigger] entry_subnets(all_entries(iv.take(0))).contains(g) <==> group_keys(groups@).contains(g) by {}
    }
    for k in 0..ifaces.len()
        invariant
            iv == interface_views(ifaces@),
            groups_ok(groups@, all_entries(iv.take(k as int))),
    {
        let es = interface_entry_list(&ifaces[k]);
        let ghost base = all_entries(iv.take(k as int));
        assert(base + entry_views(es@).take(0) =~= base);
        for j in 0..es.len()
            invariant
                groups_ok(groups@, base + entry_views(es@).take(j as int)),
        {
            let e = clone_entry(&es[j]);
            add_entry(&mut groups, e, Ghost(base + entry_views(es@).take(j as int)));
            assert(base + entry_views(es@).take(j + 1) =~= (base + entry_views(es@).take(j as int)).push(
                (e.0, e.1@, opt_chars(e.2)),
            ));
        }
        assert(iv.take(k + 1).drop_last() =~= iv.take(k as int));
        assert(iv.take(k + 1).last() == ifaces@[k as int]@);
        assert(entry_views(es@).take(es.len() as int) =~= entry_views(es@));
    }
    assert(iv.take(ifaces.len() as int) =~= iv);
    groups
}

proof fn lemma_insertion_point_step(s: Seq<Member>, name: Seq<char>, p: int)
    requires
        0 <= p < s.len(),
        !chars_before(name, s[p].0),
    ensures
        insertion_point(s.skip(p), name) == 1 + insertion_point(s.skip(p + 1), name),
{
    assert(s.skip(p).drop_first() =~= s.skip(p + 1));
    assert(s.skip(p)[0] == s[p]);
}

fn sort_members(ms: &Vec<(String, Option<String>)>) -> (r: Vec<(String, Option<String>)>)
    ensures
        member_views(r@) == sort_by_name(member_views(ms@)),
{
    let ghost mv = member_views(ms@);
    let mut r: Vec<(String, Option<String>)> = Vec::new();
    for k in 0..ms.len()
        invariant
            mv == member_views(ms@),
            member_views(r@) == sort_by_name(mv.take(k as int)),
    {
        let name = chars_of(ms[k].0.as_str());
        let ghost rv = member_views(r@);
        let mut p: usize = 0;
        assert(rv.skip(0) =~= rv);
        while p < r.len() && !chars_precede(&name, &chars_of(r[p].0.as_str()))
            invariant
                rv == member_views(r@),
                p <= r@.len(),
                insertion_point(rv, name@) == p + insertion_point(rv.skip(p as int), name@),
            decreases r@.len() - p,
        {
            proof {
                lemma_insertion_point_step(rv, name@, p as int);
            }
            p = p + 1;
        }
        proof {
            if p < r@.len() {
                assert(rv.skip(p as int)[0] == rv[p as int]);
            } else {
                assert(rv.skip(p as int) =~= Seq::<Member>::empty());
            }
        }
        let m = clone_member(&ms[k]);
        r.insert(p, m);
        assert(mv.take(k + 1).drop_last() =~= mv.take(k as int));
        assert(mv.take(k + 1).last() == mv[k as int]);
        assert(member_views(r@) =~= rv.insert(p as int, mv[k as int]));
    }
    assert(mv.take(ms.len() as int) =~= mv);
    r
}

fn same_member(a: &(String, Option<String>), b: &(String, Option<String>)) -> (r: bool)
    ensures
        r == ((a.0@, opt_chars(a.1)) == (b.0@, opt_chars(b.1))),
{
    str_eq(a.0.as_str(), b.0.as_str()) && match (&a.1, &b.1) {
        (None, None) => true,
        (Some(x), Some(y)) => str_eq(x.as_str(), y.as_str()),
        _ => false,
    }
}

fn dedup_member_list(ms: &Vec<(String, Option<String>)>) -> (r: Vec<(String, Option<String>)>)
    ensures
        member_views(r@) == dedup_members(member_views(ms@)),
{
    let ghost mv = member_views(ms@);
    let mut r: Vec<(String, Option<String>)> = Vec::new();
    assert(mv.take(0) =~= Seq::<Member>::empty());
    for k in 0..ms.len()
        invariant
            mv == member_views(ms@),
            member_views(r@) == dedup_members(mv.take(k as int)),
    {
        let ghost before = member_views(r@);
        assert(mv.take(k + 1).drop_last() =~= mv.take(k as int));
        assert(mv.take(k + 1).last() == mv[k as int]);
        if k == 0 {
            let m = clone_member(&ms[k]);
            r.push(m);
            assert(member_views(r@) =~= mv.take(1));
        } else {
            assert(mv.take(k + 1)[k - 1] == mv[k - 1]);
            if !same_member(&ms[k], &ms[k - 1]) {
                let m = clone_member(&ms[k]);
                r.push(m);
                assert(member_views(r@) =~= before.push(mv[k as int]));
            }
        }
    }
    assert(mv.take(ms.len() as int) =~= mv);
    r
}

/// The network view's rows for these interfaces.
fn network_items(ifaces: &Vec<NetworkInterface>) -> (r: Vec<NavigationItem>)
    ensures
        network_rows(interface_views(ifaces@), item_views(r@)),
{
    let groups = subnet_groups(ifaces);
    let ghost entries = all_entries(interface_views(ifaces@));
    let ghost keys = group_keys(groups@);
    let mut r: Vec<NavigationItem> = Vec::new();
    assert(keys.take(0) =~= Seq::<Subnet>::empty());
    for a in 0..groups.len()
        invariant
            keys == group_keys(groups@),
            entries == all_entries(interface_views(ifaces@)),
            groups_ok(groups@, entries),
            item_views(r@) == grouped_rows(entries, keys.take(a as int)),
    {
        let ghost start = item_views(r@);
        r.push(NavigationItem::SubnetHeader(groups[a].0));
        let sorted = sort_members(&groups[a].1);
        let deduped = dedup_member_list(&sorted);
        let ghost dv = member_views(deduped@);
        assert(dv == dedup_members(sort_by_name(members_in(entries, keys[a as int]))));
        let ghost rows = dv.map_values(|m: Member| ItemView::Interface { name: m.0, associated_ip: m.1 });
        assert(item_views(r@) =~= start + seq![ItemView::SubnetHeader(keys[a as int])] + rows.take(0));
        for j in 0..deduped.len()
            invariant
                dv == member_views(deduped@),
                rows == dv.map_values(|m: Member| ItemView::Interface { name: m.0, associated_ip: m.1 }),
                item_views(r@) == start + seq![ItemView::SubnetHeader(keys[a as int])] + rows.take(j as int),
        {
            let ghost before = item_views(r@);
            r.push(NavigationItem::Interface { name: deduped[j].0.clone(), associated_ip: copy_opt(&deduped[j].1) });
            assert(item_views(r@) =~= before.push(rows[j as int]));
            assert(rows.take(j + 1) =~= rows.take(j as int).push(rows[j as int]));
        }
        assert(rows.take(deduped.len() as int) =~= rows);
        assert(keys.take(a + 1).drop_last() =~= keys.take(a as int));
        assert(keys.take(a + 1).last() == keys[a as int]);
        assert(item_views(r@) =~= grouped_rows(entries, keys.take(a + 1)));
    }
    assert(keys.take(groups.len() as int) =~= keys);
    assert(is_group_order(keys, entries));
    r
}

/// The rows that the current view shows for this state: the timeline shows
/// the recent events; without a snapshot the other views show nothing.
pub open spec fn rows_for(app: App, rows: Seq<ItemView>) -> bool {
    if app.view_mode == ViewMode::Timeline {
        rows == event_rows(app.recent_events@)
    } else {
        match app.current_snapshot {
            None => rows.len() == 0,
            Some(s) => match app.view_mode {
                ViewMode::Interface => rows == interface_rows(interface_views(s.interfaces@)),
                ViewMode::Network => network_rows(interface_views(s.interfaces@), rows),
                ViewMode::Connections => rows == connection_rows(connection_views(s.connections@)),
                ViewMode::Ports => rows == sort_by_port(
                    port_rows(
                        port_views(s.listening_ports@),
                        to_lowercase_spec(app.port_filter@),
                        s.listening_ports@.len(),
                    ),
                ),
                _ => exists|idx: Seq<usize>|
                    is_route_table(
                        idx,
                        route_views(s.routes@),
                        app.route_inspector.sort_column,
                        to_lowercase_spec(app.route_inspector.route_filter@),
                    ) && rows == route_rows(route_views(s.routes@), idx),
            },
        }
    }
}

impl App {
    /// Rebuilds the rows of the current view.
    pub fn update_navigation_items(&mut self)
        ensures
            rows_for(*old(self), item_views(final(self).navigation_items@)),
            *final(self) == (App { navigation_items: final(self).navigation_items, ..*old(self) }),
    {
        let items = if self.view_mode == ViewMode::Timeline {
            event_items(&self.recent_events)
        } else {
            match &self.current_snapshot {
                None => Vec::new(),
                Some(snapshot) => match self.view_mode {
                    ViewMode::Interface => interface_items(&snapshot.interfaces),
                    ViewMode::Network => network_items(&snapshot.interfaces),
                    ViewMode::Connections => connection_items(&snapshot.connections),
                    ViewMode::Ports => {
                        let query = lowercase(&chars_of(self.port_filter.as_str()));
                        sort_items_by_port(port_items(&snapshot.listening_ports, &query))
                    },
                    _ => {
                        let query = lowercase(&chars_of(self.route_inspector.route_filter.as_str()));
                        let idx = route_table_indices(
                            snapshot.routes.as_slice(),
                            self.route_inspector.sort_column,
                            &query,
                        );
                        route_items(&snapshot.routes, &idx)
                    },
                },
            }
        };
        self.navigation_items = items;
    }
}

/// The position of the first interface row called `name`.
pub open spec fn first_row_named(items: Seq<NavigationItem>, name: Seq<char>) -> Option<int>
    decreases items.len(),
{
    if items.len() == 0 {
        None
    } else if item_interface_name(items[0]) == Some(name) {
        Some(0)
    } else {
        match first_row_named(items.drop_first(), name) {
            Some(i) => Some(i + 1),
            None => None,
        }
    }
}

/// The selection after the rows changed: the row of the interface that was
/// selected, if it is still there; otherwise the old position, moved up to
/// the last row if the list got shorter.
pub open spec fn restored_index(items: Seq<NavigationItem>, name: Option<Seq<char>>, current: usize) -> usize {
    if items.len() == 0 {
        0
    } else {
        let found = match name {
            Some(n) => first_row_named(items, n),
            None => None,
        };
        match found {
            Some(i) => i as usize,
            None => if current >= items.len() {
                (items.len() - 1) as usize
            } else {
                current
            },
        }
    }
}

fn find_row_named(items: &Vec<NavigationItem>, name: &str) -> (r: Option<usize>)
    ensures
        match r {
            Some(i) => first_row_named(items@, name@) == Some(i as int) && i < items@.len(),
            None => first_row_named(items@, name@) is None,
        },
{
    let mut i: usize = 0;
    assert(items@.skip(0) =~= items@);
    while i < items.len()
        invariant
            i <= items@.len(),
            first_row_named(items@, name@) == match first_row_named(items@.skip(i as int), name@) {
                Some(j) => Some(j + i),
                None => None,
            },
        decreases items@.len() - i,
    {
        assert(items@.skip(i as int)[0] == items@[i as int]);
        let hit = match &items[i] {
            NavigationItem::Interface { name: n, .. } => str_eq(n.as_str(), name),
            _ => false,
        };
        if hit {
            return Some(i);
        }
        assert(items@.skip(i as int).drop_first() =~= items@.skip(i + 1));
        i = i + 1;
    }
    assert(items@.skip(i as int) =~= Seq::<NavigationItem>::empty());
    None
}

impl App {
    /// Points the selection at the row of the interface called
    /// `selected_name` if there is one, and otherwise keeps it inside the
    /// list.
    fn restore_selection(&mut self, selected_name: Option<&str>)
        ensures
            *final(self) == (App {
                selected_index: restored_index(
                    old(self).navigation_items@,
                    match selected_name {
                        Some(n) => Some(n@),
                        None => None,
                    },
                    old(self).selected_index,
                ),
                ..*old(self)
            }),
    {
        let len = self.navigation_items.len();
        if len == 0 {
            self.selected_index = 0;
            return;
        }
        if let Some(name) = selected_name {
            if let Some(index) = find_row_named(&self.navigation_items, name) {
                self.selected_index = index;
                return;
            }
        }
        if self.selected_index >= len {
            self.selected_index = len - 1;
        }
    }

    /// The selected interface's name as an owned string.
    fn selected_name_owned(&self) -> (r: Option<String>)
        ensures
            opt_chars(r) == selected_name(self.navigation_items@, self.selected_index as int),
    {
        match self.selected_interface_name() {
            Some(n) => Some(owned(n)),
            None => None,
        }
    }

    /// Switches to another view: the details scroll back, the ports and
    /// route filters are cleared, the rows are rebuilt and the selected
    /// interface stays selected where it can; otherwise the first row is
    /// selected.
    pub fn set_view_mode(&mut self, mode: ViewMode)
        ensures
            view_mode_effect(*old(self), mode, *final(self)),
    {
        if self.view_mode == mode {
            return;
        }
        let selected = self.selected_name_owned();
        self.view_mode = mode;
        self.details_scroll = 0;
        self.port_filter = String::new();
        self.port_filter_active = false;
        self.route_inspector.route_filter = String::new();
        self.route_inspector.route_filter_active = false;
        self.update_navigation_items();
        self.selected_index = 0;
        match &selected {
            Some(n) => self.restore_selection(Some(n.as_str())),
            None => self.restore_selection(None),
        }
    }

    /// Recomputes the route diagnostics from the current snapshot (none
    /// without one).
    pub fn refresh_route_diagnostics(&mut self)
        ensures
            crate::route_inspector::diagnostics::diagnostic_views(final(self).route_inspector.diagnostics@)
                == match old(self).current_snapshot {
                None => Seq::empty(),
                Some(s) => crate::route_inspector::diagnostics::route_findings(
                    route_views(s.routes@),
                    interface_views(s.interfaces@),
                ),
            },
            *final(self) == (App {
                route_inspector: RouteInspectorState {
                    diagnostics: final(self).route_inspector.diagnostics,
                    ..old(self).route_inspector
                },
                ..*old(self)
            }),
    {
        let diagnostics = match &self.current_snapshot {
            None => Vec::new(),
            Some(snapshot) => crate::route_inspector::diagnostics::build_route_diagnostics(
                snapshot.routes.as_slice(),
                snapshot.interfaces.as_slice(),
            ),
        };
        assert(diagnostics@.len() == 0 ==> crate::route_inspector::diagnostics::diagnostic_views(diagnostics@) =~= Seq::empty());
        self.route_inspector.diagnostics = diagnostics;
    }

    /// Adds an event to the timeline, which keeps its last hundred.
    pub fn push_event(&mut self, event: NetworkEvent)
        ensures
            final(self).recent_events@ == keep_last(old(self).recent_events@.push(event), EVENT_LIMIT as nat),
            *final(self) == (App { recent_events: final(self).recent_events, ..*old(self) }),
    {
        let mut new_events: Vec<NetworkEvent> = Vec::new();
        new_events.push(event);
        assert(self.recent_events@ + new_events@ =~= self.recent_events@.push(event));
        push_events_bounded(&mut self.recent_events, new_events);
    }
}

// ---------------------------------------------------------------------------
// A new snapshot
// ---------------------------------------------------------------------------
/// The interfaces that are up, in order.
pub open spec fn up_interfaces(s: Seq<NetworkInterface>) -> Seq<NetworkInterface>
    decreases s.len(),
{
    if s.len() == 0 {
        s
    } else {
        let rest = up_interfaces(s.drop_last());
        if s.last().status == InterfaceStatus::Up {
            rest.push(s.last())
        } else {
            rest
        }
    }
}

/// The interfaces that the application keeps: all of them, or only those
/// that are up.
pub open spec fn kept_interfaces(s: Seq<NetworkInterface>, show_all: bool) -> Seq<NetworkInterface> {
    if show_all {
        s
    } else {
        up_interfaces(s)
    }
}

fn keep_up_interfaces(ifaces: Vec<NetworkInterface>) -> (r: Vec<NetworkInterface>)
    ensures
        r@ == up_interfaces(ifaces@),
{
    let ghost s0 = ifaces@;
    let mut src = ifaces;
    let mut dst: Vec<NetworkInterface> = Vec::new();
    assert(s0.skip(0) =~= s0);
    assert(s0.take(0) =~= Seq::<NetworkInterface>::empty());
    while src.len() > 0
        invariant
            src.len() <= s0.len(),
            src@ == s0.skip(s0.len() - src.len()),
            dst@ == up_interfaces(s0.take(s0.len() - src.len())),
        decreases src.len(),
    {
        let ghost k = s0.len() - src.len();
        let item = src.remove(0);
        assert(item == s0[k]);
        assert(src@ =~= s0.skip(k + 1));
        assert(s0.take(k + 1).drop_last() =~= s0.take(k));
        assert(s0.take(k + 1).last() == s0[k]);
        if item.status == InterfaceStatus::Up {
            dst.push(item);
        }
    }
    assert(s0.take(s0.len() as int) =~= s0);
    dst
}

/// The histories after one interface of the new snapshot: if the old
/// snapshot has an interface of that name (the last one, when there are
/// several) and both carry counters, the pair of rates is recorded.
pub open spec fn history_step(
    h: Map<Seq<char>, (Seq<u64>, Seq<u64>)>,
    previous: Seq<InterfaceView>,
    cur: InterfaceView,
    elapsed: u64,
) -> Map<Seq<char>, (Seq<u64>, Seq<u64>)> {
    match crate::route_inspector::diagnostics::last_named(previous, cur.name) {
        Some(k) => match (cur.stats, previous[k].stats) {
            (Some(c), Some(p)) => h.insert(
                cur.name,
                history_recorded(
                    h.get(cur.name),
                    rate(c.rx_bytes, p.rx_bytes, elapsed),
                    rate(c.tx_bytes, p.tx_bytes, elapsed),
                ),
            ),
            _ => h,
        },
        None => h,
    }
}

pub open spec fn histories_after(
    h: Map<Seq<char>, (Seq<u64>, Seq<u64>)>,
    previous: Seq<InterfaceView>,
    current: Seq<InterfaceView>,
    elapsed: u64,
) -> Map<Seq<char>, (Seq<u64>, Seq<u64>)>
    decreases current.len(),
{
    if current.len() == 0 {
        h
    } else {
        history_step(histories_after(h, previous, current.drop_last(), elapsed), previous, current.last(), elapsed)
    }
}

/// The seconds between two capture times; none when the clock went back.
pub open spec fn elapsed_secs(current: u64, previous: u64) -> u64 {
    if current >= previous {
        (current - previous) as u64
    } else {
        0
    }
}

/// The histories after a new snapshot: rates recorded against the previous
/// snapshot when time has passed, then only the interfaces of the new
/// snapshot kept.
pub open spec fn traffic_after(
    h: Map<Seq<char>, (Seq<u64>, Seq<u64>)>,
    previous: Option<NetworkSnapshot>,
    current: Seq<InterfaceView>,
    captured_at_secs: u64,
) -> Map<Seq<char>, (Seq<u64>, Seq<u64>)> {
    let recorded = match previous {
        Some(p) => {
            let e = elapsed_secs(captured_at_secs, p.captured_at_secs);
            if e > 0 {
                histories_after(h, interface_views(p.interfaces@), current, e)
            } else {
                h
            }
        },
        None => h,
    };
    recorded.restrict(interface_names(current))
}

fn record_rates(
    history: &mut TrafficHistory,
    previous: &[NetworkInterface],
    current: &[NetworkInterface],
    elapsed: u64,
)
    requires
        elapsed > 0,
    ensures
        final(history).view() == histories_after(
            old(history).view(),
            interface_views(previous@),
            interface_views(current@),
            elapsed,
        ),
{
    let ghost h0 = history.view();
    let ghost pv = interface_views(previous@);
    let ghost cv = interface_views(current@);
    for k in 0..current.len()
        invariant
            elapsed > 0,
            pv == interface_views(previous@),
            cv == interface_views(current@),
            history.view() == histories_after(h0, pv, cv.take(k as int), elapsed),
    {
        assert(cv.take(k + 1).drop_last() =~= cv.take(k as int));
        assert(cv.take(k + 1).last() == current@[k as int]@);
        let cur = &current[k];
        match crate::route_inspector::diagnostics::find_last_named(previous, &cur.name) {
            Some(j) => {
                assert(pv[j as int] == previous@[j as int]@);
                match (&cur.stats, &previous[j].stats) {
                    (Some(c), Some(p)) => {
                        let (rx, tx) = traffic_rates(c, p, elapsed);
                        history.record(&cur.name, rx, tx);
                    },
                    _ => {},
                }
            },
            None => {},
        }
    }
    assert(cv.take(current.len() as int) =~= cv);
}

proof fn lemma_event_views_keep_last(a: Seq<NetworkEvent>, b: Seq<NetworkEvent>, n: nat)
    ensures
        event_views(keep_last(a + b, n)) == keep_last(event_views(a) + event_views(b), n),
{
    assert(event_views(a + b) =~= event_views(a) + event_views(b));
    let all = a + b;
    if all.len() > n {
        assert(event_views(all.skip(all.len() - n)) =~= event_views(all).skip(all.len() - n));
    }
}

impl App {
    /// Takes a new snapshot: the route diagnostics come from all of its
    /// routes and interfaces; unless every interface is shown, only the
    /// interfaces that are up are kept; the old snapshot becomes the
    /// previous one; the traffic histories get the new rates and lose the
    /// interfaces that are gone; the timeline gets the events between the two
    /// snapshots; the rows are rebuilt and the selected interface stays
    /// selected where it can.
    pub fn replace_snapshot(&mut self, snapshot: NetworkSnapshot)
        ensures
            ({
                let kept = kept_interfaces(snapshot.interfaces@, old(self).show_all);
                let previous = match old(self).current_snapshot {
                    Some(c) => Some(c),
                    None => old(self).previous_snapshot,
                };
                &&& final(self).current_snapshot matches Some(c) && c.interfaces@ == kept && c.connections
                    == snapshot.connections && c.listening_ports == snapshot.listening_ports && c.routes
                    == snapshot.routes && c.captured_at_secs == snapshot.captured_at_secs
                &&& final(self).previous_snapshot == previous
                &&& final(self).traffic_history.view() == traffic_after(
                    old(self).traffic_history.view(),
                    previous,
                    interface_views(kept),
                    snapshot.captured_at_secs,
                )
                &&& event_views(final(self).recent_events@) == keep_last(
                    event_views(old(self).recent_events@) + match previous {
                        Some(p) => snapshot_events(interface_views(p.interfaces@), interface_views(kept)),
                        None => Seq::empty(),
                    },
                    EVENT_LIMIT as nat,
                )
                &&& crate::route_inspector::diagnostics::diagnostic_views(
                    final(self).route_inspector.diagnostics@,
                ) == crate::route_inspector::diagnostics::route_findings(
                    route_views(snapshot.routes@),
                    interface_views(snapshot.interfaces@),
                )
                &&& rows_for(*final(self), item_views(final(self).navigation_items@))
                &&& final(self).selected_index == restored_index(
                    final(self).navigation_items@,
                    selected_name(old(self).navigation_items@, old(self).selected_index as int),
                    old(self).selected_index,
                )
                &&& *final(self) == (App {
                    current_snapshot: final(self).current_snapshot,
                    previous_snapshot: final(self).previous_snapshot,
                    traffic_history: final(self).traffic_history,
                    recent_events: final(self).recent_events,
                    route_inspector: RouteInspectorState {
                        diagnostics: final(self).route_inspector.diagnostics,
                        ..old(self).route_inspector
                    },
                    navigation_items: final(self).navigation_items,
                    selected_index: final(self).selected_index,
                    ..*old(self)
                })
            }),
    {
        let diagnostics = crate::route_inspector::diagnostics::build_route_diagnostics(
            snapshot.routes.as_slice(),
            snapshot.interfaces.as_slice(),
        );
        let NetworkSnapshot { interfaces, connections, listening_ports, routes, captured_at_secs } =
            snapshot;
        let interfaces = if self.show_all {
            interfaces
        } else {
            keep_up_interfaces(interfaces)
        };
        let snapshot = NetworkSnapshot { interfaces, connections, listening_ports, routes, captured_at_secs };
        let selected = self.selected_name_owned();
        let old_current = self.current_snapshot.take();
        self.current_snapshot = Some(snapshot);
        if let Some(previous) = old_current {
            self.previous_snapshot = Some(previous);
        }
        match (&self.previous_snapshot, &self.current_snapshot) {
            (Some(previous), Some(current)) => {
                let elapsed = current.captured_at_secs.saturating_sub(previous.captured_at_secs);
                if elapsed > 0 {
                    record_rates(
                        &mut self.traffic_history,
                        previous.interfaces.as_slice(),
                        current.interfaces.as_slice(),
                        elapsed,
                    );
                }
            },
            _ => {},
        }
        match &self.current_snapshot {
            Some(current) => self.traffic_history.retain_interfaces(current.interfaces.as_slice()),
            None => {},
        }
        let new_events = match (&self.previous_snapshot, &self.current_snapshot) {
            (Some(previous), Some(current)) => generate_interface_events(
                previous.interfaces.as_slice(),
                current.interfaces.as_slice(),
            ),
            _ => Vec::new(),
        };
        let ghost ev0 = self.recent_events@;
        let ghost added = new_events@;
        push_events_bounded(&mut self.recent_events, new_events);
        proof {
            lemma_event_views_keep_last(ev0, added, EVENT_LIMIT as nat);
            if added.len() == 0 {
                assert(event_views(added) =~= Seq::empty());
            }
        }
        self.route_inspector.diagnostics = diagnostics;
        self.update_navigation_items();
        match &selected {
            Some(n) => self.restore_selection(Some(n.as_str())),
            None => self.restore_selection(None),
        }
    }
}

// ---------------------------------------------------------------------------
// The selected interface's rates
// ---------------------------------------------------------------------------
/// The position of the first interface called `name`.
pub open spec fn first_named(ifaces: Seq<InterfaceView>, name: Seq<char>) -> Option<int>
    decreases ifaces.len(),
{
    if ifaces.len() == 0 {
        None
    } else if ifaces[0].name == name {
        Some(0)
    } else {
        match first_named(ifaces.drop_first(), name) {
            Some(i) => Some(i + 1),
            None => None,
        }
    }
}

fn find_first_named(ifaces: &[NetworkInterface], name: &str) -> (r: Option<usize>)
    ensures
        match r {
            Some(i) => i < ifaces@.len() && first_named(interface_views(ifaces@), name@) == Some(i as int),
            None => first_named(interface_views(ifaces@), name@) is None,
        },
{
    let ghost iv = interface_views(ifaces@);
    let mut i: usize = 0;
    assert(iv.skip(0) =~= iv);
    while i < ifaces.len()
        invariant
            iv == interface_views(ifaces@),
            i <= ifaces@.len(),
            first_named(iv, name@) == match first_named(iv.skip(i as int), name@) {
                Some(j) => Some(j + i),
                None => None,
            },
        decreases ifaces@.len() - i,
    {
        assert(iv.skip(i as int)[0] == ifaces@[i as int]@);
        if str_eq(ifaces[i].name.as_str(), name) {
            return Some(i);
        }
        assert(iv.skip(i as int).drop_first() =~= iv.skip(i + 1));
        i = i + 1;
    }
    assert(iv.skip(i as int) =~= Seq::<InterfaceView>::empty());
    None
}

/// The rates of the selected interface between the two snapshots: none
/// without both snapshots, when no time has passed, when no interface row
/// is selected, when either snapshot lacks the interface (the first of that
/// name counts) or its counters.
pub open spec fn rates_of(app: App) -> Option<(u64, u64)> {
    match (app.current_snapshot, app.previous_snapshot) {
        (Some(c), Some(p)) => if c.captured_at_secs > p.captured_at_secs {
            let e = (c.captured_at_secs - p.captured_at_secs) as u64;
            match selected_name(app.navigation_items@, app.selected_index as int) {
                Some(n) => {
                    let cv = interface_views(c.interfaces@);
                    let pv = interface_views(p.interfaces@);
                    match (first_named(cv, n), first_named(pv, n)) {
                        (Some(i), Some(j)) => match (cv[i].stats, pv[j].stats) {
                            (Some(cs), Some(ps)) => Some(
                                (rate(cs.rx_bytes, ps.rx_bytes, e), rate(cs.tx_bytes, ps.tx_bytes, e)),
                            ),
                            _ => None,
                        },
                        _ => None,
                    }
                },
                None => None,
            }
        } else {
            None
        },
        _ => None,
    }
}

impl App {
    /// The receive and send rates of the selected interface, in bytes per
    /// second.
    pub fn selected_rates(&self) -> (r: Option<(u64, u64)>)
        ensures
            r == rates_of(*self),
    {
        let current = match &self.current_snapshot {
            Some(c) => c,
            None => return None,
        };
        let previous = match &self.previous_snapshot {
            Some(p) => p,
            None => return None,
        };
        let elapsed = match current.captured_at_secs.checked_sub(previous.captured_at_secs) {
            Some(e) => e,
            None => return None,
        };
        if elapsed == 0 {
            return None;
        }
        let name = match self.selected_interface_name() {
            Some(n) => n,
            None => return None,
        };
        let i = match find_first_named(current.interfaces.as_slice(), name) {
            Some(i) => i,
            None => return None,
        };
        let j = match find_first_named(previous.interfaces.as_slice(), name) {
            Some(j) => j,
            None => return None,
        };
        assert(interface_views(current.interfaces@)[i as int] == current.interfaces@[i as int]@);
        assert(interface_views(previous.interfaces@)[j as int] == previous.interfaces@[j as int]@);
        match (&current.interfaces[i].stats, &previous.interfaces[j].stats) {
            (Some(cs), Some(ps)) => Some(traffic_rates(cs, ps, elapsed)),
            _ => None,
        }
    }
}

// ---------------------------------------------------------------------------
// Searching the raw output
// ---------------------------------------------------------------------------
/// How many bytes UTF-8 takes for a character.
pub open spec fn utf8_len(c: char) -> nat {
    if (c as int) < 0x80 {
        1
    } else if (c as int) < 0x800 {
        2
    } else if (c as int) < 0x10000 {
        3
    } else {
        4
    }
}

/// How many bytes UTF-8 takes for a character sequence.
pub open spec fn byte_len(s: Seq<char>) -> nat
    decreases s.len(),
{
    if s.len() == 0 {
        0
    } else {
        byte_len(s.drop_last()) + utf8_len(s.last())
    }
}

/// A byte count as a `usize`, the largest one when it does not fit.
pub open spec fn clamp_usize(n: nat) -> usize {
    if n <= usize::MAX {
        n as usize
    } else {
        usize::MAX
    }
}

/// The starts of the matches of `p` in `s` from position `from` on: each
/// the first match after the end of the one before (matches do not
/// overlap).
pub open spec fn match_starts(s: Seq<char>, p: Seq<char>, from: int) -> Seq<int>
    decreases s.len() - from,
{
    if p.len() == 0 || from < 0 || from > s.len() {
        Seq::empty()
    } else {
        match first_match(s.skip(from), p) {
            Some(k) => if 0 <= k && from + k + p.len() <= s.len() {
                seq![from + k] + match_starts(s, p, from + k + p.len())
            } else {
                Seq::empty()
            },
            None => Seq::empty(),
        }
    }
}

/// The matches in one line: the query is found in the lower-cased line, and
/// a match is given by its byte range in the lower-cased line.  Because a
/// valid UTF-8 pattern can only match a valid UTF-8 text at character
/// boundaries, these are the matches that a byte search finds.
pub open spec fn line_matches(line_index: int, line: Seq<char>, query: Seq<char>) -> Seq<SearchMatch> {
    let lower = to_lowercase_spec(line);
    match_starts(lower, query, 0).map_values(
        |st: int| match_at(line_index as usize, lower, query, st),
    )
}

/// The match of `query` at character position `st` of a lower-cased line.
pub open spec fn match_at(line_index: usize, lower: Seq<char>, query: Seq<char>, st: int) -> SearchMatch {
    SearchMatch {
        line_index,
        start_byte: clamp_usize(byte_len(lower.take(st))),
        end_byte: clamp_usize(byte_len(lower.take(st)) + byte_len(query)),
    }
}

/// The matches in each line, line by line.
pub open spec fn text_matches(ls: Seq<Seq<char>>, query: Seq<char>) -> Seq<SearchMatch>
    decreases ls.len(),
{
    if ls.len() == 0 {
        Seq::empty()
    } else {
        text_matches(ls.drop_last(), query) + line_matches(ls.len() - 1, ls.last(), query)
    }
}

/// The matches of the raw viewer's search: none for an empty query or
/// without an output for the selected source; otherwise the matches of the
/// lower-cased query in the output's standard output and standard error,
/// joined by a line break.
pub open spec fn raw_search_matches(app: App) -> Seq<SearchMatch> {
    let rv = app.raw_viewer;
    if rv.search_query@.len() == 0 || rv.selected_index >= rv.sources@.len() {
        Seq::empty()
    } else {
        let id = rv.sources@[rv.selected_index as int];
        if app.command_outputs.view().dom().contains(id) {
            let out = app.command_outputs.view()[id];
            text_matches(lines(out.stdout@ + "\n"@ + out.stderr@), to_lowercase_spec(rv.search_query@))
        } else {
            Seq::empty()
        }
    }
}

pub(crate) fn utf8_len_exec(c: char) -> (r: usize)
    ensures
        r == utf8_len(c),
{
    let v = c as u32;
    if v < 0x80 {
        1
    } else if v < 0x800 {
        2
    } else if v < 0x10000 {
        3
    } else {
        4
    }
}

/// The byte length of `s[..to]` counted on from that of `s[..from]`.
fn advance_bytes(s: &Vec<char>, from: usize, to: usize, bytes: usize) -> (r: usize)
    requires
        from <= to <= s@.len(),
        bytes == clamp_usize(byte_len(s@.take(from as int))),
    ensures
        r == clamp_usize(byte_len(s@.take(to as int))),
{
    let mut b = bytes;
    let mut i = from;
    while i < to
        invariant
            from <= i <= to <= s@.len(),
            b == clamp_usize(byte_len(s@.take(i as int))),
        decreases to - i,
    {
        assert(s@.take(i + 1).drop_last() =~= s@.take(i as int));
        assert(s@.take(i + 1).last() == s@[i as int]);
        let w = utf8_len_exec(s[i]);
        b = b.saturating_add(w);
        i = i + 1;
    }
    b
}

fn byte_count(s: &Vec<char>) -> (r: usize)
    ensures
        r == clamp_usize(byte_len(s@)),
{
    assert(s@.take(0) =~= Seq::<char>::empty());
    let r = advance_bytes(s, 0, s.len(), 0);
    assert(s@.take(s@.len() as int) =~= s@);
    r
}

proof fn lemma_clamp_add(a: nat, b: nat)
    ensures
        clamp_usize(a + b) == (if clamp_usize(a) + clamp_usize(b) > usize::MAX {
            usize::MAX
        } else {
            (clamp_usize(a) + clamp_usize(b)) as usize
        }),
{
}

/// The first match of `p` in `s` at or after `from`.
fn find_from(s: &Vec<char>, p: &Vec<char>, from: usize) -> (r: Option<usize>)
    requires
        from <= s@.len(),
    ensures
        match r {
            Some(k) => first_match(s@.skip(from as int), p@) == Some(k as int) && from + k + p@.len() <= s@.len(),
            None => first_match(s@.skip(from as int), p@) is None,
        },
{
    let rest = slice_chars(s.as_slice(), from, s.len());
    assert(rest@ =~= s@.skip(from as int));
    find_chars(rest.as_slice(), p.as_slice())
}

/// Adds the matches of `query` in one lower-cased line.
fn push_line_matches(out: &mut Vec<SearchMatch>, line_index: usize, lower: &Vec<char>, query: &Vec<char>, query_bytes: usize)
    requires
        query@.len() > 0,
        query_bytes == clamp_usize(byte_len(query@)),
    ensures
        final(out)@ == old(out)@ + match_starts(lower@, query@, 0).map_values(
            |st: int| match_at(line_index, lower@, query@, st),
        ),
{
    let ghost out0 = out@;
    let ghost f = |st: int| match_at(line_index, lower@, query@, st);
    let mut pos: usize = 0;
    let mut bytes: usize = 0;
    let ghost mut done: Seq<int> = Seq::empty();
    assert(lower@.take(0) =~= Seq::<char>::empty());
    assert(done + match_starts(lower@, query@, 0) =~= match_starts(lower@, query@, 0));
    assert(out@ =~= out0 + done.map_values(f));
    loop
        invariant
            f == (|st: int| match_at(line_index, lower@, query@, st)),
            query@.len() > 0,
            query_bytes == clamp_usize(byte_len(query@)),
            pos <= lower@.len(),
            bytes == clamp_usize(byte_len(lower@.take(pos as int))),
            done + match_starts(lower@, query@, pos as int) == match_starts(lower@, query@, 0),
            out@ == out0 + done.map_values(f),
        ensures
            out@ == out0 + match_starts(lower@, query@, 0).map_values(f),
        decreases lower@.len() - pos,
    {
        match find_from(lower, query, pos) {
            None => {
                assert(match_starts(lower@, query@, pos as int) =~= Seq::<int>::empty());
                assert(done =~= match_starts(lower@, query@, 0));
                break;
            },
            Some(k) => {
                assert(pos + k + query@.len() <= lower@.len());
                assert(lower@.len() == lower.len());
                let start = pos + k;
                let end = start + query.len();
                let start_bytes = advance_bytes(lower, pos, start, bytes);
                proof {
                    lemma_clamp_add(byte_len(lower@.take(start as int)), byte_len(query@));
                }
                let end_bytes = start_bytes.saturating_add(query_bytes);
                let m = SearchMatch { line_index, start_byte: start_bytes, end_byte: end_bytes };
                assert(start_bytes == clamp_usize(byte_len(lower@.take(start as int))));
                assert(end_bytes == clamp_usize(byte_len(lower@.take(start as int)) + byte_len(query@)));
                assert(m == match_at(line_index, lower@, query@, start as int));
                out.push(m);
                let ghost rest = match_starts(lower@, query@, end as int);
                assert(match_starts(lower@, query@, pos as int) == seq![start as int] + rest);
                let ghost done2 = done.push(start as int);
                assert(done2 + rest =~= done + (seq![start as int] + rest));
                assert(done2.map_values(f) =~= done.map_values(f).push(m));
                assert(out@ =~= out0 + done2.map_values(f));
                let new_bytes = advance_bytes(lower, start, end, start_bytes);
                pos = end;
                bytes = new_bytes;
                proof {
                    done = done2;
                }
            },
        }
    }
}

impl App {
    /// Finds the search query, ignoring case, in the raw output of the
    /// selected source and moves to the first match.
    pub fn update_raw_viewer_search_matches(&mut self)
        ensures
            final(self).raw_viewer.search_matches@ == raw_search_matches(*old(self)),
            *final(self) == (App {
                raw_viewer: RawViewerState {
                    search_matches: final(self).raw_viewer.search_matches,
                    current_match_index: 0,
                    ..old(self).raw_viewer
                },
                ..*old(self)
            }),
    {
        let mut found: Vec<SearchMatch> = Vec::new();
        let rv = &self.raw_viewer;
        if !rv.search_query.as_str().is_empty() && rv.selected_index < rv.sources.len() {
            let id = rv.sources[rv.selected_index];
            match self.command_outputs.get(&id) {
                Some(output) => {
                    let text = concat3(output.stdout.as_str(), "\n", output.stderr.as_str());
                    let ls = lines_of(&chars_of(text.as_str()));
                    let query = lowercase(&chars_of(rv.search_query.as_str()));
                    let ghost lv = views(ls@);
                    if query.len() > 0 {
                        let query_bytes = byte_count(&query);
                        assert(lv.take(0) =~= Seq::<Seq<char>>::empty());
                        for li in 0..ls.len()
                            invariant
                                query@.len() > 0,
                                query_bytes == clamp_usize(byte_len(query@)),
                                lv == views(ls@),
                                found@ == text_matches(lv.take(li as int), query@),
                        {
                            let lower = lowercase(&ls[li]);
                            push_line_matches(&mut found, li, &lower, &query, query_bytes);
                            assert(lv.take(li + 1).drop_last() =~= lv.take(li as int));
                            assert(lv.take(li + 1).last() == ls@[li as int]@);
                        }
                        assert(lv.take(ls.len() as int) =~= lv);
                    } else {
                        assert forall|k: nat| k <= lv.len() implies text_matches(lv.take(k as int), query@).len() == 0 by {
                            lemma_no_matches_for_empty_query(lv.take(k as int), query@);
                        }
                        assert(lv.take(lv.len() as int) =~= lv);
                    }
                },
                None => {},
            }
        }
        self.raw_viewer.search_matches = found;
        self.raw_viewer.current_match_index = 0;
    }
}

proof fn lemma_no_matches_for_empty_query(ls: Seq<Seq<char>>, query: Seq<char>)
    requires
        query.len() == 0,
    ensures
        text_matches(ls, query).len() == 0,
    decreases ls.len(),
{
    if ls.len() > 0 {
        lemma_no_matches_for_empty_query(ls.drop_last(), query);
    }
}

// ---------------------------------------------------------------------------
// The updater's part of the state
// ---------------------------------------------------------------------------
/// The updater's state held by the application.
pub open spec fn update_state_of(app: App) -> UpdateState {
    UpdateState {
        status: app.update_status,
        pending_update: app.pending_update,
        attempted_update_version: app.attempted_update_version,
    }
}

/// The timeline after an optional event.
pub open spec fn with_event(events: Seq<NetworkEvent>, e: Option<NetworkEvent>) -> Seq<NetworkEvent> {
    match e {
        Some(x) => keep_last(events.push(x), EVENT_LIMIT as nat),
        None => events,
    }
}

/// What starting a check does: nothing while one or an install is under
/// way; otherwise the updater is checking and the release URL is given, or,
/// with an unusable repository address, the updater is in error and the
/// failure is on the timeline.
pub open spec fn check_start_effect(old: App, manual: bool, new: App, r: Option<String>) -> bool {
    if crate::updater::busy(old.update_status) {
        r is None && new == old
    } else {
        match crate::update::repository_part(crate::update::REPOSITORY_URL@) {
            Ok(slug) => (r matches Some(url) && url@ == "https://api.github.com/repos/"@ + slug
                + "/releases/latest"@) && new.update_status == (UpdateStatus::Checking { manual })
                && new == (App { update_status: new.update_status, ..old }),
            Err(_) => r is None && (new.update_status matches UpdateStatus::Error { message } && message@
                == "invalid GitHub repository URL"@) && (exists|e: NetworkEvent|
                opt_event(Some(e)) == Some(
                    (
                        NetworkEventKind::UpdateCheckFailed,
                        EventSeverity::Error,
                        "Update check failed: invalid GitHub repository URL"@,
                    ),
                ) && new.recent_events@ == with_event(old.recent_events@, Some(e))) && new == (App {
                update_status: new.update_status,
                recent_events: new.recent_events,
                ..old
            }),
        }
    }
}

/// What starting an install does: with nothing waiting, a manual request
/// leaves a note; while a check or an install is under way, nothing;
/// otherwise the updater is installing the waiting update, which is given.
pub open spec fn install_start_effect(old: App, manual: bool, new: App, r: Option<AvailableUpdate>) -> bool {
    &&& new == (App {
        update_status: new.update_status,
        attempted_update_version: new.attempted_update_version,
        recent_events: new.recent_events,
        ..old
    })
    &&& match old.pending_update {
        None => r is None && new.update_status == old.update_status && new.attempted_update_version
            == old.attempted_update_version && (if manual {
            exists|e: NetworkEvent|
                opt_event(Some(e)) == Some(
                    (
                        NetworkEventKind::UpdateCheckFailed,
                        EventSeverity::Warning,
                        "No pending update found. Press 'u' to check now."@,
                    ),
                ) && new.recent_events@ == with_event(old.recent_events@, Some(e))
        } else {
            new.recent_events@ == old.recent_events@
        }),
        Some(u) => if crate::updater::busy(old.update_status) {
            r is None && new == old
        } else {
            let v = u.target_version@;
            &&& r == Some(u)
            &&& new.attempted_update_version matches Some(a) && a@ == v
            &&& new.update_status matches UpdateStatus::Installing { version, manual: m } && version@ == v
                && m == manual
            &&& new.recent_events@ == old.recent_events@
        },
    }
}

impl App {
    fn take_update_state(&mut self) -> (r: UpdateState)
        ensures
            r == update_state_of(*old(self)),
            *final(self) == (App {
                update_status: UpdateStatus::Idle,
                pending_update: None,
                attempted_update_version: None,
                ..*old(self)
            }),
    {
        let mut st = UpdateState::new();
        std::mem::swap(&mut st.status, &mut self.update_status);
        std::mem::swap(&mut st.pending_update, &mut self.pending_update);
        std::mem::swap(&mut st.attempted_update_version, &mut self.attempted_update_version);
        st
    }

    fn put_update_state(&mut self, st: UpdateState)
        ensures
            *final(self) == (App {
                update_status: st.status,
                pending_update: st.pending_update,
                attempted_update_version: st.attempted_update_version,
                ..*old(self)
            }),
    {
        self.update_status = st.status;
        self.pending_update = st.pending_update;
        self.attempted_update_version = st.attempted_update_version;
    }

    fn push_opt_event(&mut self, e: Option<NetworkEvent>)
        ensures
            final(self).recent_events@ == with_event(old(self).recent_events@, e),
            *final(self) == (App { recent_events: final(self).recent_events, ..*old(self) }),
    {
        if let Some(x) = e {
            self.push_event(x);
        }
    }

    /// Applies a finished check or install to the updater's state and puts
    /// its event on the timeline.
    pub fn apply_update_message(&mut self, message: UpdateMessage)
        ensures
            exists|e: Option<NetworkEvent>|
                message_effect(update_state_of(*old(self)), message, update_state_of(*final(self)), e)
                    && final(self).recent_events@ == with_event(old(self).recent_events@, e),
            !crate::updater::busy(final(self).update_status),
            *final(self) == (App {
                update_status: final(self).update_status,
                pending_update: final(self).pending_update,
                attempted_update_version: final(self).attempted_update_version,
                recent_events: final(self).recent_events,
                ..*old(self)
            }),
    {
        let mut st = self.take_update_state();
        let e = crate::updater::apply_update_message(&mut st, message);
        self.put_update_state(st);
        self.push_opt_event(e);
    }

    /// Starts a check unless one or an install is under way; gives the URL
    /// to fetch when the check started.  With an unusable repository address
    /// the updater goes into error and the failure is put on the timeline.
    pub fn start_update_check(&mut self, manual: bool) -> (r: Option<String>)
        ensures
            check_start_effect(*old(self), manual, *final(self), r),
    {
        let mut st = self.take_update_state();
        let started = crate::updater::begin_update_check(&mut st, manual);
        self.put_update_state(st);
        match started {
            CheckStart::Busy => None,
            CheckStart::InvalidRepository(e) => {
                assert(opt_event(Some(e)) == Some(
                    (
                        NetworkEventKind::UpdateCheckFailed,
                        EventSeverity::Error,
                        "Update check failed: invalid GitHub repository URL"@,
                    ),
                ));
                self.push_event(e);
                None
            },
            CheckStart::Started(url) => Some(url),
        }
    }

    /// Starts installing the waiting update unless a check or an install is
    /// under way; gives the update to install when the install started.  A
    /// manual request with nothing waiting leaves a note on the timeline.
    pub fn start_update_install(&mut self, manual: bool) -> (r: Option<AvailableUpdate>)
        ensures
            install_start_effect(*old(self), manual, *final(self), r),
    {
        let mut st = self.take_update_state();
        let started = crate::updater::begin_update_install(&mut st, manual);
        self.put_update_state(st);
        match started {
            InstallStart::NothingPending(e) => {
                if let Some(x) = &e {
                    assert(opt_event(Some(*x)) == opt_event(e));
                }
                self.push_opt_event(e);
                None
            },
            InstallStart::Busy => None,
            InstallStart::Started(u) => Some(u),
        }
    }

    /// Whether the waiting update should start installing on its own.
    pub fn should_start_auto_install(&self) -> (r: bool)
        ensures
            r == auto_install_due(update_state_of(*self)),
    {
        let st = UpdateState {
            status: clone_status(&self.update_status),
            pending_update: match &self.pending_update {
                Some(u) => Some(crate::updater::clone_update(u)),
                None => None,
            },
            attempted_update_version: copy_opt(&self.attempted_update_version),
        };
        crate::updater::should_start_auto_install(&st)
    }
}

fn clone_status(s: &UpdateStatus) -> (r: UpdateStatus)
    ensures
        r == *s,
{
    match s {
        UpdateStatus::Idle => UpdateStatus::Idle,
        UpdateStatus::Checking { manual } => UpdateStatus::Checking { manual: *manual },
        UpdateStatus::Available { version } => UpdateStatus::Available { version: version.clone() },
        UpdateStatus::Installing { version, manual } => UpdateStatus::Installing {
            version: version.clone(),
            manual: *manual,
        },
        UpdateStatus::Updated { version } => UpdateStatus::Updated { version: version.clone() },
        UpdateStatus::UpToDate => UpdateStatus::UpToDate,
        UpdateStatus::Error { message } => UpdateStatus::Error { message: message.clone() },
    }
}

// ---------------------------------------------------------------------------
// Looking up the route to a destination
// ---------------------------------------------------------------------------
/// The raw outputs of the routes view: the routing table and the default
/// route, then those of the IPv6 table, the policy rules, the last route
/// lookup and the public address that were captured.
pub open spec fn routes_sources(app: App) -> Seq<CommandSourceId> {
    let o = app.command_outputs.view().dom();
    seq![CommandSourceId::NetstatRoutes, CommandSourceId::DefaultRoute] + (if o.contains(
        CommandSourceId::Ipv6Routes,
    ) {
        seq![CommandSourceId::Ipv6Routes]
    } else {
        Seq::empty()
    }) + (if o.contains(CommandSourceId::IpRules) {
        seq![CommandSourceId::IpRules]
    } else {
        Seq::empty()
    }) + (if o.contains(CommandSourceId::RoutePath) {
        seq![CommandSourceId::RoutePath]
    } else {
        Seq::empty()
    }) + (if o.contains(CommandSourceId::PublicIp) {
        seq![CommandSourceId::PublicIp]
    } else {
        Seq::empty()
    })
}
/// A finished route lookup: the parsed path, marked as going through a
/// tunnel when its interface has a tunnel's name.
pub open spec fn marked_path(p: crate::route_inspector::graph::PathView) -> crate::route_inspector::graph::PathView {
    crate::route_inspector::graph::PathView {
        is_vpn: match p.interface {
            Some(i) => crate::route_inspector::vpn::is_vpn_name(i),
            None => false,
        },
        ..p
    }
}

impl App {
    /// The destination to look up: the typed one without surrounding
    /// blanks.  When it is blank, the lookup does not start and the inspector
    /// asks for a destination.
    pub fn begin_route_path_lookup(&mut self) -> (r: Option<String>)
        ensures
            crate::text::trim(old(self).route_inspector.destination_input@).len() == 0 ==> r is None && (
            final(self).route_inspector.latest_path_error matches Some(e) && e@
                == "Enter a destination first."@) && *final(self) == (App {
                route_inspector: RouteInspectorState {
                    latest_path_result: None,
                    latest_path_error: final(self).route_inspector.latest_path_error,
                    ..old(self).route_inspector
                },
                ..*old(self)
            }),
            crate::text::trim(old(self).route_inspector.destination_input@).len() > 0 ==> (r matches Some(d)
                && d@ == crate::text::trim(old(self).route_inspector.destination_input@)) && *final(self)
                == *old(self),
    {
        let d = crate::text::trim_chars(&chars_of(self.route_inspector.destination_input.as_str()));
        if d.len() == 0 {
            self.route_inspector.latest_path_result = None;
            self.route_inspector.latest_path_error = Some(owned("Enter a destination first."));
            None
        } else {
            Some(crate::text::string_of(&d))
        }
    }

    /// Records a finished route lookup of `destination` on a machine whose
    /// operating system is `os`: the command's output is read as `ip route
    /// get` output on Linux and `route -n get` output elsewhere; the path, or
    /// the reason there is none, replaces the previous one.
    pub fn record_route_path(&mut self, os: &str, destination: &str, command: Result<String, String>)
        ensures
            match command {
                Err(e) => final(self).route_inspector.latest_path_result is None && (
                final(self).route_inspector.latest_path_error matches Some(m) && m@
                    == "destination could not be resolved by route command: "@ + e@),
                Ok(out) => match (if crate::command::is_linux(os@) {
                    crate::collector::routes::linux_path(destination@, out@)
                } else {
                    crate::collector::routes::macos_path(destination@, out@)
                }) {
                    Ok(p) => (final(self).route_inspector.latest_path_result matches Some(r) && r@
                        == marked_path(p)) && final(self).route_inspector.latest_path_error is None,
                    Err(m) => final(self).route_inspector.latest_path_result is None && (
                    final(self).route_inspector.latest_path_error matches Some(x) && x@ == m),
                },
            },
            *final(self) == (App {
                route_inspector: RouteInspectorState {
                    latest_path_result: final(self).route_inspector.latest_path_result,
                    latest_path_error: final(self).route_inspector.latest_path_error,
                    ..old(self).route_inspector
                },
                ..*old(self)
            }),
    {
        match command {
            Err(e) => {
                self.route_inspector.latest_path_result = None;
                self.route_inspector.latest_path_error = Some(
                    crate::view::route_path_command_error_message(e.as_str()),
                );
            },
            Ok(out) => {
                let parsed = if str_eq(os, "linux") {
                    crate::collector::routes::parse_linux_route_path(destination, out.as_str())
                } else {
                    crate::collector::routes::parse_macos_route_path(destination, out.as_str())
                };
                match parsed {
                    Ok(mut result) => {
                        let vpn = match &result.interface {
                            Some(i) => crate::route_inspector::vpn::is_vpn_interface_name(i.as_str()),
                            None => false,
                        };
                        result.is_vpn = vpn;
                        self.route_inspector.latest_path_result = Some(result);
                        self.route_inspector.latest_path_error = None;
                    },
                    Err(m) => {
                        self.route_inspector.latest_path_result = None;
                        self.route_inspector.latest_path_error = Some(m);
                    },
                }
            },
        }
    }

    /// The raw outputs that the routes view offers: the routing table and the
    /// default route, then those of the IPv6 table, the policy rules, the
    /// last route lookup and the public address that were captured.
    pub fn routes_raw_sources(&self) -> (r: Vec<CommandSourceId>)
        ensures
            r@ == routes_sources(*self),
    {
        let mut sources: Vec<CommandSourceId> = Vec::new();
        sources.push(CommandSourceId::NetstatRoutes);
        sources.push(CommandSourceId::DefaultRoute);
        let ghost s0 = sources@;
        if self.command_outputs.get(&CommandSourceId::Ipv6Routes).is_some() {
            sources.push(CommandSourceId::Ipv6Routes);
        }
        let ghost s1 = sources@;
        if self.command_outputs.get(&CommandSourceId::IpRules).is_some() {
            sources.push(CommandSourceId::IpRules);
        }
        let ghost s2 = sources@;
        if self.command_outputs.get(&CommandSourceId::RoutePath).is_some() {
            sources.push(CommandSourceId::RoutePath);
        }
        let ghost s3 = sources@;
        if self.command_outputs.get(&CommandSourceId::PublicIp).is_some() {
            sources.push(CommandSourceId::PublicIp);
        }
        proof {
            let e = Seq::<CommandSourceId>::empty();
            let o = self.command_outputs.view().dom();
            assert(s1 =~= s0 + (if o.contains(CommandSourceId::Ipv6Routes) { seq![CommandSourceId::Ipv6Routes] } else { e }));
            assert(s2 =~= s1 + (if o.contains(CommandSourceId::IpRules) { seq![CommandSourceId::IpRules] } else { e }));
            assert(s3 =~= s2 + (if o.contains(CommandSourceId::RoutePath) { seq![CommandSourceId::RoutePath] } else { e }));
            assert(sources@ =~= s3 + (if o.contains(CommandSourceId::PublicIp) { seq![CommandSourceId::PublicIp] } else { e }));
        }
        sources
    }

    /// The command line to copy for a raw source: the one that was run, or
    /// the source's usual command line when nothing was captured.
    pub fn raw_viewer_command_to_copy(&self, id: CommandSourceId, os: &str) -> (r: String)
        ensures
            r@ == if self.command_outputs.view().dom().contains(id) {
                self.command_outputs.view()[id].command@
            } else {
                id.label(os@)
            },
    {
        match self.command_outputs.get(&id) {
            Some(out) => out.command.clone(),
            None => owned(id.as_str(os)),
        }
    }
}

// ---------------------------------------------------------------------------
// The public address
// ---------------------------------------------------------------------------
/// A provider's name, or `Unknown`.
pub open spec fn provider_label(p: Option<Seq<char>>) -> Seq<char> {
    match p {
        Some(x) => x,
        None => "Unknown"@,
    }
}

/// What a newly fetched public address puts on the timeline compared with
/// the known one: a change of address, then a change of provider.
pub open spec fn public_ip_events(known: PublicIpInfo, fetched: PublicIpInfo) -> Seq<EventView> {
    (if known.ip@ != fetched.ip@ {
        seq![
            (
                NetworkEventKind::PublicIpChanged,
                EventSeverity::Info,
                "Public IP Changed: "@ + known.ip@ + " -> "@ + fetched.ip@,
            ),
        ]
    } else {
        Seq::empty()
    }) + (if opt_chars(known.provider) != opt_chars(fetched.provider) {
        seq![
            (
                NetworkEventKind::ProviderChanged,
                EventSeverity::Info,
                "Provider Changed: "@ + provider_label(opt_chars(known.provider)) + " -> "@ + provider_label(
                    opt_chars(fetched.provider),
                ),
            ),
        ]
    } else {
        Seq::empty()
    })
}

pub open spec fn info_view(i: PublicIpInfo) -> (Seq<char>, Option<Seq<char>>, Option<Seq<char>>) {
    (i.ip@, opt_chars(i.provider), opt_chars(i.country))
}

fn provider_text(p: &Option<String>) -> (r: String)
    ensures
        r@ == provider_label(opt_chars(*p)),
{
    match p {
        Some(x) => x.clone(),
        None => owned("Unknown"),
    }
}

fn same_opt_string(a: &Option<String>, b: &Option<String>) -> (r: bool)
    ensures
        r == (opt_chars(*a) == opt_chars(*b)),
{
    match (a, b) {
        (None, None) => true,
        (Some(x), Some(y)) => str_eq(x.as_str(), y.as_str()),
        _ => false,
    }
}

impl App {
    /// Takes a newly fetched public address.  The first one is simply kept;
    /// a later one that differs in address or provider puts the changes on
    /// the timeline and replaces the known one; one that differs in neither
    /// changes nothing (a different country alone is not kept).
    pub fn observe_public_ip(&mut self, fetched: &PublicIpInfo)
        ensures
            match old(self).current_public_ip_info {
                None => (final(self).current_public_ip_info matches Some(i) && info_view(i) == info_view(*fetched))
                    && *final(self) == (App {
                    current_public_ip_info: final(self).current_public_ip_info,
                    ..*old(self)
                }),
                Some(known) => {
                    let events = public_ip_events(known, *fetched);
                    &&& event_views(final(self).recent_events@) == event_views(old(self).recent_events@) + events
                    &&& events.len() > 0 ==> (final(self).current_public_ip_info matches Some(i) && info_view(i)
                        == info_view(*fetched))
                    &&& events.len() == 0 ==> final(self).current_public_ip_info == old(self).current_public_ip_info
                    &&& *final(self) == (App {
                        current_public_ip_info: final(self).current_public_ip_info,
                        recent_events: final(self).recent_events,
                        ..*old(self)
                    })
                },
            },
    {
        let copy = PublicIpInfo {
            ip: fetched.ip.clone(),
            provider: copy_opt(&fetched.provider),
            country: copy_opt(&fetched.country),
        };
        let known = match &self.current_public_ip_info {
            None => {
                self.current_public_ip_info = Some(copy);
                return;
            },
            Some(k) => k,
        };
        let ghost ev0 = event_views(self.recent_events@);
        let ip_changed = !str_eq(known.ip.as_str(), fetched.ip.as_str());
        let provider_changed = !same_opt_string(&known.provider, &fetched.provider);
        let ip_message = if ip_changed {
            let mut m = concat3("Public IP Changed: ", known.ip.as_str(), " -> ");
            push_str(&mut m, fetched.ip.as_str());
            Some(m)
        } else {
            None
        };
        let provider_message = if provider_changed {
            let mut m = concat3("Provider Changed: ", provider_text(&known.provider).as_str(), " -> ");
            push_str(&mut m, provider_text(&fetched.provider).as_str());
            Some(m)
        } else {
            None
        };
        if let Some(m) = ip_message {
            push_event_view(&mut self.recent_events, NetworkEventKind::PublicIpChanged, EventSeverity::Info, m);
        }
        let ghost ev1 = event_views(self.recent_events@);
        if let Some(m) = provider_message {
            push_event_view(&mut self.recent_events, NetworkEventKind::ProviderChanged, EventSeverity::Info, m);
        }
        proof {
            let known_v = self.current_public_ip_info->0;
            let parts = public_ip_events(known_v, *fetched);
            assert(event_views(self.recent_events@) =~= ev0 + parts);
        }
        if ip_changed || provider_changed {
            self.current_public_ip_info = Some(copy);
        }
    }
}

} // verus!
