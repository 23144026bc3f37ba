//! Traffic counters from `ip -statistics` and `netstat -ib` output.
use vstd::prelude::*;

use crate::model::{interface_views, InterfaceStats, InterfaceView, NetworkInterface};
use crate::text::{
    chars_of, contains, contains_str, eq_str, has_char, lines, lines_of, parse_u64, parse_u64_spec,
    split_whitespace, starts_with, starts_with_str, string_of, trim, trim_chars, trim_end_char,
    trim_end_char_exec, views, words,
};

verus! {

/// How one statistics line changes an interface's counters.
pub enum StatUpdate {
    Rx(u64, u64),
    Tx(u64, u64),
    Replace(InterfaceStats),
}

pub open spec fn zero_stats() -> InterfaceStats {
    InterfaceStats { rx_bytes: 0, tx_bytes: 0, rx_packets: 0, tx_packets: 0 }
}

pub open spec fn apply_update(s: InterfaceStats, u: StatUpdate) -> InterfaceStats {
    match u {
        StatUpdate::Rx(packets, bytes) => InterfaceStats { rx_packets: packets, rx_bytes: bytes, ..s },
        StatUpdate::Tx(packets, bytes) => InterfaceStats { tx_packets: packets, tx_bytes: bytes, ..s },
        StatUpdate::Replace(n) => n,
    }
}

/// The counters of `name` after a run of updates, starting from zero.
pub open spec fn stats_after(us: Seq<(Seq<char>, StatUpdate)>, name: Seq<char>) -> Option<
    InterfaceStats,
>
    decreases us.len(),
{
    if us.len() == 0 {
        None
    } else {
        let prev = stats_after(us.drop_last(), name);
        if us.last().0 == name {
            Some(
                apply_update(
                    match prev {
                        Some(s) => s,
                        None => zero_stats(),
                    },
                    us.last().1,
                ),
            )
        } else {
            prev
        }
    }
}

/// The counters kept for `name` in a list of distinct names.
pub open spec fn stats_get(pairs: Seq<(Seq<char>, InterfaceStats)>, name: Seq<char>) -> Option<
    InterfaceStats,
> {
    if exists|i: int| 0 <= i < pairs.len() && (#[trigger] pairs[i]).0 == name {
        Some(pairs[choose|i: int| 0 <= i < pairs.len() && (#[trigger] pairs[i]).0 == name].1)
    } else {
        None
    }
}

pub open spec fn stat_views(v: Seq<(String, InterfaceStats)>) -> Seq<(Seq<char>, InterfaceStats)> {
    v.map_values(|p: (String, InterfaceStats)| (p.0@, p.1))
}

pub open spec fn distinct_names(pairs: Seq<(Seq<char>, InterfaceStats)>) -> bool {
    forall|i: int, j: int|
        0 <= i < j < pairs.len() ==> (#[trigger] pairs[i]).0 != (#[trigger] pairs[j]).0
}

/// The counters kept for `name`.
pub fn stats_lookup(pairs: &Vec<(String, InterfaceStats)>, name: &[char]) -> (r: Option<
    InterfaceStats,
>)
    requires
        distinct_names(stat_views(pairs@)),
    ensures
        r == stats_get(stat_views(pairs@), name@),
{
    let ghost pv = stat_views(pairs@);
    for i in 0..pairs.len()
        invariant
            pv == stat_views(pairs@),
            distinct_names(pv),
            forall|j: int| 0 <= j < i ==> pv[j].0 != name@,
    {
        let ek = chars_of(pairs[i].0.as_str());
        if crate::text::chars_eq(&ek, name) {
            assert(pv[i as int].0 == name@);
            let ghost c = choose|j: int| 0 <= j < pv.len() && (#[trigger] pv[j]).0 == name@;
            assert(c == i);
            return Some(pairs[i].1);
        }
    }
    None
}

fn apply_update_exec(s: InterfaceStats, u: &StatUpdate) -> (r: InterfaceStats)
    ensures
        r == apply_update(s, *u),
{
    match u {
        StatUpdate::Rx(p, b) => InterfaceStats { rx_packets: *p, rx_bytes: *b, ..s },
        StatUpdate::Tx(p, b) => InterfaceStats { tx_packets: *p, tx_bytes: *b, ..s },
        StatUpdate::Replace(n) => *n,
    }
}

/// Applies an update to the counters of `name`, adding it with zero
/// counters first when it is new.
fn update_stats(pairs: &mut Vec<(String, InterfaceStats)>, name: &[char], u: StatUpdate)
    requires
        distinct_names(stat_views(old(pairs)@)),
    ensures
        distinct_names(stat_views(final(pairs)@)),
        stats_get(stat_views(final(pairs)@), name@) == Some(
            apply_update(
                match stats_get(stat_views(old(pairs)@), name@) {
                    Some(s) => s,
                    None => zero_stats(),
                },
                u,
            ),
        ),
        forall|k: Seq<char>|
            k != name@ ==> #[trigger] stats_get(stat_views(final(pairs)@), k) == stats_get(
                stat_views(old(pairs)@),
                k,
            ),
{
    let ghost pv = stat_views(pairs@);
    let n = pairs.len();
    let mut i: usize = 0;
    while i < n
        invariant
            n == pairs.len(),
            pairs@ == old(pairs)@,
            pv == stat_views(pairs@),
            pv.len() == n,
            distinct_names(pv),
            forall|j: int| 0 <= j < i ==> pv[j].0 != name@,
        decreases n - i,
    {
        let ek = chars_of(pairs[i].0.as_str());
        assert(pv[i as int].0 == pairs@[i as int].0@);
        if crate::text::chars_eq(&ek, name) {
            let ghost c0 = choose|j: int| 0 <= j < pv.len() && (#[trigger] pv[j]).0 == name@;
            assert(c0 == i);
            let current = pairs[i].1;
            let updated = apply_update_exec(current, &u);
            let key = string_of(name);
            let ghost before = pv;
            pairs.set(i, (key, updated));
            let ghost after = stat_views(pairs@);
            assert(after =~= before.update(i as int, (name@, updated)));
            assert(after[i as int].0 == name@);
            assert(distinct_names(after));
            assert forall|k: Seq<char>| k != name@ implies #[trigger] stats_get(after, k)
                == stats_get(before, k) by {
                if exists|j: int| 0 <= j < before.len() && (#[trigger] before[j]).0 == k {
                    let j = choose|j: int| 0 <= j < before.len() && (#[trigger] before[j]).0 == k;
                    assert(j != i);
                    assert(after[j] == before[j]);
                    let a = choose|j: int| 0 <= j < after.len() && (#[trigger] after[j]).0 == k;
                    assert(a == j);
                    let b = choose|j: int| 0 <= j < before.len() && (#[trigger] before[j]).0 == k;
                    assert(b == j);
                } else {
                    assert forall|j: int| 0 <= j < after.len() implies (#[trigger] after[j]).0
                        != k by {
                        if j != i {
                            assert(after[j] == before[j]);
                        }
                    }
                }
            }
            let ghost c = choose|j: int| 0 <= j < after.len() && (#[trigger] after[j]).0 == name@;
            assert(c == i);
            return;
        }
        i = i + 1;
    }
    let ghost before = pv;
    let updated = apply_update_exec(
        InterfaceStats { rx_bytes: 0, tx_bytes: 0, rx_packets: 0, tx_packets: 0 },
        &u,
    );
    pairs.push((string_of(name), updated));
    let ghost after = stat_views(pairs@);
    assert(after =~= before.push((name@, updated)));
    assert(after[before.len() as int].0 == name@);
    assert(distinct_names(after)) by {
        assert forall|x: int, y: int| 0 <= x < y < after.len() implies (#[trigger] after[x]).0
            != (#[trigger] after[y]).0 by {
            assert(after[x] == before[x]);
            if y < before.len() {
                assert(after[y] == before[y]);
            }
        }
    }
    let ghost c = choose|j: int| 0 <= j < after.len() && (#[trigger] after[j]).0 == name@;
    assert(c == before.len()) by {
        if c < before.len() {
            assert(after[c] == before[c]);
        }
    }
    assert forall|k: Seq<char>| k != name@ implies #[trigger] stats_get(after, k) == stats_get(
        before,
        k,
    ) by {
        if exists|j: int| 0 <= j < before.len() && (#[trigger] before[j]).0 == k {
            let j = choose|j: int| 0 <= j < before.len() && (#[trigger] before[j]).0 == k;
            assert(after[j] == before[j]);
            let a = choose|j: int| 0 <= j < after.len() && (#[trigger] after[j]).0 == k;
            assert(a == j) by {
                if a < before.len() {
                    assert(after[a] == before[a]);
                }
            }
        } else {
            assert forall|j: int| 0 <= j < after.len() implies (#[trigger] after[j]).0 != k by {
                if j < before.len() {
                    assert(after[j] == before[j]);
                }
            }
        }
    }
}

// ---------------------------------------------------------------------------
// `ip -statistics` blocks
// ---------------------------------------------------------------------------
/// An unindented line with a `:` starts an interface block.
pub open spec fn is_interface_header(line: Seq<char>) -> bool {
    !(line.len() > 0 && (line[0] == ' ' || line[0] == '\t')) && line.contains(':')
}

/// `RX packets N bytes M` or `TX packets N bytes M`.
pub open spec fn stat_line(t: Seq<char>) -> Option<StatUpdate> {
    let parts = words(t);
    if parts.len() < 5 || parts[1] != "packets"@ || parts[3] != "bytes"@ {
        None
    } else {
        match (parse_u64_spec(parts[2]), parse_u64_spec(parts[4])) {
            (Some(p), Some(b)) => if parts[0] == "RX"@ {
                Some(StatUpdate::Rx(p, b))
            } else if parts[0] == "TX"@ {
                Some(StatUpdate::Tx(p, b))
            } else {
                None
            },
            _ => None,
        }
    }
}

/// The name of the block that a header line starts: the text before its
/// first `:`.
pub open spec fn header_block_name(line: Seq<char>) -> Seq<char> {
    crate::collector::interface::before_char(line, ':')
}

#[verifier::opaque]
pub open spec fn stats_step(
    state: (Option<Seq<char>>, Seq<(Seq<char>, StatUpdate)>),
    line: Seq<char>,
) -> (Option<Seq<char>>, Seq<(Seq<char>, StatUpdate)>) {
    if is_interface_header(line) {
        (Some(header_block_name(line)), state.1)
    } else {
        match state.0 {
            Some(name) => match stat_line(trim(line)) {
                Some(u) => (state.0, state.1.push((name, u))),
                None => state,
            },
            None => state,
        }
    }
}

pub open spec fn stats_scan(ls: Seq<Seq<char>>) -> (Option<Seq<char>>, Seq<(Seq<char>, StatUpdate)>)
    decreases ls.len(),
{
    if ls.len() == 0 {
        (None, seq![])
    } else {
        stats_step(stats_scan(ls.drop_last()), ls.last())
    }
}

/// The counters that `parse_stats` reads for `name`.
pub open spec fn block_stats(input: Seq<char>, name: Seq<char>) -> Option<InterfaceStats> {
    stats_after(stats_scan(lines(input)).1, name)
}

fn parse_stat_line(t: &[char]) -> (r: Option<StatUpdate>)
    ensures
        r == stat_line(t@),
{
    let parts = split_whitespace(t);
    if parts.len() < 5 {
        return None;
    }
    assert(views(parts@)[0] == parts@[0]@ && views(parts@)[1] == parts@[1]@ && views(parts@)[2]
        == parts@[2]@ && views(parts@)[3] == parts@[3]@ && views(parts@)[4] == parts@[4]@);
    if !eq_str(&parts[1], "packets") || !eq_str(&parts[3], "bytes") {
        return None;
    }
    let p = parse_u64(&parts[2])?;
    let b = parse_u64(&parts[4])?;
    if eq_str(&parts[0], "RX") {
        Some(StatUpdate::Rx(p, b))
    } else if eq_str(&parts[0], "TX") {
        Some(StatUpdate::Tx(p, b))
    } else {
        None
    }
}

fn is_interface_header_exec(line: &[char]) -> (r: bool)
    ensures
        r == is_interface_header(line@),
{
    !(line.len() > 0 && (line[0] == ' ' || line[0] == '\t')) && has_char(line, ':')
}

/// Reads per-interface packet and byte counters from the `RX packets .. bytes
/// ..` and `TX packets .. bytes ..` lines of interface blocks.
pub fn parse_stats(input: &str) -> (r: Vec<(String, InterfaceStats)>)
    ensures
        distinct_names(stat_views(r@)),
        forall|k: Seq<char>| #[trigger] stats_get(stat_views(r@), k) == block_stats(input@, k),
{
    let chars = chars_of(input);
    let ls = lines_of(&chars);
    let ghost lv = views(ls@);
    let mut stats: Vec<(String, InterfaceStats)> = Vec::new();
    let mut current: Option<Vec<char>> = None;
    let ghost mut updates: Seq<(Seq<char>, StatUpdate)> = seq![];
    assert(distinct_names(stat_views(stats@)));
    for k in 0..ls.len()
        invariant
            lv == views(ls@),
            (match current {
                Some(c) => Some(c@),
                None => None,
            }, updates) == stats_scan(lv.take(k as int)),
            distinct_names(stat_views(stats@)),
            forall|key: Seq<char>| #[trigger] stats_get(stat_views(stats@), key) == stats_after(updates, key),
    {
        assert(lv.take(k + 1).drop_last() =~= lv.take(k as int));
        assert(lv.take(k + 1).last() == ls@[k as int]@);
        reveal(stats_step);
        let line = &ls[k];
        if is_interface_header_exec(line) {
            current = Some(
                match crate::text::split_once_char(line, ':') {
                    Some((a, _)) => a,
                    None => crate::text::slice_chars(line, 0, line.len()),
                },
            );
        } else {
            match &current {
                Some(name) => {
                    let t = trim_chars(line);
                    match parse_stat_line(&t) {
                        Some(u) => {
                            let ghost uv = u;
                            let ghost s0 = stat_views(stats@);
                            update_stats(&mut stats, name, u);
                            let ghost old_updates = updates;
                            proof {
                                updates = updates.push((name@, uv));
                                assert(updates.drop_last() =~= old_updates);
                                assert forall|key2: Seq<char>| #[trigger] stats_get(
                                    stat_views(stats@),
                                    key2,
                                ) == stats_after(updates, key2) by {
                                    if key2 != name@ {
                                        assert(stats_get(stat_views(stats@), key2) == stats_get(
                                            s0,
                                            key2,
                                        ));
                                    }
                                }
                            }
                        },
                        None => {},
                    }
                },
                None => {},
            }
        }
    }
    assert(lv.take(ls.len() as int) =~= lv);
    stats
}

// ---------------------------------------------------------------------------
// `netstat -ib`
// ---------------------------------------------------------------------------
/// A link-level row of `netstat -ib` (its network column starts `<Link#`) of
/// at least ten columns: the interface name without a trailing `*`, and the
/// packet and byte counters counted from the end of the row.
pub open spec fn netstat_ib_row(line: Seq<char>) -> Option<(Seq<char>, InterfaceStats)> {
    let parts = words(line);
    let n = parts.len();
    if n < 10 || !starts_with(parts[2], "<Link#"@) {
        None
    } else {
        match (
            parse_u64_spec(parts[n - 7]),
            parse_u64_spec(parts[n - 5]),
            parse_u64_spec(parts[n - 4]),
            parse_u64_spec(parts[n - 2]),
        ) {
            (Some(rx_packets), Some(rx_bytes), Some(tx_packets), Some(tx_bytes)) => Some(
                (
                    trim_end_char(parts[0], '*'),
                    InterfaceStats { rx_bytes, tx_bytes, rx_packets, tx_packets },
                ),
            ),
            _ => None,
        }
    }
}

pub open spec fn netstat_ib_updates(ls: Seq<Seq<char>>) -> Seq<(Seq<char>, StatUpdate)>
    decreases ls.len(),
{
    if ls.len() == 0 {
        seq![]
    } else {
        let prev = netstat_ib_updates(ls.drop_last());
        match netstat_ib_row(ls.last()) {
            Some((name, s)) => prev.push((name, StatUpdate::Replace(s))),
            None => prev,
        }
    }
}

/// The counters that `netstat -ib` output gives `name`: its last link row.
pub open spec fn netstat_ib_stats(input: Seq<char>, name: Seq<char>) -> Option<InterfaceStats> {
    stats_after(netstat_ib_updates(lines(input)), name)
}

fn parse_netstat_ib_row(line: &[char]) -> (r: Option<(Vec<char>, InterfaceStats)>)
    ensures
        match r {
            Some((n, s)) => netstat_ib_row(line@) == Some((n@, s)),
            None => netstat_ib_row(line@) is None,
        },
{
    let parts = split_whitespace(line);
    let n = parts.len();
    if n < 10 {
        return None;
    }
    assert(views(parts@)[2] == parts@[2]@);
    if !starts_with_str(&parts[2], "<Link#") {
        return None;
    }
    assert(views(parts@)[n - 7] == parts@[n - 7]@ && views(parts@)[n - 5] == parts@[n - 5]@
        && views(parts@)[n - 4] == parts@[n - 4]@ && views(parts@)[n - 2] == parts@[n - 2]@
        && views(parts@)[0] == parts@[0]@);
    let rx_packets = parse_u64(&parts[n - 7])?;
    let rx_bytes = parse_u64(&parts[n - 5])?;
    let tx_packets = parse_u64(&parts[n - 4])?;
    let tx_bytes = parse_u64(&parts[n - 2])?;
    let name = trim_end_char_exec(&parts[0], '*');
    Some((name, InterfaceStats { rx_bytes, tx_bytes, rx_packets, tx_packets }))
}

fn parse_netstat_ib(input: &[char]) -> (r: Vec<(String, InterfaceStats)>)
    ensures
        distinct_names(stat_views(r@)),
        forall|k: Seq<char>| #[trigger] stats_get(stat_views(r@), k) == netstat_ib_stats(input@, k),
{
    let ls = lines_of(input);
    let ghost lv = views(ls@);
    let mut stats: Vec<(String, InterfaceStats)> = Vec::new();
    let ghost mut updates: Seq<(Seq<char>, StatUpdate)> = seq![];
    assert(distinct_names(stat_views(stats@)));
    for k in 0..ls.len()
        invariant
            lv == views(ls@),
            updates == netstat_ib_updates(lv.take(k as int)),
            distinct_names(stat_views(stats@)),
            forall|key: Seq<char>| #[trigger] stats_get(stat_views(stats@), key) == stats_after(updates, key),
    {
        assert(lv.take(k + 1).drop_last() =~= lv.take(k as int));
        assert(lv.take(k + 1).last() == ls@[k as int]@);
        match parse_netstat_ib_row(&ls[k]) {
            Some((name, s)) => {
                let ghost s0 = stat_views(stats@);
                update_stats(&mut stats, &name, StatUpdate::Replace(s));
                let ghost old_updates = updates;
                proof {
                    updates = updates.push((name@, StatUpdate::Replace(s)));
                    assert(updates.drop_last() =~= old_updates);
                    assert forall|key2: Seq<char>| #[trigger] stats_get(stat_views(stats@), key2)
                        == stats_after(updates, key2) by {
                        if key2 != name@ {
                            assert(stats_get(stat_views(stats@), key2) == stats_get(s0, key2));
                        }
                    }
                }
            },
            None => {},
        }
    }
    assert(lv.take(ls.len() as int) =~= lv);
    stats
}

/// The counters that `merge_stats` takes from `input` for `name`.
pub open spec fn stats_source(input: Seq<char>, name: Seq<char>) -> Option<InterfaceStats> {
    if contains(input, "Ibytes"@) && contains(input, "Obytes"@) {
        netstat_ib_stats(input, name)
    } else {
        block_stats(input, name)
    }
}

/// Gives each interface the counters that `input` (`netstat -ib` output
/// when it names the `Ibytes` and `Obytes` columns, else interface blocks
/// with `RX`/`TX` lines) holds for its name; other interfaces stay as they
/// are.
pub fn merge_stats(input: &str, interfaces: Vec<NetworkInterface>) -> (r: Vec<NetworkInterface>)
    ensures
        r@.len() == interfaces@.len(),
        forall|k: int|
            0 <= k < interfaces@.len() ==> #[trigger] r@[k]@ == (match stats_source(
                input@,
                interfaces@[k].name@,
            ) {
                Some(s) => InterfaceView { stats: Some(s), ..interfaces@[k]@ },
                None => interfaces@[k]@,
            }),
{
    let chars = chars_of(input);
    let stats_by_name = if contains_str(&chars, "Ibytes") && contains_str(&chars, "Obytes") {
        parse_netstat_ib(&chars)
    } else {
        parse_stats(input)
    };
    let ghost start = interfaces@;
    let mut rest = interfaces;
    let mut out: Vec<NetworkInterface> = Vec::new();
    let n = rest.len();
    let mut k: usize = 0;
    while rest.len() > 0
        invariant
            k + rest.len() == n,
            n == start.len(),
            rest@ == start.skip(k as int),
            out@.len() == k,
            distinct_names(stat_views(stats_by_name@)),
            forall|key: Seq<char>| #[trigger] stats_get(stat_views(stats_by_name@), key) == stats_source(input@, key),
            forall|j: int|
                0 <= j < k ==> #[trigger] out@[j]@ == (match stats_source(input@, start[j].name@) {
                    Some(s) => InterfaceView { stats: Some(s), ..start[j]@ },
                    None => start[j]@,
                }),
        decreases rest.len(),
    {
        let ghost rv = rest@;
        let mut it = rest.remove(0);
        assert(it == rv[0]);
        assert(rest@ =~= start.skip(k + 1));
        let name = chars_of(it.name.as_str());
        match stats_lookup(&stats_by_name, &name) {
            Some(s) => {
                it.stats = Some(s);
            },
            None => {},
        }
        out.push(it);
        k = k + 1;
    }
    out
}

} // verus!
