//! CPU and memory figures from `/proc/stat`, `/proc/meminfo` and `vm_stat`.
use vstd::prelude::*;

use crate::model::{CpuSample, SystemMetrics};
use crate::text::{
    chars_of, find_chars, first_match, lines, lines_of, parse_u64, parse_u64_spec, slice_chars,
    split_whitespace, starts_with, starts_with_str, strip_prefix, strip_prefix_str, trim,
    trim_chars, trim_start, trim_start_chars, views, words,
};

verus! {

/// What a line-reading rule reads.
pub enum LineRule {
    Meminfo(Seq<char>),
    Pages(Seq<char>),
    PageSize,
}

pub open spec fn rule_value(rule: LineRule, line: Seq<char>) -> Option<u64> {
    match rule {
        LineRule::Meminfo(key) => meminfo_line(line, key),
        LineRule::Pages(key) => pages_line(line, key),
        LineRule::PageSize => page_size_line(line),
    }
}

/// The value that the first line the rule reads one from gives.
pub open spec fn first_value(ls: Seq<Seq<char>>, rule: LineRule) -> Option<u64>
    decreases ls.len(),
{
    if ls.len() == 0 {
        None
    } else {
        match rule_value(rule, ls[0]) {
            Some(v) => Some(v),
            None => first_value(ls.drop_first(), rule),
        }
    }
}

/// The number on a `Key:   N kB` line of `/proc/meminfo`.
pub open spec fn meminfo_line(line: Seq<char>, key: Seq<char>) -> Option<u64> {
    match strip_prefix(line, key) {
        Some(rest) => match strip_prefix(trim_start(rest), ":"@) {
            Some(value) => {
                let w = words(trim_start(value));
                if w.len() > 0 {
                    parse_u64_spec(w[0])
                } else {
                    None
                }
            },
            None => None,
        },
        None => None,
    }
}

/// The value of `key` in `/proc/meminfo`, in KiB.
pub open spec fn meminfo_value(input: Seq<char>, key: Seq<char>) -> Option<u64> {
    first_value(lines(input), LineRule::Meminfo(key))
}

fn meminfo_line_exec(line: &[char], key: &str) -> (r: Option<u64>)
    ensures
        r == meminfo_line(line@, key@),
{
    let rest = strip_prefix_str(line, key)?;
    let r1 = trim_start_chars(&rest);
    let value = strip_prefix_str(&r1, ":")?;
    let v1 = trim_start_chars(&value);
    let w = split_whitespace(&v1);
    if w.len() > 0 {
        assert(views(w@)[0] == w@[0]@);
        parse_u64(&w[0])
    } else {
        None
    }
}

fn linux_meminfo_value(input: &[char], key: &str) -> (r: Option<u64>)
    ensures
        r == meminfo_value(input@, key@),
{
    let ls = lines_of(input);
    let ghost lv = views(ls@);
    assert(lv.skip(0) =~= lv);
    let ghost f = LineRule::Meminfo(key@);
    for i in 0..ls.len()
        invariant
            lv == views(ls@),
            lv == lines(input@),
            f == LineRule::Meminfo(key@),
            first_value(lv, f) == first_value(lv.skip(i as int), f),
    {
        assert(lv.skip(i as int)[0] == ls@[i as int]@);
        assert(lv.skip(i as int).drop_first() =~= lv.skip(i + 1));
        match meminfo_line_exec(&ls[i], key) {
            Some(v) => {
                return Some(v);
            },
            None => {},
        }
    }
    assert(lv.skip(ls.len() as int) =~= Seq::<Seq<char>>::empty());
    None
}

/// `/proc/meminfo` holds figures that fit in bytes.
pub open spec fn meminfo_fits(input: Seq<char>) -> bool {
    meminfo_value(input, "MemTotal"@) matches Some(t) ==> t * 1024 <= u64::MAX
}

/// Memory figures from `/proc/meminfo`: the total, and the total less the
/// available memory as used, both in bytes; `None` unless both `MemTotal`
/// and `MemAvailable` are there.
pub fn parse_linux_memory(input: &str) -> (r: Option<SystemMetrics>)
    requires
        meminfo_fits(input@),
    ensures
        match (meminfo_value(input@, "MemTotal"@), meminfo_value(input@, "MemAvailable"@)) {
            (Some(total), Some(available)) => r == Some(
                SystemMetrics {
                    cpu_usage_percent: None,
                    memory_used_bytes: Some(
                        ((if total >= available {
                            total - available
                        } else {
                            0
                        }) * 1024) as u64,
                    ),
                    memory_total_bytes: Some((total * 1024) as u64),
                },
            ),
            _ => r is None,
        },
{
    let chars = chars_of(input);
    let total_kib = linux_meminfo_value(&chars, "MemTotal")?;
    let available_kib = linux_meminfo_value(&chars, "MemAvailable")?;
    let used_kib = total_kib.saturating_sub(available_kib);
    Some(
        SystemMetrics {
            cpu_usage_percent: None,
            memory_used_bytes: Some(used_kib * 1024),
            memory_total_bytes: Some(total_kib * 1024),
        },
    )
}

/// The numbers among the words of a line after its first word, those that
/// do not read as numbers left out.
pub open spec fn numbers_after_first(ws: Seq<Seq<char>>) -> Seq<u64>
    decreases ws.len(),
{
    if ws.len() <= 1 {
        seq![]
    } else {
        let prev = numbers_after_first(ws.drop_last());
        match parse_u64_spec(ws.last()) {
            Some(v) => prev.push(v),
            None => prev,
        }
    }
}

pub open spec fn sum_of(v: Seq<u64>) -> nat
    decreases v.len(),
{
    if v.len() == 0 {
        0
    } else {
        sum_of(v.drop_last()) + v.last() as nat
    }
}

/// The first line of `/proc/stat` that starts with `cpu `.
pub open spec fn cpu_line(ls: Seq<Seq<char>>) -> Option<Seq<char>>
    decreases ls.len(),
{
    if ls.len() == 0 {
        None
    } else if starts_with(ls[0], "cpu "@) {
        Some(ls[0])
    } else {
        cpu_line(ls.drop_first())
    }
}

/// The tick counters of the aggregate `cpu` line of `/proc/stat`.
pub open spec fn cpu_values(input: Seq<char>) -> Option<Seq<u64>> {
    match cpu_line(lines(input)) {
        Some(l) => Some(numbers_after_first(words(l))),
        None => None,
    }
}

/// The counters fit in a `u64` when added up.
pub open spec fn cpu_counters_fit(input: Seq<char>) -> bool {
    cpu_values(input) matches Some(v) ==> sum_of(v) <= u64::MAX
}

proof fn lemma_sum_bounds(v: Seq<u64>, i: int)
    requires
        0 <= i <= v.len(),
    ensures
        sum_of(v.take(i)) <= sum_of(v),
        i < v.len() ==> sum_of(v.take(i)) + v[i] <= sum_of(v),
    decreases v.len() - i,
{
    if i < v.len() {
        lemma_sum_bounds(v, i + 1);
        assert(v.take(i + 1).drop_last() =~= v.take(i));
    } else {
        assert(v.take(i) =~= v);
    }
}

/// Idle and total ticks from the `cpu ` line of `/proc/stat`: idle is the
/// fourth counter plus the fifth (I/O wait), total the sum of all counters;
/// `None` without such a line or with fewer than four counters.
pub fn parse_linux_cpu_sample(input: &str) -> (r: Option<CpuSample>)
    requires
        cpu_counters_fit(input@),
    ensures
        match cpu_values(input@) {
            Some(v) => if v.len() < 4 {
                r is None
            } else {
                r == Some(
                    CpuSample {
                        idle_ticks: (v[3] + if v.len() > 4 {
                            v[4]
                        } else {
                            0
                        }) as u64,
                        total_ticks: sum_of(v) as u64,
                    },
                )
            },
            None => r is None,
        },
{
    let chars = chars_of(input);
    let ls = lines_of(&chars);
    let ghost lv = views(ls@);
    let mut i: usize = 0;
    assert(lv.skip(0) =~= lv);
    while i < ls.len()
        invariant
            lv == views(ls@),
            i <= ls.len(),
            cpu_line(lv) == cpu_line(lv.skip(i as int)),
            cpu_counters_fit(input@),
            lv == lines(input@),
        decreases ls.len() - i,
    {
        assert(lv.skip(i as int)[0] == ls@[i as int]@);
        assert(lv.skip(i as int).drop_first() =~= lv.skip(i + 1));
        if starts_with_str(&ls[i], "cpu ") {
            return cpu_sample_of_line(&ls[i]);
        }
        i = i + 1;
    }
    assert(lv.skip(ls.len() as int) =~= Seq::<Seq<char>>::empty());
    None
}

fn cpu_numbers(line: &Vec<char>) -> (values: Vec<u64>)
    ensures
        values@ == numbers_after_first(words(line@)),
{
    let ws = split_whitespace(line);
    let ghost wv = views(ws@);
    let mut values: Vec<u64> = Vec::new();
    if ws.len() == 0 {
        return values;
    }
    assert(values@ =~= numbers_after_first(wv.take(1)));
    let mut k: usize = 1;
    while k < ws.len()
        invariant
            wv == views(ws@),
            1 <= k <= ws.len(),
            values@ == numbers_after_first(wv.take(k as int)),
        decreases ws.len() - k,
    {
        assert(wv.take(k + 1).drop_last() =~= wv.take(k as int));
        assert(wv.take(k + 1).last() == ws@[k as int]@);
        match parse_u64(&ws[k]) {
            Some(v) => values.push(v),
            None => {},
        }
        k = k + 1;
    }
    assert(wv.take(k as int) =~= wv);
    values
}

fn cpu_sample_of_line(line: &Vec<char>) -> (r: Option<CpuSample>)
    requires
        sum_of(numbers_after_first(words(line@))) <= u64::MAX,
    ensures
        ({
            let v = numbers_after_first(words(line@));
            if v.len() < 4 {
                r is None
            } else {
                r == Some(
                    CpuSample {
                        idle_ticks: (v[3] + if v.len() > 4 {
                            v[4]
                        } else {
                            0
                        }) as u64,
                        total_ticks: sum_of(v) as u64,
                    },
                )
            }
        }),
{
    let values = cpu_numbers(line);
    if values.len() < 4 {
        return None;
    }
    let ghost vv = values@;
    proof {
        lemma_sum_bounds(vv, 3);
        lemma_sum_bounds(vv, 4);
        if vv.len() > 4 {
            lemma_sum_bounds(vv, 5);
        }
        assert(sum_of(vv.take(4)) == sum_of(vv.take(3)) + vv[3]) by {
            assert(vv.take(4).drop_last() =~= vv.take(3));
        }
        if vv.len() > 4 {
            assert(sum_of(vv.take(5)) == sum_of(vv.take(4)) + vv[4]) by {
                assert(vv.take(5).drop_last() =~= vv.take(4));
            }
        }
    }
    let extra = if values.len() > 4 {
        values[4]
    } else {
        0
    };
    let idle_ticks = values[3] + extra;
    let mut total: u64 = 0;
    for j in 0..values.len()
        invariant
            vv == values@,
            total == sum_of(vv.take(j as int)),
            sum_of(vv) <= u64::MAX,
    {
        proof {
            lemma_sum_bounds(vv, j as int);
        }
        assert(vv.take(j + 1).drop_last() =~= vv.take(j as int));
        total = total + values[j];
    }
    assert(vv.take(values.len() as int) =~= vv);
    Some(CpuSample { idle_ticks, total_ticks: total })
}

/// The busy share of the ticks between two samples, in percent.
pub open spec fn cpu_usage(previous: CpuSample, current: CpuSample) -> Option<u8> {
    if current.total_ticks < previous.total_ticks || current.total_ticks == previous.total_ticks {
        None
    } else {
        let total = current.total_ticks - previous.total_ticks;
        let idle = if current.idle_ticks >= previous.idle_ticks {
            current.idle_ticks - previous.idle_ticks
        } else {
            0
        };
        let busy = if total >= idle {
            total - idle
        } else {
            0
        };
        let pct = (busy * 100 + total / 2) / total;
        Some(
            if pct < 100 {
                pct as u8
            } else {
                100
            },
        )
    }
}

/// The samples are close enough for the percentage to be computed in `u64`.
pub open spec fn cpu_usage_fits(previous: CpuSample, current: CpuSample) -> bool {
    current.total_ticks > previous.total_ticks ==> (current.total_ticks - previous.total_ticks)
        * 100 + (current.total_ticks - previous.total_ticks) / 2 <= u64::MAX
}

/// The busy share of the ticks between two samples, in percent, rounded to
/// the nearest and at most 100; `None` when the total did not grow.
pub fn calculate_cpu_usage_percent(previous: CpuSample, current: CpuSample) -> (r: Option<u8>)
    requires
        cpu_usage_fits(previous, current),
    ensures
        r == cpu_usage(previous, current),
        r matches Some(p) ==> p <= 100,
{
    let total_delta = current.total_ticks.checked_sub(previous.total_ticks)?;
    if total_delta == 0 {
        return None;
    }
    let idle_delta = current.idle_ticks.saturating_sub(previous.idle_ticks);
    let busy_delta = total_delta.saturating_sub(idle_delta);
    assert(busy_delta <= total_delta);
    assert(busy_delta * 100 <= total_delta * 100) by (nonlinear_arith)
        requires
            busy_delta <= total_delta,
    ;
    let pct = (busy_delta * 100 + total_delta / 2) / total_delta;
    Some(
        if pct < 100 {
            pct as u8
        } else {
            100
        },
    )
}

// ---------------------------------------------------------------------------
// macOS `vm_stat`
// ---------------------------------------------------------------------------
/// The page size on a `... (page size of N bytes)` line.
pub open spec fn page_size_line(line: Seq<char>) -> Option<u64> {
    match first_match(line, "page size of "@) {
        Some(i) => {
            let rest = line.skip(i + 13);
            match first_match(rest, " bytes"@) {
                Some(j) => parse_u64_spec(rest.take(j)),
                None => None,
            }
        },
        None => None,
    }
}

/// A sequence without any `.`.
pub open spec fn without_dots(s: Seq<char>) -> Seq<char> {
    s.filter(|c: char| c != '.')
}

/// The page count on a `Key:   N.` line.
pub open spec fn pages_line(line: Seq<char>, key: Seq<char>) -> Option<u64> {
    match strip_prefix(trim(line), key) {
        Some(rest) => match strip_prefix(trim_start(rest), ":"@) {
            Some(value) => parse_u64_spec(without_dots(trim(value))),
            None => None,
        },
        None => None,
    }
}

pub open spec fn vm_stat_pages(input: Seq<char>, key: Seq<char>) -> Option<u64> {
    first_value(lines(input), LineRule::Pages(key))
}

fn page_size_line_exec(line: &[char]) -> (r: Option<u64>)
    ensures
        r == page_size_line(line@),
{
    let marker = chars_of("page size of ");
    proof {
        reveal_strlit("page size of ");
    }
    let i = find_chars(line, &marker)?;
    let rest = slice_chars(line, i + 13, line.len());
    assert(rest@ =~= line@.skip(i + 13));
    let bytes = chars_of(" bytes");
    let j = find_chars(&rest, &bytes)?;
    let num = slice_chars(&rest, 0, j);
    parse_u64(&num)
}

fn remove_dots(s: &[char]) -> (r: Vec<char>)
    ensures
        r@ == without_dots(s@),
{
    let mut r: Vec<char> = Vec::new();
    for i in 0..s.len()
        invariant
            r@ == without_dots(s@.take(i as int)),
    {
        assert(s@.take(i + 1).drop_last() =~= s@.take(i as int));
        if s[i] != '.' {
            r.push(s[i]);
        }
        assert(without_dots(s@.take(i + 1)) == if s@[i as int] != '.' {
            without_dots(s@.take(i as int)).push(s@[i as int])
        } else {
            without_dots(s@.take(i as int))
        }) by {
            reveal(Seq::filter);
        }
    }
    assert(s@.take(s.len() as int) =~= s@);
    r
}

fn pages_line_exec(line: &[char], key: &str) -> (r: Option<u64>)
    ensures
        r == pages_line(line@, key@),
{
    let t = trim_chars(line);
    let rest = strip_prefix_str(&t, key)?;
    let r1 = trim_start_chars(&rest);
    let value = strip_prefix_str(&r1, ":")?;
    let v = trim_chars(&value);
    let digits = remove_dots(&v);
    parse_u64(&digits)
}

fn macos_vm_stat_pages(input: &[char], key: &str) -> (r: Option<u64>)
    ensures
        r == vm_stat_pages(input@, key@),
{
    let ls = lines_of(input);
    let ghost lv = views(ls@);
    assert(lv.skip(0) =~= lv);
    let ghost f = LineRule::Pages(key@);
    for i in 0..ls.len()
        invariant
            lv == views(ls@),
            lv == lines(input@),
            f == LineRule::Pages(key@),
            first_value(lv, f) == first_value(lv.skip(i as int), f),
    {
        assert(lv.skip(i as int)[0] == ls@[i as int]@);
        assert(lv.skip(i as int).drop_first() =~= lv.skip(i + 1));
        match pages_line_exec(&ls[i], key) {
            Some(v) => {
                return Some(v);
            },
            None => {},
        }
    }
    assert(lv.skip(ls.len() as int) =~= Seq::<Seq<char>>::empty());
    None
}

fn macos_page_size(input: &[char]) -> (r: Option<u64>)
    ensures
        r == first_value(lines(input@), LineRule::PageSize),
{
    let ls = lines_of(input);
    let ghost lv = views(ls@);
    assert(lv.skip(0) =~= lv);
    let ghost f = LineRule::PageSize;
    for i in 0..ls.len()
        invariant
            lv == views(ls@),
            lv == lines(input@),
            f == LineRule::PageSize,
            first_value(lv, f) == first_value(lv.skip(i as int), f),
    {
        assert(lv.skip(i as int)[0] == ls@[i as int]@);
        assert(lv.skip(i as int).drop_first() =~= lv.skip(i + 1));
        match page_size_line_exec(&ls[i]) {
            Some(v) => {
                return Some(v);
            },
            None => {},
        }
    }
    assert(lv.skip(ls.len() as int) =~= Seq::<Seq<char>>::empty());
    None
}

pub open spec fn or_zero(o: Option<u64>) -> nat {
    match o {
        Some(v) => v as nat,
        None => 0,
    }
}

/// The memory in use according to `vm_stat`: active, wired and compressed
/// pages (each 0 when missing) times the page size.
pub open spec fn macos_memory_used(input: Seq<char>) -> Option<nat> {
    match first_value(lines(input), LineRule::PageSize) {
        Some(page) => Some(
            (or_zero(vm_stat_pages(input, "Pages active"@)) + or_zero(
                vm_stat_pages(input, "Pages wired down"@),
            ) + or_zero(vm_stat_pages(input, "Pages occupied by compressor"@))) * (page as nat),
        ),
        None => None,
    }
}

/// Reads the memory in use, in bytes, from `vm_stat` output.
pub fn parse_macos_memory_used(input: &str) -> (r: Option<u64>)
    requires
        macos_memory_used(input@) matches Some(m) ==> m <= u64::MAX,
    ensures
        match macos_memory_used(input@) {
            Some(m) => r == Some(m as u64),
            None => r is None,
        },
{
    let chars = chars_of(input);
    let page_size = macos_page_size(&chars)?;
    let active = match macos_vm_stat_pages(&chars, "Pages active") {
        Some(v) => v,
        None => 0,
    };
    let wired = match macos_vm_stat_pages(&chars, "Pages wired down") {
        Some(v) => v,
        None => 0,
    };
    let compressed = match macos_vm_stat_pages(&chars, "Pages occupied by compressor") {
        Some(v) => v,
        None => 0,
    };
    let ghost pages = active as nat + wired as nat + compressed as nat;
    if page_size == 0 {
        assert(pages * 0 == 0) by (nonlinear_arith);
        return Some(0);
    }
    assert(pages <= pages * page_size) by (nonlinear_arith)
        requires
            page_size >= 1,
    ;
    let sum = active + wired + compressed;
    Some(sum * page_size)
}

// ---------------------------------------------------------------------------
// Whether the figures can be computed, and the metrics of one reading
// ---------------------------------------------------------------------------
/// Whether the memory figures of `/proc/meminfo` fit in bytes.
pub fn meminfo_fits_check(input: &str) -> (r: bool)
    ensures
        r == meminfo_fits(input@),
{
    let chars = chars_of(input);
    match linux_meminfo_value(&chars, "MemTotal") {
        Some(t) => {
            let limit: u64 = u64::MAX / 1024;
            assert(t <= limit <==> t * 1024 <= u64::MAX) by (nonlinear_arith)
                requires
                    limit == u64::MAX / 1024,
            ;
            t <= limit
        },
        None => true,
    }
}

/// The first line of `/proc/stat` that starts with `cpu `.
fn find_cpu_line(ls: &Vec<Vec<char>>) -> (r: Option<usize>)
    ensures
        match r {
            Some(i) => i < ls@.len() && cpu_line(views(ls@)) == Some(ls@[i as int]@),
            None => cpu_line(views(ls@)) is None,
        },
{
    let ghost lv = views(ls@);
    let mut i: usize = 0;
    assert(lv.skip(0) =~= lv);
    while i < ls.len()
        invariant
            lv == views(ls@),
            i <= ls.len(),
            cpu_line(lv) == cpu_line(lv.skip(i as int)),
        decreases ls.len() - i,
    {
        assert(lv.skip(i as int)[0] == ls@[i as int]@);
        assert(lv.skip(i as int).drop_first() =~= lv.skip(i + 1));
        if starts_with_str(&ls[i], "cpu ") {
            return Some(i);
        }
        i = i + 1;
    }
    assert(lv.skip(ls.len() as int) =~= Seq::<Seq<char>>::empty());
    None
}

/// Whether the counters of `/proc/stat` can be added up in a `u64`.
pub fn cpu_counters_fit_check(input: &str) -> (r: bool)
    ensures
        r == cpu_counters_fit(input@),
{
    let chars = chars_of(input);
    let ls = lines_of(&chars);
    let i = match find_cpu_line(&ls) {
        Some(i) => i,
        None => return true,
    };
    let values = cpu_numbers(&ls[i]);
    let ghost vv = values@;
    assert(cpu_values(input@) == Some(vv));
    let mut total: u64 = 0;
    for j in 0..values.len()
        invariant
            vv == values@,
            cpu_values(input@) == Some(vv),
            total == sum_of(vv.take(j as int)),
    {
        assert(vv.take(j + 1).drop_last() =~= vv.take(j as int));
        match total.checked_add(values[j]) {
            Some(t) => total = t,
            None => {
                proof {
                    lemma_sum_bounds(vv, j as int);
                }
                return false;
            },
        }
    }
    assert(vv.take(values.len() as int) =~= vv);
    true
}

/// Whether the usage between two samples can be computed in a `u64`.
pub fn cpu_usage_fits_check(previous: CpuSample, current: CpuSample) -> (r: bool)
    ensures
        r == cpu_usage_fits(previous, current),
{
    if current.total_ticks <= previous.total_ticks {
        return true;
    }
    let d = (current.total_ticks - previous.total_ticks) as u128;
    d * 100 + d / 2 <= u64::MAX as u128
}

/// The sample that `/proc/stat` gives (as `parse_linux_cpu_sample` reads it).
pub open spec fn cpu_sample_of(input: Seq<char>) -> Option<CpuSample> {
    match cpu_values(input) {
        Some(v) => if v.len() < 4 {
            None
        } else {
            Some(
                CpuSample {
                    idle_ticks: (v[3] + if v.len() > 4 {
                        v[4]
                    } else {
                        0
                    }) as u64,
                    total_ticks: sum_of(v) as u64,
                },
            )
        },
        None => None,
    }
}

/// The memory figures that `/proc/meminfo` gives (as `parse_linux_memory`
/// reads it).
pub open spec fn linux_memory_of(input: Seq<char>) -> Option<SystemMetrics> {
    match (meminfo_value(input, "MemTotal"@), meminfo_value(input, "MemAvailable"@)) {
        (Some(total), Some(available)) => Some(
            SystemMetrics {
                cpu_usage_percent: None,
                memory_used_bytes: Some(
                    ((if total >= available {
                        total - available
                    } else {
                        0
                    }) * 1024) as u64,
                ),
                memory_total_bytes: Some((total * 1024) as u64),
            },
        ),
        _ => None,
    }
}

/// One reading of the Linux metrics from the contents of `/proc/stat` and
/// `/proc/meminfo` (each missing when it could not be read) and the CPU
/// sample of the reading before: the usage since that sample, the memory
/// figures (none without them), and this reading's sample for the next one.
pub fn linux_system_metrics(stat: Option<&str>, meminfo: Option<&str>, previous: Option<CpuSample>) -> (r: (
    SystemMetrics,
    Option<CpuSample>,
))
    requires
        stat matches Some(s) ==> cpu_counters_fit(s@),
        meminfo matches Some(m) ==> meminfo_fits(m@),
        match (stat, previous) {
            (Some(s), Some(p)) => match cpu_sample_of(s@) {
                Some(c) => cpu_usage_fits(p, c),
                None => true,
            },
            _ => true,
        },
    ensures
        ({
            let sample = match stat {
                Some(s) => cpu_sample_of(s@),
                None => None,
            };
            let memory = match meminfo {
                Some(m) => match linux_memory_of(m@) {
                    Some(x) => x,
                    None => SystemMetrics { cpu_usage_percent: None, memory_used_bytes: None, memory_total_bytes: None },
                },
                None => SystemMetrics { cpu_usage_percent: None, memory_used_bytes: None, memory_total_bytes: None },
            };
            &&& r.1 == sample
            &&& r.0.memory_used_bytes == memory.memory_used_bytes
            &&& r.0.memory_total_bytes == memory.memory_total_bytes
            &&& r.0.cpu_usage_percent == match (previous, sample) {
                (Some(p), Some(c)) => cpu_usage(p, c),
                _ => None,
            }
        }),
{
    let sample = match stat {
        Some(s) => parse_linux_cpu_sample(s),
        None => None,
    };
    let memory = match meminfo {
        Some(m) => match parse_linux_memory(m) {
            Some(x) => x,
            None => SystemMetrics::default(),
        },
        None => SystemMetrics::default(),
    };
    let cpu_usage_percent = match (previous, sample) {
        (Some(p), Some(c)) => calculate_cpu_usage_percent(p, c),
        _ => None,
    };
    (
        SystemMetrics {
            cpu_usage_percent,
            memory_used_bytes: memory.memory_used_bytes,
            memory_total_bytes: memory.memory_total_bytes,
        },
        sample,
    )
}

/// Whether the memory in use that `vm_stat` reports fits in a `u64`.
pub fn macos_memory_fits_check(input: &str) -> (r: bool)
    ensures
        r == (macos_memory_used(input@) matches Some(m) ==> m <= u64::MAX),
{
    let chars = chars_of(input);
    let page_size = match macos_page_size(&chars) {
        Some(p) => p,
        None => return true,
    };
    let active = match macos_vm_stat_pages(&chars, "Pages active") {
        Some(v) => v,
        None => 0,
    };
    let wired = match macos_vm_stat_pages(&chars, "Pages wired down") {
        Some(v) => v,
        None => 0,
    };
    let compressed = match macos_vm_stat_pages(&chars, "Pages occupied by compressor") {
        Some(v) => v,
        None => 0,
    };
    let pages: u128 = active as u128 + wired as u128 + compressed as u128;
    match pages.checked_mul(page_size as u128) {
        Some(m) => m <= u64::MAX as u128,
        None => false,
    }
}

/// The macOS memory figures from the output of `sysctl -n hw.memsize` and
/// of `vm_stat`: the total, and the memory in use (at most the total);
/// none when either cannot be read.
pub fn macos_memory(memsize_output: &str, vm_stat_output: &str) -> (r: Option<SystemMetrics>)
    requires
        macos_memory_used(vm_stat_output@) matches Some(m) ==> m <= u64::MAX,
    ensures
        match (crate::text::parse_u64_spec(trim(memsize_output@)), macos_memory_used(vm_stat_output@)) {
            (Some(total), Some(used)) => r == Some(
                SystemMetrics {
                    cpu_usage_percent: None,
                    memory_used_bytes: Some(
                        if used <= total {
                            used as u64
                        } else {
                            total
                        },
                    ),
                    memory_total_bytes: Some(total),
                },
            ),
            _ => r is None,
        },
{
    let total = parse_u64(&trim_chars(&chars_of(memsize_output)))?;
    let used = parse_macos_memory_used(vm_stat_output)?;
    Some(
        SystemMetrics {
            cpu_usage_percent: None,
            memory_used_bytes: Some(
                if used <= total {
                    used
                } else {
                    total
                },
            ),
            memory_total_bytes: Some(total),
        },
    )
}

} // verus!
