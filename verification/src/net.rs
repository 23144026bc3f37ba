//! IPv4 and IPv6 addresses in their textual forms.
//!
//! The grammar is the one that `str::parse::<Ipv4Addr>` and
//! `str::parse::<Ipv6Addr>` accept: four decimal octets without leading
//! zeros, or eight groups of one to four hexadecimal digits with at most one
//! `::` standing for a run of zero groups and an optional dotted IPv4 address
//! in the last 32 bits.  Addresses are written back the way `IpAddr`'s
//! `Display` writes them.
use vstd::prelude::*;

use crate::text::{
    all_digits, all_hex, chars_of, decimal, decimal_chars, digits_value, find_chars, first_match,
    hex_digits_value, is_hex_digit, parse_hex_u32, parse_hex_u32_spec, parse_u64, parse_u64_spec,
    slice_chars, split_by_char, split_char, views,
};

verus! {

// ---------------------------------------------------------------------------
// IPv4
// ---------------------------------------------------------------------------
/// One octet of a dotted address: one to three decimal digits, no leading
/// zero unless the octet is `0`, at most 255.
pub open spec fn dec_octet(p: Seq<char>) -> Option<u8> {
    if 1 <= p.len() <= 3 && all_digits(p) && !(p.len() > 1 && p[0] == '0') && digits_value(p)
        <= 255 {
        Some(digits_value(p) as u8)
    } else {
        None
    }
}

/// The four octets of a dotted IPv4 address.
pub open spec fn ipv4_octets_spec(s: Seq<char>) -> Option<Seq<u8>> {
    let ps = split_char(s, '.');
    if ps.len() == 4 && dec_octet(ps[0]) is Some && dec_octet(ps[1]) is Some && dec_octet(
        ps[2],
    ) is Some && dec_octet(ps[3]) is Some {
        Some(
            seq![
                dec_octet(ps[0])->0,
                dec_octet(ps[1])->0,
                dec_octet(ps[2])->0,
                dec_octet(ps[3])->0,
            ],
        )
    } else {
        None
    }
}

fn dec_octet_exec(p: &Vec<char>) -> (r: Option<u8>)
    ensures
        r == dec_octet(p@),
{
    if p.len() < 1 || p.len() > 3 {
        return None;
    }
    if p.len() > 1 && p[0] == '0' {
        return None;
    }
    for i in 0..p.len()
        invariant
            forall|j: int| 0 <= j < i ==> crate::text::is_digit(p@[j]),
    {
        if !crate::text::is_ascii_digit(p[i]) {
            return None;
        }
    }
    // no sign, so the decimal reading of `p` is its digits' value
    let v = parse_u64(p);
    assert(p@.len() > 0 && p@[0] != '+');
    match v {
        Some(n) => if n <= 255 {
            Some(n as u8)
        } else {
            None
        },
        None => None,
    }
}

/// The octets of a dotted IPv4 address (`str::parse::<Ipv4Addr>`).
pub fn parse_ipv4_chars(s: &[char]) -> (r: Option<Vec<u8>>)
    ensures
        match r {
            Some(v) => ipv4_octets_spec(s@) == Some(v@) && v@.len() == 4,
            None => ipv4_octets_spec(s@) is None,
        },
{
    let ps = split_by_char(s, '.');
    if ps.len() != 4 {
        return None;
    }
    assert(views(ps@)[0] == ps@[0]@ && views(ps@)[1] == ps@[1]@ && views(ps@)[2] == ps@[2]@
        && views(ps@)[3] == ps@[3]@);
    let a = dec_octet_exec(&ps[0])?;
    let b = dec_octet_exec(&ps[1])?;
    let c = dec_octet_exec(&ps[2])?;
    let d = dec_octet_exec(&ps[3])?;
    let mut v: Vec<u8> = Vec::new();
    v.push(a);
    v.push(b);
    v.push(c);
    v.push(d);
    assert(v@ =~= seq![a, b, c, d]);
    Some(v)
}

pub fn parse_ipv4(s: &str) -> (r: Option<Vec<u8>>)
    ensures
        match r {
            Some(v) => ipv4_octets_spec(s@) == Some(v@) && v@.len() == 4,
            None => ipv4_octets_spec(s@) is None,
        },
{
    let c = chars_of(s);
    parse_ipv4_chars(&c)
}

// ---------------------------------------------------------------------------
// IPv6
// ---------------------------------------------------------------------------
/// One group: one to four hexadecimal digits.
pub open spec fn h16(p: Seq<char>) -> Option<u16> {
    if 1 <= p.len() <= 4 && all_hex(p) {
        Some(hex_digits_value(p) as u16)
    } else {
        None
    }
}

/// The groups that one `:`-separated piece stands for: one group, or, for
/// the last piece where that is allowed, the two groups of a dotted IPv4
/// address.
pub open spec fn piece_groups(p: Seq<char>, v4: bool) -> Option<Seq<u16>> {
    if v4 && ipv4_octets_spec(p) is Some {
        let o = ipv4_octets_spec(p)->0;
        Some(seq![(o[0] * 256 + o[1]) as u16, (o[2] * 256 + o[3]) as u16])
    } else {
        match h16(p) {
            Some(g) => Some(seq![g]),
            None => None,
        }
    }
}

/// The groups of a run of pieces; only the last may be a dotted address, and
/// only where `v4_last` allows it.
pub open spec fn pieces_groups(ps: Seq<Seq<char>>, v4_last: bool) -> Option<Seq<u16>>
    decreases ps.len(),
{
    if ps.len() == 0 {
        Some(seq![])
    } else {
        match pieces_groups(ps.drop_last(), false) {
            Some(head) => match piece_groups(ps.last(), v4_last) {
                Some(g) => Some(head + g),
                None => None,
            },
            None => None,
        }
    }
}

/// The groups of a `:`-separated part of an address; an empty part has none.
pub open spec fn part_groups(s: Seq<char>, v4_last: bool) -> Option<Seq<u16>> {
    if s.len() == 0 {
        Some(seq![])
    } else {
        pieces_groups(split_char(s, ':'), v4_last)
    }
}

/// The eight groups of an IPv6 address.
pub open spec fn ipv6_groups_spec(s: Seq<char>) -> Option<Seq<u16>> {
    match first_match(s, "::"@) {
        None => match part_groups(s, true) {
            Some(g) => if g.len() == 8 {
                Some(g)
            } else {
                None
            },
            None => None,
        },
        Some(i) => match (part_groups(s.take(i), false), part_groups(s.skip(i + 2), true)) {
            (Some(head), Some(tail)) => if head.len() + tail.len() <= 7 {
                Some(head + Seq::new((8 - head.len() - tail.len()) as nat, |k: int| 0u16) + tail)
            } else {
                None
            },
            _ => None,
        },
    }
}

/// The sixteen octets of an IPv6 address, each group high byte first.
pub open spec fn ipv6_octets_spec(s: Seq<char>) -> Option<Seq<u8>> {
    match ipv6_groups_spec(s) {
        Some(g) => Some(groups_octets(g)),
        None => None,
    }
}

pub open spec fn groups_octets(g: Seq<u16>) -> Seq<u8> {
    Seq::new(16, |k: int| if k % 2 == 0 { (g[k / 2] / 256) as u8 } else { (g[k / 2] % 256) as u8 })
}

fn h16_exec(p: &Vec<char>) -> (r: Option<u16>)
    ensures
        r == h16(p@),
{
    if p.len() < 1 || p.len() > 4 {
        return None;
    }
    for i in 0..p.len()
        invariant
            forall|j: int| 0 <= j < i ==> is_hex_digit(#[trigger] p@[j]),
    {
        if !(('0' <= p[i] && p[i] <= '9') || ('a' <= p[i] && p[i] <= 'f') || ('A' <= p[i]
            && p[i] <= 'F')) {
            assert(!all_hex(p@));
            return None;
        }
    }
    assert(all_hex(p@));
    assert(p@[0] != '+');
    match parse_hex_u32(p) {
        Some(n) => {
            proof {
                lemma_hex4_bound(p@);
            }
            Some(n as u16)
        },
        None => {
            proof {
                lemma_hex4_bound(p@);
            }
            None
        },
    }
}

proof fn lemma_hex4_bound(p: Seq<char>)
    requires
        p.len() <= 4,
        all_hex(p),
    ensures
        hex_digits_value(p) < 65536,
    decreases p.len(),
{
    if p.len() > 0 {
        lemma_hex_bound_len(p);
    }
}

proof fn lemma_hex_bound_len(p: Seq<char>)
    requires
        all_hex(p),
    ensures
        p.len() == 0 ==> hex_digits_value(p) < 1,
        p.len() == 1 ==> hex_digits_value(p) < 16,
        p.len() == 2 ==> hex_digits_value(p) < 256,
        p.len() == 3 ==> hex_digits_value(p) < 4096,
        p.len() == 4 ==> hex_digits_value(p) < 65536,
    decreases p.len(),
{
    if p.len() > 0 {
        let q = p.drop_last();
        assert(all_hex(q)) by {
            assert forall|i: int| 0 <= i < q.len() implies is_hex_digit(#[trigger] q[i]) by {
                assert(q[i] == p[i]);
            }
        }
        lemma_hex_bound_len(q);
        assert(is_hex_digit(p[p.len() - 1]));
        assert(crate::text::hex_digit_value(p.last()) < 16);
    }
}

fn piece_groups_exec(p: &Vec<char>, v4: bool) -> (r: Option<Vec<u16>>)
    ensures
        match r {
            Some(g) => piece_groups(p@, v4) == Some(g@),
            None => piece_groups(p@, v4) is None,
        },
{
    if v4 {
        match parse_ipv4_chars(p) {
            Some(o) => {
                let mut g: Vec<u16> = Vec::new();
                g.push((o[0] as u16) * 256 + o[1] as u16);
                g.push((o[2] as u16) * 256 + o[3] as u16);
                assert(g@ =~= seq![(o@[0] * 256 + o@[1]) as u16, (o@[2] * 256 + o@[3]) as u16]);
                return Some(g);
            },
            None => {},
        }
    }
    match h16_exec(p) {
        Some(x) => {
            let mut g: Vec<u16> = Vec::new();
            g.push(x);
            assert(g@ =~= seq![x]);
            Some(g)
        },
        None => None,
    }
}

fn part_groups_exec(s: &[char], v4_last: bool) -> (r: Option<Vec<u16>>)
    ensures
        match r {
            Some(g) => part_groups(s@, v4_last) == Some(g@),
            None => part_groups(s@, v4_last) is None,
        },
{
    if s.len() == 0 {
        let g: Vec<u16> = Vec::new();
        assert(g@ =~= Seq::<u16>::empty());
        return Some(g);
    }
    let ps = split_by_char(s, ':');
    let ghost pv = views(ps@);
    proof {
        crate::text::lemma_split_scan_nonempty(s@, ':', seq![], seq![]);
    }
    assert(pv == split_char(s@, ':'));
    assert(pv.len() > 0);
    let mut groups: Vec<u16> = Vec::new();
    assert(pv.take(0) =~= Seq::<Seq<char>>::empty());
    let mut i: usize = 0;
    while i < ps.len()
        invariant
            i < ps.len(),
            pv == views(ps@),
            pv == split_char(s@, ':'),
            s@.len() > 0,
            pieces_groups(pv.take(i as int), false) == Some(groups@),
        decreases ps.len() - i,
    {
        let last = i + 1 == ps.len();
        assert(pv.take(i + 1).drop_last() =~= pv.take(i as int));
        assert(pv.take(i + 1).last() == ps@[i as int]@);
        let g = match piece_groups_exec(&ps[i], last && v4_last) {
            Some(g) => g,
            None => {
                if last {
                    assert(pv.take(i + 1) =~= pv);
                    assert(pv.drop_last() =~= pv.take(i as int));
                    assert(pieces_groups(pv, v4_last) is None);
                } else {
                    proof {
                        lemma_pieces_none_prefix(pv, i + 1);
                    }
                }
                return None;
            },
        };
        let ghost gv = g@;
        let ghost before = groups@;
        let mut gg = g;
        groups.append(&mut gg);
        assert(groups@ =~= before + gv);
        if last {
            assert(pv.take(i + 1) =~= pv);
            assert(pv.drop_last() =~= pv.take(i as int));
            assert(pieces_groups(pv, v4_last) == Some(groups@));
            return Some(groups);
        }
        i = i + 1;
    }
    None
}

proof fn lemma_pieces_none_prefix(ps: Seq<Seq<char>>, k: int)
    requires
        0 < k < ps.len(),
        pieces_groups(ps.take(k), false) is None,
    ensures
        forall|v: bool| #[trigger] pieces_groups(ps, v) is None,
    decreases ps.len() - k,
{
    if k + 1 < ps.len() {
        assert(ps.take(k + 1).drop_last() =~= ps.take(k));
        lemma_pieces_none_prefix(ps, k + 1);
    } else {
        assert(ps.drop_last() =~= ps.take(k));
    }
}

fn zero_groups(n: usize) -> (r: Vec<u16>)
    ensures
        r@ == Seq::new(n as nat, |k: int| 0u16),
{
    let mut r: Vec<u16> = Vec::new();
    for i in 0..n
        invariant
            r@ == Seq::new(i as nat, |k: int| 0u16),
    {
        r.push(0);
        assert(r@ =~= Seq::new((i + 1) as nat, |k: int| 0u16));
    }
    r
}

fn compose_groups(head: Vec<u16>, tail: Vec<u16>) -> (r: Vec<u16>)
    requires
        head.len() + tail.len() <= 7,
    ensures
        r@ == head@ + Seq::new((8 - head@.len() - tail@.len()) as nat, |k: int| 0u16) + tail@,
{
    let ghost h = head@;
    let ghost tv = tail@;
    let mut g = head;
    let mut z = zero_groups(8 - g.len() - tail.len());
    let ghost zv = z@;
    g.append(&mut z);
    let mut t = tail;
    g.append(&mut t);
    assert(g@ =~= h + zv + tv);
    g
}

/// The eight groups of an IPv6 address (`str::parse::<Ipv6Addr>`).
pub fn parse_ipv6_groups(s: &[char]) -> (r: Option<Vec<u16>>)
    ensures
        match r {
            Some(g) => ipv6_groups_spec(s@) == Some(g@) && g@.len() == 8,
            None => ipv6_groups_spec(s@) is None,
        },
{
    let marker = chars_of("::");
    proof {
        reveal_strlit("::");
    }
    match find_chars(s, &marker) {
        None => {
            let g = part_groups_exec(s, true)?;
            if g.len() == 8 {
                Some(g)
            } else {
                None
            }
        },
        Some(i) => {
            let a = slice_chars(s, 0, i);
            let b = slice_chars(s, i + 2, s.len());
            assert(a@ =~= s@.take(i as int));
            assert(b@ =~= s@.skip(i + 2));
            let head = part_groups_exec(&a, false)?;
            let tail = part_groups_exec(&b, true)?;
            if head.len() > 7 || tail.len() > 7 - head.len() {
                return None;
            }
            Some(compose_groups(head, tail))
        },
    }
}

/// The octets of an IPv6 address.
pub fn parse_ipv6_chars(s: &[char]) -> (r: Option<Vec<u8>>)
    ensures
        match r {
            Some(v) => ipv6_octets_spec(s@) == Some(v@) && v@.len() == 16,
            None => ipv6_octets_spec(s@) is None,
        },
{
    let g = parse_ipv6_groups(s)?;
    let mut o: Vec<u8> = Vec::new();
    for k in 0..16
        invariant
            g@.len() == 8,
            o@ == groups_octets(g@).take(k as int),
    {
        let x = g[k / 2];
        if k % 2 == 0 {
            o.push((x / 256) as u8);
        } else {
            o.push((x % 256) as u8);
        }
        assert(groups_octets(g@).take(k + 1) =~= groups_octets(g@).take(k as int).push(
            groups_octets(g@)[k as int],
        ));
    }
    assert(groups_octets(g@).take(16) =~= groups_octets(g@));
    Some(o)
}

pub fn parse_ipv6(s: &str) -> (r: Option<Vec<u8>>)
    ensures
        match r {
            Some(v) => ipv6_octets_spec(s@) == Some(v@) && v@.len() == 16,
            None => ipv6_octets_spec(s@) is None,
        },
{
    let c = chars_of(s);
    parse_ipv6_chars(&c)
}

// ---------------------------------------------------------------------------
// Address properties (`Ipv4Addr::is_loopback` and the like)
// ---------------------------------------------------------------------------
/// `127.0.0.0/8`.
pub open spec fn v4_loopback(o: Seq<u8>) -> bool {
    o[0] == 127
}

/// `10.0.0.0/8`, `172.16.0.0/12`, `192.168.0.0/16`.
pub open spec fn v4_private(o: Seq<u8>) -> bool {
    ||| o[0] == 10
    ||| (o[0] == 172 && 16 <= o[1] && o[1] <= 31)
    ||| (o[0] == 192 && o[1] == 168)
}

/// `169.254.0.0/16`.
pub open spec fn v4_link_local(o: Seq<u8>) -> bool {
    o[0] == 169 && o[1] == 254
}

/// `::1`.
pub open spec fn v6_loopback(o: Seq<u8>) -> bool {
    (forall|i: int| 0 <= i < 15 ==> o[i] == 0) && o[15] == 1
}

/// `::`.
pub open spec fn v6_unspecified(o: Seq<u8>) -> bool {
    forall|i: int| 0 <= i < 16 ==> o[i] == 0
}

/// `fe80::/10`.
pub open spec fn v6_link_local(o: Seq<u8>) -> bool {
    o[0] == 0xfe && 0x80 <= o[1] && o[1] <= 0xbf
}

/// `fc00::/7`.
pub open spec fn v6_unique_local(o: Seq<u8>) -> bool {
    o[0] == 0xfc || o[0] == 0xfd
}

pub fn is_v4_loopback(o: &Vec<u8>) -> (r: bool)
    requires
        o@.len() == 4,
    ensures
        r == v4_loopback(o@),
{
    o[0] == 127
}

pub fn is_v4_private(o: &Vec<u8>) -> (r: bool)
    requires
        o@.len() == 4,
    ensures
        r == v4_private(o@),
{
    o[0] == 10 || (o[0] == 172 && 16 <= o[1] && o[1] <= 31) || (o[0] == 192 && o[1] == 168)
}

pub fn is_v4_link_local(o: &Vec<u8>) -> (r: bool)
    requires
        o@.len() == 4,
    ensures
        r == v4_link_local(o@),
{
    o[0] == 169 && o[1] == 254
}

pub fn is_v6_loopback(o: &Vec<u8>) -> (r: bool)
    requires
        o@.len() == 16,
    ensures
        r == v6_loopback(o@),
{
    for i in 0..15
        invariant
            o@.len() == 16,
            forall|j: int| 0 <= j < i ==> o@[j] == 0,
    {
        if o[i] != 0 {
            return false;
        }
    }
    o[15] == 1
}

pub fn is_v6_unspecified(o: &Vec<u8>) -> (r: bool)
    requires
        o@.len() == 16,
    ensures
        r == v6_unspecified(o@),
{
    for i in 0..16
        invariant
            o@.len() == 16,
            forall|j: int| 0 <= j < i ==> o@[j] == 0,
    {
        if o[i] != 0 {
            return false;
        }
    }
    true
}

pub fn is_v6_link_local(o: &Vec<u8>) -> (r: bool)
    requires
        o@.len() == 16,
    ensures
        r == v6_link_local(o@),
{
    o[0] == 0xfe && 0x80 <= o[1] && o[1] <= 0xbf
}

pub fn is_v6_unique_local(o: &Vec<u8>) -> (r: bool)
    requires
        o@.len() == 16,
    ensures
        r == v6_unique_local(o@),
{
    o[0] == 0xfc || o[0] == 0xfd
}

// ---------------------------------------------------------------------------
// Writing addresses back
// ---------------------------------------------------------------------------
pub open spec fn hex_char(d: nat) -> char {
    if d < 10 {
        crate::text::digit_char(d)
    } else if d == 10 {
        'a'
    } else if d == 11 {
        'b'
    } else if d == 12 {
        'c'
    } else if d == 13 {
        'd'
    } else if d == 14 {
        'e'
    } else {
        'f'
    }
}

/// Lower-case hexadecimal digits without leading zeros (`{:x}`).
pub open spec fn hex(n: nat) -> Seq<char>
    decreases n,
{
    if n < 16 {
        seq![hex_char(n)]
    } else {
        hex(n / 16).push(hex_char(n % 16))
    }
}

/// Groups in hexadecimal, separated by `:`.
pub open spec fn groups_text(g: Seq<u16>) -> Seq<char>
    decreases g.len(),
{
    if g.len() == 0 {
        Seq::empty()
    } else if g.len() == 1 {
        hex(g[0] as nat)
    } else {
        groups_text(g.drop_last()).push(':') + hex(g.last() as nat)
    }
}

/// The first longest run of zero groups, as (start, length), scanning from
/// index `i` with the current run `cur` and the best run so far `best`.
pub open spec fn zero_scan(g: Seq<u16>, i: int, cur: (int, nat), best: (int, nat)) -> (int, nat)
    decreases g.len() - i,
{
    if i < 0 || i >= g.len() {
        best
    } else if g[i] == 0 {
        let c = if cur.1 == 0 {
            (i, 1nat)
        } else {
            (cur.0, cur.1 + 1)
        };
        let b = if c.1 > best.1 {
            c
        } else {
            best
        };
        zero_scan(g, i + 1, c, b)
    } else {
        zero_scan(g, i + 1, (0, 0), best)
    }
}

pub open spec fn longest_zero_run(g: Seq<u16>) -> (int, nat) {
    zero_scan(g, 0, (0, 0), (0, 0))
}

/// Dotted decimal octets.
pub open spec fn v4_text(o: Seq<u8>) -> Seq<char> {
    decimal(o[0] as nat) + "."@ + decimal(o[1] as nat) + "."@ + decimal(o[2] as nat) + "."@
        + decimal(o[3] as nat)
}

/// An IPv4 address in the last two groups behind `::ffff:`.
pub open spec fn is_v4_mapped(g: Seq<u16>) -> bool {
    g.len() == 8 && g[0] == 0 && g[1] == 0 && g[2] == 0 && g[3] == 0 && g[4] == 0 && g[5]
        == 0xffff
}

/// How `Ipv6Addr` writes itself: a mapped IPv4 address as `::ffff:a.b.c.d`;
/// otherwise the groups in hexadecimal with the first longest run of two or
/// more zero groups written `::`.
pub open spec fn v6_text(g: Seq<u16>) -> Seq<char> {
    if is_v4_mapped(g) {
        "::ffff:"@ + v4_text(
            seq![(g[6] / 256) as u8, (g[6] % 256) as u8, (g[7] / 256) as u8, (g[7] % 256) as u8],
        )
    } else {
        let run = longest_zero_run(g);
        if run.1 > 1 {
            groups_text(g.take(run.0)) + "::"@ + groups_text(g.skip(run.0 + run.1))
        } else {
            groups_text(g)
        }
    }
}

/// The canonical text of an address given as text, if it is one
/// (`s.parse::<IpAddr>().map(|a| a.to_string())`).
pub open spec fn ip_text(s: Seq<char>) -> Option<Seq<char>> {
    match ipv4_octets_spec(s) {
        Some(o) => Some(v4_text(o)),
        None => match ipv6_groups_spec(s) {
            Some(g) => Some(v6_text(g)),
            None => None,
        },
    }
}

fn hex_char_exec(d: u32) -> (c: char)
    requires
        d < 16,
    ensures
        c == hex_char(d as nat),
{
    if d < 10 {
        if d == 0 {
            '0'
        } else if d == 1 {
            '1'
        } else if d == 2 {
            '2'
        } else if d == 3 {
            '3'
        } else if d == 4 {
            '4'
        } else if d == 5 {
            '5'
        } else if d == 6 {
            '6'
        } else if d == 7 {
            '7'
        } else if d == 8 {
            '8'
        } else {
            '9'
        }
    } else if d == 10 {
        'a'
    } else if d == 11 {
        'b'
    } else if d == 12 {
        'c'
    } else if d == 13 {
        'd'
    } else if d == 14 {
        'e'
    } else {
        'f'
    }
}

fn push_hex(out: &mut Vec<char>, n: u32)
    ensures
        final(out)@ == old(out)@ + hex(n as nat),
    decreases n,
{
    if n < 16 {
        out.push(hex_char_exec(n));
        assert(hex(n as nat) =~= seq![hex_char(n as nat)]);
    } else {
        push_hex(out, n / 16);
        out.push(hex_char_exec(n % 16));
    }
}

fn push_groups(out: &mut Vec<char>, g: &[u16], from: usize, to: usize)
    requires
        from <= to <= g.len(),
    ensures
        final(out)@ == old(out)@ + groups_text(g@.subrange(from as int, to as int)),
{
    let ghost start = out@;
    assert(g@.subrange(from as int, from as int) =~= Seq::<u16>::empty());
    let mut i = from;
    while i < to
        invariant
            from <= i <= to <= g.len(),
            out@ == start + groups_text(g@.subrange(from as int, i as int)),
        decreases to - i,
    {
        let ghost piece = g@.subrange(from as int, i + 1);
        assert(piece.drop_last() =~= g@.subrange(from as int, i as int));
        if i > from {
            out.push(':');
        }
        push_hex(out, g[i] as u32);
        assert(out@ =~= start + groups_text(piece));
        i = i + 1;
    }
}

fn push_decimal(out: &mut Vec<char>, n: u8)
    ensures
        final(out)@ == old(out)@ + decimal(n as nat),
{
    let d = decimal_chars(n as u64);
    let ghost start = out@;
    for i in 0..d.len()
        invariant
            out@ == start + d@.take(i as int),
    {
        out.push(d[i]);
        assert(out@ =~= start + d@.take(i + 1));
    }
    assert(d@.take(d.len() as int) =~= d@);
}

pub fn v4_text_exec(o: &[u8]) -> (r: Vec<char>)
    requires
        o.len() == 4,
    ensures
        r@ == v4_text(o@),
{
    let mut r: Vec<char> = Vec::new();
    push_decimal(&mut r, o[0]);
    r.push('.');
    push_decimal(&mut r, o[1]);
    r.push('.');
    push_decimal(&mut r, o[2]);
    r.push('.');
    push_decimal(&mut r, o[3]);
    proof {
        reveal_strlit(".");
    }
    assert(r@ =~= v4_text(o@));
    r
}

pub fn v6_text_exec(g: &[u16]) -> (r: Vec<char>)
    requires
        g.len() == 8,
    ensures
        r@ == v6_text(g@),
{
    proof {
        reveal_strlit("::ffff:");
        reveal_strlit("::");
    }
    if g[0] == 0 && g[1] == 0 && g[2] == 0 && g[3] == 0 && g[4] == 0 && g[5] == 0xffff {
        let o: [u8; 4] = [(g[6] / 256) as u8, (g[6] % 256) as u8, (g[7] / 256) as u8, (g[7] % 256) as u8];
        let v4 = v4_text_exec(&o);
        let mut r: Vec<char> = Vec::new();
        r.push(':');
        r.push(':');
        r.push('f');
        r.push('f');
        r.push('f');
        r.push('f');
        r.push(':');
        let ghost head = r@;
        for i in 0..v4.len()
            invariant
                r@ == head + v4@.take(i as int),
        {
            r.push(v4[i]);
            assert(r@ =~= head + v4@.take(i + 1));
        }
        assert(v4@.take(v4.len() as int) =~= v4@);
        assert(o@ =~= seq![(g@[6] / 256) as u8, (g@[6] % 256) as u8, (g@[7] / 256) as u8, (g@[7] % 256) as u8]);
        assert(r@ =~= v6_text(g@));
        return r;
    }
    let mut cur_start: usize = 0;
    let mut cur_len: usize = 0;
    let mut best_start: usize = 0;
    let mut best_len: usize = 0;
    let mut i: usize = 0;
    while i < 8
        invariant
            g.len() == 8,
            i <= 8,
            cur_len <= i,
            best_len <= i,
            cur_len == 0 || cur_start + cur_len == i,
            best_start + best_len <= i,
            zero_scan(g@, i as int, (cur_start as int, cur_len as nat), (best_start as int, best_len as nat))
                == longest_zero_run(g@),
        decreases 8 - i,
    {
        if g[i] == 0 {
            if cur_len == 0 {
                cur_start = i;
            }
            cur_len = cur_len + 1;
            if cur_len > best_len {
                best_start = cur_start;
                best_len = cur_len;
            }
        } else {
            cur_start = 0;
            cur_len = 0;
        }
        i = i + 1;
    }
    let mut r: Vec<char> = Vec::new();
    if best_len > 1 {
        push_groups(&mut r, g, 0, best_start);
        r.push(':');
        r.push(':');
        push_groups(&mut r, g, best_start + best_len, 8);
        assert(g@.subrange(0, best_start as int) =~= g@.take(best_start as int));
        assert(g@.subrange((best_start + best_len) as int, 8) =~= g@.skip((best_start + best_len) as int));
    } else {
        push_groups(&mut r, g, 0, 8);
        assert(g@.subrange(0, 8) =~= g@);
    }
    r
}

/// The canonical text of an address written as `s`, if `s` is one.
pub fn canonical_ip(s: &[char]) -> (r: Option<Vec<char>>)
    ensures
        match r {
            Some(t) => ip_text(s@) == Some(t@),
            None => ip_text(s@) is None,
        },
{
    match parse_ipv4_chars(s) {
        Some(o) => Some(v4_text_exec(&o)),
        None => match parse_ipv6_groups(s) {
            Some(g) => Some(v6_text_exec(&g)),
            None => None,
        },
    }
}

} // verus!
