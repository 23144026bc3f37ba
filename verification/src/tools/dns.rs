//! DNS lookups through `dig`, `host` or `nslookup`: what their output says
//! about the answer, and how that is shown.
use vstd::prelude::*;

use crate::net::{canonical_ip, ip_text};
use crate::text::{
    chars_eq, chars_of, concat2, contains, contains_chars, contains_str, decimal, decimal_string,
    ends_with, ends_with_str, eq_str, find_chars, first_index, find_char, first_match, is_digit,
    is_ascii_digit, join, lines, lines_of, owned, parse_u64, parse_u64_spec, position_of,
    position_of_word, push_str, slice_chars, split_whitespace, starts_with, starts_with_str,
    str_to_lowercase, string_of, string_views, to_lowercase_spec, trim, trim_chars, trim_end_char,
    trim_end_char_exec, views, words,
};
use crate::tools::{ToolCommandSpec, ToolCommandView, command_views};

verus! {

#[derive(Clone, Copy, Debug, PartialEq, Eq, Structural)]
pub enum DnsStatus {
    Success,
    NotFound,
    Timeout,
    ServerFailure,
    NoRecords,
    Failed,
}

impl DnsStatus {
    pub open spec fn spec_label(self) -> Seq<char> {
        match self {
            DnsStatus::Success => "Success"@,
            DnsStatus::NotFound => "Domain Not Found"@,
            DnsStatus::Timeout => "DNS Timeout"@,
            DnsStatus::ServerFailure => "DNS Server Failure"@,
            DnsStatus::NoRecords => "No Records Returned"@,
            DnsStatus::Failed => "Lookup Failed"@,
        }
    }

    pub open spec fn spec_symbol(self) -> Seq<char> {
        match self {
            DnsStatus::Success => "✓"@,
            _ => "✗"@,
        }
    }

    pub fn is_success(&self) -> (r: bool)
        ensures
            r == (*self == DnsStatus::Success),
    {
        match self {
            DnsStatus::Success => true,
            _ => false,
        }
    }

    pub fn label(&self) -> (r: &'static str)
        ensures
            r@ == self.spec_label(),
    {
        match self {
            DnsStatus::Success => "Success",
            DnsStatus::NotFound => "Domain Not Found",
            DnsStatus::Timeout => "DNS Timeout",
            DnsStatus::ServerFailure => "DNS Server Failure",
            DnsStatus::NoRecords => "No Records Returned",
            DnsStatus::Failed => "Lookup Failed",
        }
    }

    pub fn symbol(&self) -> (r: &'static str)
        ensures
            r@ == self.spec_symbol(),
    {
        match self {
            DnsStatus::Success => "✓",
            _ => "✗",
        }
    }
}

/// An address record: the name it answers for, the address and its TTL.
#[derive(Clone, Debug)]
pub struct DnsRecord {
    pub host: String,
    pub value: String,
    pub ttl: Option<u64>,
}

pub struct RecordView {
    pub host: Seq<char>,
    pub value: Seq<char>,
    pub ttl: Option<u64>,
}

impl View for DnsRecord {
    type V = RecordView;

    open spec fn view(&self) -> RecordView {
        RecordView { host: self.host@, value: self.value@, ttl: self.ttl }
    }
}

pub open spec fn record_views(v: Seq<DnsRecord>) -> Seq<RecordView> {
    v.map_values(|r: DnsRecord| r@)
}

/// A mail exchanger and its priority.
#[derive(Clone, Debug)]
pub struct MxRecord {
    pub priority: u64,
    pub host: String,
}

pub struct MxView {
    pub priority: u64,
    pub host: Seq<char>,
}

impl View for MxRecord {
    type V = MxView;

    open spec fn view(&self) -> MxView {
        MxView { priority: self.priority, host: self.host@ }
    }
}

pub open spec fn mx_views(v: Seq<MxRecord>) -> Seq<MxView> {
    v.map_values(|r: MxRecord| r@)
}

pub open spec fn pair_views(v: Seq<(String, String)>) -> Seq<(Seq<char>, Seq<char>)> {
    v.map_values(|p: (String, String)| (p.0@, p.1@))
}

/// What the lookup output says.
#[derive(Clone, Debug)]
pub struct DnsParseResult {
    pub query: String,
    pub status: DnsStatus,
    pub response_time_ms: Option<u64>,
    pub dns_server: Option<String>,
    pub provider: Option<&'static str>,
    pub a_records: Vec<DnsRecord>,
    pub aaaa_records: Vec<DnsRecord>,
    pub cname_records: Vec<(String, String)>,
    pub mx_records: Vec<MxRecord>,
    pub diagnostics: Vec<String>,
}

// ---------------------------------------------------------------------------
// Tokens
// ---------------------------------------------------------------------------
/// A name without its trailing dots.
pub open spec fn trim_dot(s: Seq<char>) -> Seq<char> {
    trim_end_char(s, '.')
}

pub open spec fn is_punct(c: char) -> bool {
    c == '(' || c == ')' || c == ',' || c == ';'
}

pub open spec fn trim_punct_start(s: Seq<char>) -> Seq<char>
    decreases s.len(),
{
    if s.len() > 0 && is_punct(s[0]) {
        trim_punct_start(s.drop_first())
    } else {
        s
    }
}

pub open spec fn trim_punct_end(s: Seq<char>) -> Seq<char>
    decreases s.len(),
{
    if s.len() > 0 && is_punct(s.last()) {
        trim_punct_end(s.drop_last())
    } else {
        s
    }
}

/// The part before the first `#` (a port suffix such as `#53`).
pub open spec fn before_hash(s: Seq<char>) -> Seq<char> {
    match first_index(s, '#') {
        Some(i) => s.take(i),
        None => s,
    }
}

/// The canonical address a token holds, once brackets, commas, semicolons
/// and a `#port` suffix are stripped.
pub open spec fn clean_ip(token: Seq<char>) -> Option<Seq<char>> {
    ip_text(before_hash(trim_punct_end(trim_punct_start(token))))
}

/// The first word that holds an address.
pub open spec fn first_ip_word(ws: Seq<Seq<char>>) -> Option<Seq<char>>
    decreases ws.len(),
{
    if ws.len() == 0 {
        None
    } else {
        match clean_ip(ws[0]) {
            Some(v) => Some(v),
            None => first_ip_word(ws.drop_first()),
        }
    }
}

pub open spec fn ip_token(line: Seq<char>) -> Option<Seq<char>> {
    first_ip_word(words(line))
}

/// The first run of ASCII digits that reads as a `u64`, scanning with the
/// digits `num` collected so far.
pub open spec fn number_scan(s: Seq<char>, num: Seq<char>) -> Option<u64>
    decreases s.len(),
{
    if s.len() == 0 {
        if num.len() > 0 {
            parse_u64_spec(num)
        } else {
            None
        }
    } else if is_digit(s[0]) {
        number_scan(s.drop_first(), num.push(s[0]))
    } else if num.len() > 0 && parse_u64_spec(num) is Some {
        parse_u64_spec(num)
    } else {
        number_scan(s.drop_first(), Seq::empty())
    }
}

pub open spec fn first_number(line: Seq<char>) -> Option<u64> {
    number_scan(line, Seq::empty())
}

fn trim_punct(s: &[char]) -> (r: Vec<char>)
    ensures
        r@ == trim_punct_end(trim_punct_start(s@)),
{
    let mut i: usize = 0;
    assert(s@.skip(0) =~= s@);
    while i < s.len() && (s[i] == '(' || s[i] == ')' || s[i] == ',' || s[i] == ';')
        invariant
            i <= s.len(),
            trim_punct_start(s@.skip(i as int)) == trim_punct_start(s@),
        decreases s.len() - i,
    {
        assert(s@.skip(i as int).drop_first() =~= s@.skip(i + 1));
        i = i + 1;
    }
    let a = slice_chars(s, i, s.len());
    assert(a@ =~= s@.skip(i as int));
    let mut j: usize = a.len();
    assert(a@.take(a.len() as int) =~= a@);
    while j > 0 && (a[j - 1] == '(' || a[j - 1] == ')' || a[j - 1] == ',' || a[j - 1] == ';')
        invariant
            j <= a.len(),
            trim_punct_end(a@.take(j as int)) == trim_punct_end(a@),
        decreases j,
    {
        assert(a@.take(j as int).drop_last() =~= a@.take(j - 1));
        j = j - 1;
    }
    let r = slice_chars(&a, 0, j);
    assert(r@ =~= a@.take(j as int));
    r
}

fn parse_clean_ip(candidate: &[char]) -> (r: Option<Vec<char>>)
    ensures
        match r {
            Some(v) => clean_ip(candidate@) == Some(v@),
            None => clean_ip(candidate@) is None,
        },
{
    let t = trim_punct(candidate);
    let token = match find_char(&t, '#') {
        Some(i) => {
            let p = slice_chars(&t, 0, i);
            assert(p@ =~= t@.take(i as int));
            p
        },
        None => t,
    };
    canonical_ip(&token)
}

fn parse_ip_token(line: &[char]) -> (r: Option<Vec<char>>)
    ensures
        match r {
            Some(v) => ip_token(line@) == Some(v@),
            None => ip_token(line@) is None,
        },
{
    let ws = split_whitespace(line);
    let ghost wv = views(ws@);
    assert(wv.skip(0) =~= wv);
    for i in 0..ws.len()
        invariant
            wv == views(ws@),
            wv == words(line@),
            first_ip_word(wv) == first_ip_word(wv.skip(i as int)),
    {
        assert(wv.skip(i as int)[0] == ws@[i as int]@);
        assert(wv.skip(i as int).drop_first() =~= wv.skip(i + 1));
        match parse_clean_ip(&ws[i]) {
            Some(v) => {
                return Some(v);
            },
            None => {},
        }
    }
    assert(wv.skip(ws.len() as int) =~= Seq::<Seq<char>>::empty());
    None
}

fn first_u64_in_text(line: &[char]) -> (r: Option<u64>)
    ensures
        r == first_number(line@),
{
    let mut num: Vec<char> = Vec::new();
    let mut i: usize = 0;
    assert(line@.skip(0) =~= line@);
    while i < line.len()
        invariant
            i <= line.len(),
            number_scan(line@, Seq::empty()) == number_scan(line@.skip(i as int), num@),
        decreases line.len() - i,
    {
        assert(line@.skip(i as int)[0] == line@[i as int]);
        assert(line@.skip(i as int).drop_first() =~= line@.skip(i + 1));
        let c = line[i];
        if is_ascii_digit(c) {
            num.push(c);
        } else if num.len() > 0 {
            let parsed = parse_u64(&num);
            if parsed.is_some() {
                return parsed;
            }
            num = Vec::new();
            assert(num@ =~= Seq::<char>::empty());
        } else {
            assert(num@ =~= Seq::<char>::empty());
        }
        i = i + 1;
    }
    assert(line@.skip(i as int) =~= Seq::<char>::empty());
    if num.len() > 0 {
        parse_u64(&num)
    } else {
        None
    }
}

// ---------------------------------------------------------------------------
// Records
// ---------------------------------------------------------------------------
/// The first word that reads as a `u64`.
pub open spec fn first_number_word(ws: Seq<Seq<char>>) -> Option<u64>
    decreases ws.len(),
{
    if ws.len() == 0 {
        None
    } else {
        match parse_u64_spec(ws[0]) {
            Some(n) => Some(n),
            None => first_number_word(ws.drop_first()),
        }
    }
}

/// A `host` answer line: `<name> has address <a>` for `A`, `<name> has IPv6
/// address <a>` for `AAAA` (compared without regard to case). Its TTL is
/// the first number on the line when that lies strictly between 20 and
/// 86400.
pub open spec fn host_record(line: Seq<char>, record_type: Seq<char>) -> Option<RecordView> {
    let lower = to_lowercase_spec(line);
    let wanted = (contains(lower, " has address "@) && record_type == "A"@) || (contains(
        lower,
        " has ipv6 address "@,
    ) && record_type == "AAAA"@);
    let ws = words(line);
    if !wanted || ws.len() == 0 {
        None
    } else {
        match clean_ip(trim_dot(ws.last())) {
            Some(value) => {
                let ttl = match first_number_word(ws) {
                    Some(n) => if 20 < n && n < 86400 {
                        Some(n)
                    } else {
                        None
                    },
                    None => None,
                };
                Some(RecordView { host: trim_dot(ws[0]), value, ttl })
            },
            None => None,
        }
    }
}

/// The TTL of a `dig` answer line: the number two words before the type,
/// or else the word just before it unless that is the class `IN`.
pub open spec fn dig_ttl(ws: Seq<Seq<char>>, idx: int) -> Option<u64> {
    let two_before = if idx >= 2 {
        parse_u64_spec(ws[idx - 2])
    } else {
        None
    };
    match two_before {
        Some(n) => Some(n),
        None => if idx >= 1 {
            if ws[idx - 1] == "IN"@ {
                None
            } else {
                parse_u64_spec(ws[idx - 1])
            }
        } else {
            None
        },
    }
}

/// A `dig` answer line `<name> <ttl> IN <type> <address>`; comment lines
/// (`;;`) are skipped and the word after the type must be an address.
pub open spec fn dig_record(line: Seq<char>, record_type: Seq<char>) -> Option<RecordView> {
    let ws = words(line);
    if starts_with(line, ";;"@) {
        None
    } else {
        match position_of(ws, record_type) {
            Some(idx) => if ws.len() <= idx + 1 {
                None
            } else {
                let value = trim_dot(ws[idx + 1]);
                if clean_ip(value) is None {
                    None
                } else {
                    Some(RecordView { host: trim_dot(ws[0]), value, ttl: dig_ttl(ws, idx) })
                }
            },
            None => None,
        }
    }
}

pub open spec fn record_of_type(line: Seq<char>, record_type: Seq<char>) -> Option<RecordView> {
    match host_record(line, record_type) {
        Some(r) => Some(r),
        None => dig_record(line, record_type),
    }
}

/// In a `dig` answer line such as `<owner> <ttl> IN A <address>`, the
/// record is for the owner, the line's first word, and its value is the
/// word after the first occurrence of the type, both without a trailing
/// dot.
pub proof fn lemma_dig_record_is_owner_then_value(line: Seq<char>, record_type: Seq<char>, k: int)
    requires
        !starts_with(line, ";;"@),
        !contains(to_lowercase_spec(line), " has address "@),
        !contains(to_lowercase_spec(line), " has ipv6 address "@),
        0 <= k < words(line).len() - 1,
        words(line)[k] == record_type,
        forall|j: int| 0 <= j < k ==> words(line)[j] != record_type,
        clean_ip(trim_dot(words(line)[k + 1])) is Some,
    ensures
        record_of_type(line, record_type) matches Some(r) && r.host == trim_dot(words(line)[0]) && r.value
            == trim_dot(words(line)[k + 1]),
{
    reveal(position_of);
    let ws = words(line);
    assert(ws.contains(record_type)) by {
        assert(ws[k] == record_type);
    }
    assert(exists|i: int|
        0 <= i < ws.len() && ws[i] == record_type && forall|j: int| 0 <= j < i ==> ws[j] != record_type) by {
        assert(0 <= k < ws.len() && ws[k] == record_type && forall|j: int| 0 <= j < k ==> ws[j] != record_type);
    }
    let i = position_of(ws, record_type)->0;
    assert(0 <= i < ws.len() && ws[i] == record_type && forall|j: int| 0 <= j < i ==> ws[j] != record_type);
    if i < k {
        assert(ws[i] != record_type);
    } else if i > k {
        assert(ws[k] != record_type);
    }
    assert(host_record(line, record_type) is None);
}

fn lowercase_of(line: &[char]) -> (r: Vec<char>)
    ensures
        r@ == to_lowercase_spec(line@),
{
    crate::text::lowercase(line)
}

fn trim_dot_exec(s: &[char]) -> (r: Vec<char>)
    ensures
        r@ == trim_dot(s@),
{
    trim_end_char_exec(s, '.')
}

fn first_number_word_exec(ws: &Vec<Vec<char>>) -> (r: Option<u64>)
    ensures
        r == first_number_word(views(ws@)),
{
    let ghost wv = views(ws@);
    assert(wv.skip(0) =~= wv);
    for i in 0..ws.len()
        invariant
            wv == views(ws@),
            first_number_word(wv) == first_number_word(wv.skip(i as int)),
    {
        assert(wv.skip(i as int)[0] == ws@[i as int]@);
        assert(wv.skip(i as int).drop_first() =~= wv.skip(i + 1));
        let n = parse_u64(&ws[i]);
        if n.is_some() {
            return n;
        }
    }
    assert(wv.skip(ws.len() as int) =~= Seq::<Seq<char>>::empty());
    None
}

fn parse_host_record(line: &[char], record_type: &str) -> (r: Option<DnsRecord>)
    ensures
        match r {
            Some(rec) => host_record(line@, record_type@) == Some(rec@),
            None => host_record(line@, record_type@) is None,
        },
{
    let lower = lowercase_of(line);
    let wanted = (contains_str(&lower, " has address ") && crate::text::str_eq(record_type, "A"))
        || (contains_str(&lower, " has ipv6 address ") && crate::text::str_eq(record_type, "AAAA"));
    let ws = split_whitespace(line);
    if !wanted || ws.len() == 0 {
        return None;
    }
    assert(views(ws@).last() == ws@[ws.len() - 1]@);
    assert(views(ws@)[0] == ws@[0]@);
    let last = trim_dot_exec(&ws[ws.len() - 1]);
    let value = parse_clean_ip(&last)?;
    let ttl = match first_number_word_exec(&ws) {
        Some(n) => if 20 < n && n < 86400 {
            Some(n)
        } else {
            None
        },
        None => None,
    };
    let host = trim_dot_exec(&ws[0]);
    Some(DnsRecord { host: string_of(&host), value: string_of(&value), ttl })
}

fn parse_dig_record(line: &[char], record_type: &str) -> (r: Option<DnsRecord>)
    ensures
        match r {
            Some(rec) => dig_record(line@, record_type@) == Some(rec@),
            None => dig_record(line@, record_type@) is None,
        },
{
    if starts_with_str(line, ";;") {
        return None;
    }
    let ws = split_whitespace(line);
    let ghost wv = views(ws@);
    let idx = position_of_word(&ws, record_type)?;
    if ws.len() <= idx + 1 {
        return None;
    }
    assert(wv[idx + 1] == ws@[idx + 1]@);
    assert(wv[0] == ws@[0]@);
    let value = trim_dot_exec(&ws[idx + 1]);
    if parse_clean_ip(&value).is_none() {
        return None;
    }
    let two_before = if idx >= 2 {
        assert(wv[idx - 2] == ws@[idx - 2]@);
        parse_u64(&ws[idx - 2])
    } else {
        None
    };
    let ttl = match two_before {
        Some(n) => Some(n),
        None => if idx >= 1 {
            assert(wv[idx - 1] == ws@[idx - 1]@);
            if eq_str(&ws[idx - 1], "IN") {
                None
            } else {
                parse_u64(&ws[idx - 1])
            }
        } else {
            None
        },
    };
    let host = trim_dot_exec(&ws[0]);
    Some(DnsRecord { host: string_of(&host), value: string_of(&value), ttl })
}

fn parse_record_by_type(line: &[char], record_type: &str) -> (r: Option<DnsRecord>)
    ensures
        match r {
            Some(rec) => record_of_type(line@, record_type@) == Some(rec@),
            None => record_of_type(line@, record_type@) is None,
        },
{
    match parse_host_record(line, record_type) {
        Some(r) => Some(r),
        None => parse_dig_record(line, record_type),
    }
}

/// The first `n` characters of `s`, or all of it when shorter.
pub open spec fn prefix_to(s: Seq<char>, n: int) -> Seq<char> {
    if n <= s.len() {
        s.take(n)
    } else {
        s
    }
}

/// An alias line: `<alias> is an alias for <target>` (`host`), or a `dig`
/// line with `CNAME` followed by the target; names lose trailing dots.
pub open spec fn cname_record(line: Seq<char>) -> Option<(Seq<char>, Seq<char>)> {
    let lower = to_lowercase_spec(line);
    let trimmed = trim(line);
    let ws = words(trimmed);
    let marker = " is an alias for "@;
    if !contains(lower, " cname "@) && !contains(lower, marker) {
        None
    } else if trimmed.len() == 0 {
        None
    } else if ws.len() >= 5 && ws[2] == "is"@ {
        Some((trim_dot(ws[0]), trim_dot(ws[4])))
    } else {
        match first_match(to_lowercase_spec(trimmed), marker) {
            Some(start) => Some(
                (
                    trim_dot(trim(prefix_to(trimmed, start))),
                    trim_dot(trim(crate::tools::whois::rest_after(trimmed, start + marker.len()))),
                ),
            ),
            None => match position_of(ws, "CNAME"@) {
                Some(idx) => if ws.len() <= idx + 1 {
                    None
                } else {
                    Some((trim_dot(ws[0]), trim_dot(ws[idx + 1])))
                },
                None => None,
            },
        }
    }
}

/// In a `dig` answer line such as `<owner> <ttl> IN CNAME <target>`, the
/// alias is the record's owner, the line's first word, and the target is
/// the word after the first `CNAME`, both without a trailing dot.
pub proof fn lemma_dig_cname_is_owner_then_target(line: Seq<char>, k: int)
    requires
        contains(to_lowercase_spec(line), " cname "@),
        !contains(to_lowercase_spec(trim(line)), " is an alias for "@),
        trim(line).len() > 0,
        0 <= k < words(trim(line)).len() - 1,
        words(trim(line))[k] == "CNAME"@,
        forall|j: int| 0 <= j < k ==> words(trim(line))[j] != "CNAME"@,
        words(trim(line)).len() < 5 || words(trim(line))[2] != "is"@,
    ensures
        cname_record(line) == Some((trim_dot(words(trim(line))[0]), trim_dot(words(trim(line))[k + 1]))),
{
    reveal(first_match);
    reveal(position_of);
    let ws = words(trim(line));
    assert(ws.contains("CNAME"@)) by {
        assert(ws[k] == "CNAME"@);
    }
    assert(exists|i: int|
        0 <= i < ws.len() && ws[i] == "CNAME"@ && forall|j: int| 0 <= j < i ==> ws[j] != "CNAME"@) by {
        assert(0 <= k < ws.len() && ws[k] == "CNAME"@ && forall|j: int| 0 <= j < k ==> ws[j] != "CNAME"@);
    }
    let i = position_of(ws, "CNAME"@)->0;
    assert(0 <= i < ws.len() && ws[i] == "CNAME"@ && forall|j: int| 0 <= j < i ==> ws[j] != "CNAME"@);
    if i < k {
        assert(ws[i] != "CNAME"@);
    } else if i > k {
        assert(ws[k] != "CNAME"@);
    }
    assert(position_of(ws, "CNAME"@) == Some(k));
}

/// In a `host` line `<alias> is an alias for <target>.` the alias is the
/// first word and the target the fifth, both without a trailing dot.
pub proof fn lemma_host_alias_is_alias_then_target(line: Seq<char>)
    requires
        contains(to_lowercase_spec(line), " is an alias for "@),
        trim(line).len() > 0,
        words(trim(line)).len() >= 5,
        words(trim(line))[2] == "is"@,
    ensures
        cname_record(line) == Some((trim_dot(words(trim(line))[0]), trim_dot(words(trim(line))[4]))),
{
}

fn parse_record_by_type_cname(line: &[char]) -> (r: Option<(String, String)>)
    ensures
        match r {
            Some(p) => cname_record(line@) == Some((p.0@, p.1@)),
            None => cname_record(line@) is None,
        },
{
    let lower = lowercase_of(line);
    if !contains_str(&lower, " cname ") && !contains_str(&lower, " is an alias for ") {
        return None;
    }
    let trimmed = trim_chars(line);
    if trimmed.len() == 0 {
        return None;
    }
    let ws = split_whitespace(&trimmed);
    let ghost wv = views(ws@);
    if ws.len() >= 5 && eq_str(&ws[2], "is") {
        assert(wv[2] == ws@[2]@);
        assert(wv[0] == ws@[0]@ && wv[4] == ws@[4]@);
        let alias = trim_dot_exec(&ws[0]);
        let target = trim_dot_exec(&ws[4]);
        return Some((string_of(&alias), string_of(&target)));
    }
    proof {
        if ws.len() >= 5 {
            assert(wv[2] == ws@[2]@);
        }
    }
    let marker = chars_of(" is an alias for ");
    let trimmed_lower = lowercase_of(&trimmed);
    match find_chars(&trimmed_lower, &marker) {
        Some(start) => {
            let head = if start <= trimmed.len() {
                slice_chars(&trimmed, 0, start)
            } else {
                slice_chars(&trimmed, 0, trimmed.len())
            };
            assert(head@ =~= prefix_to(trimmed@, start as int));
            let tail = if start + marker.len() <= trimmed.len() {
                slice_chars(&trimmed, start + marker.len(), trimmed.len())
            } else {
                Vec::new()
            };
            assert(tail@ =~= crate::tools::whois::rest_after(trimmed@, start + marker@.len()));
            let alias = trim_dot_exec(&trim_chars(&head));
            let target = trim_dot_exec(&trim_chars(&tail));
            Some((string_of(&alias), string_of(&target)))
        },
        None => match position_of_word(&ws, "CNAME") {
            Some(idx) => {
                if ws.len() <= idx + 1 {
                    None
                } else {
                    assert(wv[idx + 1] == ws@[idx + 1]@);
                    assert(wv[0] == ws@[0]@);
                    let alias = trim_dot_exec(&ws[0]);
                    let target = trim_dot_exec(&ws[idx + 1]);
                    Some((string_of(&alias), string_of(&target)))
                }
            },
            None => None,
        },
    }
}

/// A mail-exchanger line: a line that mentions ` MX ` (or ends with ` MX`
/// or ` MX.`, or says `has MX`, compared without regard to case) and has
/// the word `MX` followed by a priority and a host.
pub open spec fn mx_record(line: Seq<char>) -> Option<MxView> {
    let lower = to_lowercase_spec(line);
    let trimmed = trim(line);
    let ws = words(trimmed);
    if !contains(lower, " mx "@) && !ends_with(lower, " mx"@) && !ends_with(lower, " mx."@)
        && !contains(lower, " has mx"@) {
        None
    } else if trimmed.len() == 0 {
        None
    } else {
        match position_of(ws, "MX"@) {
            Some(idx) => if ws.len() <= idx + 2 {
                None
            } else {
                match parse_u64_spec(ws[idx + 1]) {
                    Some(p) => Some(MxView { priority: p, host: trim_dot(ws[idx + 2]) }),
                    None => None,
                }
            },
            None => None,
        }
    }
}

fn parse_mx_line(line: &[char]) -> (r: Option<MxRecord>)
    ensures
        match r {
            Some(m) => mx_record(line@) == Some(m@),
            None => mx_record(line@) is None,
        },
{
    let lower = lowercase_of(line);
    if !contains_str(&lower, " mx ") && !ends_with_str(&lower, " mx") && !ends_with_str(
        &lower,
        " mx.",
    ) && !contains_str(&lower, " has mx") {
        return None;
    }
    let trimmed = trim_chars(line);
    if trimmed.len() == 0 {
        return None;
    }
    let ws = split_whitespace(&trimmed);
    let ghost wv = views(ws@);
    let idx = position_of_word(&ws, "MX")?;
    if ws.len() - idx <= 2 {
        return None;
    }
    assert(wv[idx + 1] == ws@[idx + 1]@ && wv[idx + 2] == ws@[idx + 2]@);
    let priority = parse_u64(&ws[idx + 1])?;
    let host = trim_dot_exec(&ws[idx + 2]);
    Some(MxRecord { priority, host: string_of(&host) })
}

/// Adds a mail exchanger to a list sorted by priority, after every
/// exchanger whose priority is not larger: what a stable sort by priority
/// of the extended list gives.
pub open spec fn mx_insert(s: Seq<MxView>, r: MxView) -> Seq<MxView>
    decreases s.len(),
{
    if s.len() == 0 {
        seq![r]
    } else if s.last().priority <= r.priority {
        s.push(r)
    } else {
        mx_insert(s.drop_last(), r).push(s.last())
    }
}

pub open spec fn sorted_by_priority(s: Seq<MxView>) -> bool {
    forall|i: int, j: int| 0 <= i < j < s.len() ==> s[i].priority <= s[j].priority
}

/// Inserting keeps the exchangers sorted by priority.
pub proof fn lemma_mx_insert_sorted(s: Seq<MxView>, r: MxView)
    requires
        sorted_by_priority(s),
    ensures
        sorted_by_priority(mx_insert(s, r)),
        mx_insert(s, r).len() == s.len() + 1,
    decreases s.len(),
{
    if s.len() > 0 && s.last().priority > r.priority {
        let t = s.drop_last();
        assert(sorted_by_priority(t));
        lemma_mx_insert_sorted(t, r);
        lemma_mx_insert_members(t, r);
    }
}

proof fn lemma_mx_insert_members(s: Seq<MxView>, r: MxView)
    ensures
        forall|i: int|
            0 <= i < mx_insert(s, r).len() ==> (mx_insert(s, r)[i] == r || s.contains(
                #[trigger] mx_insert(s, r)[i],
            )),
    decreases s.len(),
{
    if s.len() > 0 && s.last().priority > r.priority {
        lemma_mx_insert_members(s.drop_last(), r);
        let m = mx_insert(s.drop_last(), r);
        assert forall|i: int| 0 <= i < mx_insert(s, r).len() implies (mx_insert(s, r)[i] == r
            || s.contains(#[trigger] mx_insert(s, r)[i])) by {
            if i < m.len() {
                assert(mx_insert(s, r)[i] == m[i]);
                if m[i] != r {
                    let k = choose|k: int| 0 <= k < s.drop_last().len() && s.drop_last()[k] == m[i];
                    assert(s[k] == m[i]);
                }
            } else {
                assert(mx_insert(s, r)[i] == s.last());
                assert(s[s.len() - 1] == s.last());
            }
        }
    } else if s.len() > 0 {
        assert forall|i: int| 0 <= i < mx_insert(s, r).len() implies (mx_insert(s, r)[i] == r
            || s.contains(#[trigger] mx_insert(s, r)[i])) by {
            if i < s.len() {
                assert(mx_insert(s, r)[i] == s[i]);
            }
        }
    }
}

// ---------------------------------------------------------------------------
// Reading the whole output
// ---------------------------------------------------------------------------
/// What has been read so far: the server, whether a server address is
/// expected on a later line, the response time and the records.
pub struct DnsScan {
    pub server: Option<Seq<char>>,
    pub saw_hint: bool,
    pub response_time: Option<u64>,
    pub a: Seq<RecordView>,
    pub aaaa: Seq<RecordView>,
    pub cname: Seq<(Seq<char>, Seq<char>)>,
    pub mx: Seq<MxView>,
}

/// A `Server:` line names the server, or announces it on a later line when
/// it holds no address; so does `Using domain server`.
pub open spec fn server_step(st: DnsScan, line: Seq<char>) -> DnsScan {
    let trimmed = trim(line);
    let lower = to_lowercase_spec(trimmed);
    if contains(lower, "server:"@) || contains(lower, ";; server:"@) {
        match ip_token(trimmed) {
            Some(server) => DnsScan { server: Some(server), saw_hint: false, ..st },
            None => DnsScan { saw_hint: true, ..st },
        }
    } else if contains(lower, "using domain server"@) {
        DnsScan { saw_hint: true, ..st }
    } else {
        st
    }
}

/// A `Query time` line gives the response time: its first number.
pub open spec fn response_step(st: DnsScan, line: Seq<char>) -> DnsScan {
    let lower = to_lowercase_spec(line);
    if contains(lower, "query time"@) || contains(lower, "query time ="@) {
        match first_number(line) {
            Some(ms) => DnsScan { response_time: Some(ms), ..st },
            None => st,
        }
    } else {
        st
    }
}

pub open spec fn opt_seq<A>(o: Option<A>) -> Seq<A> {
    match o {
        Some(x) => seq![x],
        None => Seq::empty(),
    }
}

/// The records a line adds.
pub open spec fn records_step(st: DnsScan, line: Seq<char>) -> DnsScan {
    DnsScan {
        a: st.a + opt_seq(record_of_type(line, "A"@)),
        aaaa: st.aaaa + opt_seq(record_of_type(line, "AAAA"@)),
        cname: st.cname + opt_seq(cname_record(line)),
        mx: match mx_record(line) {
            Some(m) => mx_insert(st.mx, m),
            None => st.mx,
        },
        ..st
    }
}

/// After an announcement, the first address on a line names the server,
/// unless one is known.
pub open spec fn hint_step(st: DnsScan, line: Seq<char>) -> DnsScan {
    if st.saw_hint && st.server is None {
        match ip_token(line) {
            Some(server) => DnsScan { server: Some(server), ..st },
            None => st,
        }
    } else {
        st
    }
}

#[verifier::opaque]
pub open spec fn line_step(st: DnsScan, line: Seq<char>) -> DnsScan {
    hint_step(records_step(response_step(server_step(st, line), line), line), line)
}

pub open spec fn scan_lines(init: DnsScan, ls: Seq<Seq<char>>) -> DnsScan
    decreases ls.len(),
{
    if ls.len() == 0 {
        init
    } else {
        line_step(scan_lines(init, ls.drop_last()), ls.last())
    }
}

/// The outcome that the whole output shows: an error word in it decides
/// (`NXDOMAIN`, a timeout, `SERVFAIL`), else a clean exit with or without
/// records, else a failure.
pub open spec fn detect_status_spec(code: Option<i32>, ls: Seq<Seq<char>>, records: nat) -> DnsStatus {
    let merged = to_lowercase_spec(join(ls, "\n"@));
    if contains(merged, "nxdomain"@) || contains(merged, "name does not exist"@) {
        DnsStatus::NotFound
    } else if contains(merged, "timed out"@) || contains(merged, "timeout"@) {
        DnsStatus::Timeout
    } else if contains(merged, "servfail"@) || contains(merged, "server failure"@) {
        DnsStatus::ServerFailure
    } else if records > 0 && code == Some(0i32) {
        DnsStatus::Success
    } else if code == Some(0i32) {
        DnsStatus::NoRecords
    } else {
        DnsStatus::Failed
    }
}

/// Well-known public resolvers by address.
pub open spec fn provider_of(server: Seq<char>) -> Option<Seq<char>> {
    if server == "100.100.100.100"@ {
        Some("Tailscale MagicDNS"@)
    } else if server == "1.1.1.1"@ || server == "1.0.0.1"@ {
        Some("Cloudflare"@)
    } else if server == "8.8.8.8"@ || server == "8.8.4.4"@ {
        Some("Google Public DNS"@)
    } else if server == "9.9.9.9"@ {
        Some("Quad9"@)
    } else if server == "208.67.222.222"@ || server == "208.67.220.220"@ {
        Some("OpenDNS"@)
    } else {
        None
    }
}

pub fn dns_provider(server: &str) -> (r: Option<&'static str>)
    ensures
        match r {
            Some(p) => provider_of(server@) == Some(p@),
            None => provider_of(server@) is None,
        },
{
    if crate::text::str_eq(server, "100.100.100.100") {
        Some("Tailscale MagicDNS")
    } else if crate::text::str_eq(server, "1.1.1.1") || crate::text::str_eq(server, "1.0.0.1") {
        Some("Cloudflare")
    } else if crate::text::str_eq(server, "8.8.8.8") || crate::text::str_eq(server, "8.8.4.4") {
        Some("Google Public DNS")
    } else if crate::text::str_eq(server, "9.9.9.9") {
        Some("Quad9")
    } else if crate::text::str_eq(server, "208.67.222.222") || crate::text::str_eq(
        server,
        "208.67.220.220",
    ) {
        Some("OpenDNS")
    } else {
        None
    }
}

/// A parse result as plain values.
pub struct DnsView {
    pub query: Seq<char>,
    pub status: DnsStatus,
    pub response_time_ms: Option<u64>,
    pub dns_server: Option<Seq<char>>,
    pub provider: Option<Seq<char>>,
    pub a: Seq<RecordView>,
    pub aaaa: Seq<RecordView>,
    pub cname: Seq<(Seq<char>, Seq<char>)>,
    pub mx: Seq<MxView>,
    pub diagnostics: Seq<Seq<char>>,
}

pub open spec fn opt_str(o: Option<&'static str>) -> Option<Seq<char>> {
    match o {
        Some(s) => Some(s@),
        None => None,
    }
}

impl View for DnsParseResult {
    type V = DnsView;

    open spec fn view(&self) -> DnsView {
        DnsView {
            query: self.query@,
            status: self.status,
            response_time_ms: self.response_time_ms,
            dns_server: crate::model::opt_chars(self.dns_server),
            provider: opt_str(self.provider),
            a: record_views(self.a_records@),
            aaaa: record_views(self.aaaa_records@),
            cname: pair_views(self.cname_records@),
            mx: mx_views(self.mx_records@),
            diagnostics: string_views(self.diagnostics@),
        }
    }
}

pub open spec fn record_count(st: DnsScan) -> nat {
    st.a.len() + st.aaaa.len() + st.cname.len() + st.mx.len()
}

/// What the output of one lookup command says. The lines of standard
/// output and then of standard error are read one by one; the provider and
/// notes follow from what was read.
pub open spec fn dns_parse(
    query: Seq<char>,
    stdout: Seq<char>,
    stderr: Seq<char>,
    code: Option<i32>,
    response_time_ms: Option<u64>,
) -> DnsView {
    let ls = lines(stdout) + lines(stderr);
    let init = DnsScan {
        server: None,
        saw_hint: false,
        response_time: response_time_ms,
        a: Seq::empty(),
        aaaa: Seq::empty(),
        cname: Seq::empty(),
        mx: Seq::empty(),
    };
    let st = scan_lines(init, ls);
    let status = detect_status_spec(code, ls, record_count(st));
    let provider = match st.server {
        Some(server) => provider_of(server),
        None => None,
    };
    let provider_note = match provider {
        Some(p) => seq!["Provider detected: "@ + p],
        None => Seq::empty(),
    };
    let incomplete = if status == DnsStatus::Failed && code == Some(0i32) && stdout.len() > 0 {
        seq!["Resolver output was present but incomplete."@]
    } else {
        Seq::empty()
    };
    let success = if status == DnsStatus::Success {
        seq!["✓ DNS resolution successful"@]
    } else {
        Seq::empty()
    };
    DnsView {
        query,
        status,
        response_time_ms: st.response_time,
        dns_server: st.server,
        provider,
        a: st.a,
        aaaa: st.aaaa,
        cname: st.cname,
        mx: st.mx,
        diagnostics: provider_note + incomplete + success,
    }
}

/// The alias pairs that the lines name, in order.
pub open spec fn line_cnames(ls: Seq<Seq<char>>) -> Seq<(Seq<char>, Seq<char>)>
    decreases ls.len(),
{
    if ls.len() == 0 {
        Seq::empty()
    } else {
        line_cnames(ls.drop_last()) + opt_seq(cname_record(ls.last()))
    }
}

proof fn lemma_scan_cnames(init: DnsScan, ls: Seq<Seq<char>>)
    ensures
        scan_lines(init, ls).cname == init.cname + line_cnames(ls),
    decreases ls.len(),
{
    if ls.len() == 0 {
        assert(init.cname + line_cnames(ls) =~= init.cname);
    } else {
        lemma_scan_cnames(init, ls.drop_last());
        let st = scan_lines(init, ls.drop_last());
        let l = ls.last();
        let s1 = server_step(st, l);
        assert(s1.cname == st.cname);
        let s2 = response_step(s1, l);
        assert(s2.cname == st.cname);
        let s3 = records_step(s2, l);
        assert(s3.cname == st.cname + opt_seq(cname_record(l)));
        assert(hint_step(s3, l).cname == s3.cname);
        reveal(line_step);
        assert(scan_lines(init, ls) == hint_step(s3, l));
        assert(init.cname + line_cnames(ls.drop_last()) + opt_seq(cname_record(ls.last())) =~= init.cname
            + line_cnames(ls));
    }
}

proof fn lemma_line_cnames_has(ls: Seq<Seq<char>>, i: int)
    requires
        0 <= i < ls.len(),
        cname_record(ls[i]) is Some,
    ensures
        line_cnames(ls).contains(cname_record(ls[i])->0),
    decreases ls.len(),
{
    let prev = line_cnames(ls.drop_last());
    let last = opt_seq(cname_record(ls.last()));
    if i < ls.len() - 1 {
        assert(ls.drop_last()[i] == ls[i]);
        lemma_line_cnames_has(ls.drop_last(), i);
        let q = choose|q: int| 0 <= q < prev.len() && prev[q] == cname_record(ls[i])->0;
        assert((prev + last)[q] == prev[q]);
    } else {
        assert((prev + last)[prev.len() as int] == last[0]);
    }
}

/// A lookup's CNAME pairs are the alias pairs of its output's lines,
/// standard output first, in order; in particular a `dig` answer line
/// `<owner> <ttl> IN CNAME <target>` of the output gives the pair
/// (owner, target), without trailing dots.
pub proof fn lemma_lookup_cnames(
    query: Seq<char>,
    stdout: Seq<char>,
    stderr: Seq<char>,
    code: Option<i32>,
    response_time_ms: Option<u64>,
    i: int,
    k: int,
)
    ensures
        dns_parse(query, stdout, stderr, code, response_time_ms).cname == line_cnames(
            lines(stdout) + lines(stderr),
        ),
        0 <= i < lines(stdout).len() && contains(to_lowercase_spec(lines(stdout)[i]), " cname "@)
            && !contains(to_lowercase_spec(trim(lines(stdout)[i])), " is an alias for "@) && trim(
            lines(stdout)[i],
        ).len() > 0 && 0 <= k < words(trim(lines(stdout)[i])).len() - 1 && words(
            trim(lines(stdout)[i]),
        )[k] == "CNAME"@ && (forall|j: int|
            0 <= j < k ==> words(trim(lines(stdout)[i]))[j] != "CNAME"@) && (words(
            trim(lines(stdout)[i]),
        ).len() < 5 || words(trim(lines(stdout)[i]))[2] != "is"@) ==> dns_parse(
            query,
            stdout,
            stderr,
            code,
            response_time_ms,
        ).cname.contains(
            (
                trim_dot(words(trim(lines(stdout)[i]))[0]),
                trim_dot(words(trim(lines(stdout)[i]))[k + 1]),
            ),
        ),
{
    let ls = lines(stdout) + lines(stderr);
    let init = DnsScan {
        server: None,
        saw_hint: false,
        response_time: response_time_ms,
        a: Seq::empty(),
        aaaa: Seq::empty(),
        cname: Seq::empty(),
        mx: Seq::empty(),
    };
    lemma_scan_cnames(init, ls);
    assert(init.cname + line_cnames(ls) =~= line_cnames(ls));
    if 0 <= i < lines(stdout).len() && contains(to_lowercase_spec(lines(stdout)[i]), " cname "@)
        && !contains(to_lowercase_spec(trim(lines(stdout)[i])), " is an alias for "@) && trim(
        lines(stdout)[i],
    ).len() > 0 && 0 <= k < words(trim(lines(stdout)[i])).len() - 1 && words(trim(lines(stdout)[i]))[k]
        == "CNAME"@ && (forall|j: int| 0 <= j < k ==> words(trim(lines(stdout)[i]))[j] != "CNAME"@) && (
    words(trim(lines(stdout)[i])).len() < 5 || words(trim(lines(stdout)[i]))[2] != "is"@) {
        lemma_dig_cname_is_owner_then_target(lines(stdout)[i], k);
        assert(ls[i] == lines(stdout)[i]);
        lemma_line_cnames_has(ls, i);
    }
}

pub open spec fn scan_of(r: DnsParseResult, saw_hint: bool) -> DnsScan {
    DnsScan {
        server: crate::model::opt_chars(r.dns_server),
        saw_hint,
        response_time: r.response_time_ms,
        a: record_views(r.a_records@),
        aaaa: record_views(r.aaaa_records@),
        cname: pair_views(r.cname_records@),
        mx: mx_views(r.mx_records@),
    }
}

fn insert_mx(mx: &mut Vec<MxRecord>, record: MxRecord)
    ensures
        mx_views(final(mx)@) == mx_insert(mx_views(old(mx)@), record@),
{
    let ghost start = mx_views(mx@);
    let ghost rv = record@;
    let mut k: usize = mx.len();
    assert(start.take(k as int) =~= start);
    while k > 0 && mx[k - 1].priority > record.priority
        invariant
            k <= mx.len(),
            start == mx_views(mx@),
            rv == record@,
            mx_insert(start, rv) == mx_insert(start.take(k as int), rv) + start.skip(k as int),
        decreases k,
    {
        let ghost t = start.take(k as int);
        assert(t.last() == mx@[k - 1]@);
        assert(t.drop_last() =~= start.take(k - 1));
        assert(start.skip(k - 1) =~= seq![t.last()] + start.skip(k as int));
        assert(mx_insert(t, rv) == mx_insert(start.take(k - 1), rv).push(t.last()));
        assert(mx_insert(start.take(k - 1), rv).push(t.last()) + start.skip(k as int)
            =~= mx_insert(start.take(k - 1), rv) + start.skip(k - 1));
        k = k - 1;
    }
    proof {
        let t = start.take(k as int);
        if k > 0 {
            assert(t.last() == mx@[k - 1]@);
        }
        assert(mx_insert(t, rv) =~= t.push(rv));
    }
    mx.insert(k, record);
    assert(mx_views(mx@) =~= start.take(k as int).push(rv) + start.skip(k as int));
}

fn parse_dns_line(line: &[char], result: &mut DnsParseResult, saw_hint: &mut bool)
    ensures
        scan_of(*final(result), *final(saw_hint)) == line_step(scan_of(*old(result), *old(saw_hint)), line@),
        final(result).query == old(result).query,
        final(result).status == old(result).status,
        final(result).provider == old(result).provider,
        final(result).diagnostics == old(result).diagnostics,
{
    let ghost st0 = scan_of(*result, *saw_hint);
    // the server line
    let trimmed = trim_chars(line);
    let lower = lowercase_of(&trimmed);
    if contains_str(&lower, "server:") || contains_str(&lower, ";; server:") {
        match parse_ip_token(&trimmed) {
            Some(server) => {
                result.dns_server = Some(string_of(&server));
                *saw_hint = false;
            },
            None => {
                *saw_hint = true;
            },
        }
    } else if contains_str(&lower, "using domain server") {
        *saw_hint = true;
    }
    let ghost st1 = scan_of(*result, *saw_hint);
    assert(st1 == server_step(st0, line@));
    // the response time
    let line_lower = lowercase_of(line);
    if contains_str(&line_lower, "query time") || contains_str(&line_lower, "query time =") {
        match first_u64_in_text(line) {
            Some(ms) => {
                result.response_time_ms = Some(ms);
            },
            None => {},
        }
    }
    let ghost st2 = scan_of(*result, *saw_hint);
    assert(st2 == response_step(st1, line@));
    // records
    let ghost a0 = result.a_records@;
    match parse_record_by_type(line, "A") {
        Some(r) => {
            result.a_records.push(r);
        },
        None => {},
    }
    assert(record_views(result.a_records@) =~= record_views(a0) + opt_seq(
        record_of_type(line@, "A"@),
    ));
    let ghost aaaa0 = result.aaaa_records@;
    match parse_record_by_type(line, "AAAA") {
        Some(r) => {
            result.aaaa_records.push(r);
        },
        None => {},
    }
    assert(record_views(result.aaaa_records@) =~= record_views(aaaa0) + opt_seq(
        record_of_type(line@, "AAAA"@),
    ));
    let ghost c0 = result.cname_records@;
    match parse_record_by_type_cname(line) {
        Some(pair) => {
            result.cname_records.push(pair);
        },
        None => {},
    }
    assert(pair_views(result.cname_records@) =~= pair_views(c0) + opt_seq(cname_record(line@)));
    match parse_mx_line(line) {
        Some(m) => {
            insert_mx(&mut result.mx_records, m);
        },
        None => {},
    }
    let ghost st3 = scan_of(*result, *saw_hint);
    assert(st3 == records_step(st2, line@));
    // a server announced on an earlier line
    if *saw_hint && result.dns_server.is_none() {
        match parse_ip_token(line) {
            Some(server) => {
                result.dns_server = Some(string_of(&server));
            },
            None => {},
        }
    }
    assert(scan_of(*result, *saw_hint) == hint_step(st3, line@));
    proof {
        reveal(line_step);
    }
}

fn detect_status(code: Option<i32>, ls: &Vec<Vec<char>>, records: &DnsParseResult) -> (r: DnsStatus)
    ensures
        r == detect_status_spec(code, views(ls@), record_count(scan_of(*records, false))),
{
    let merged = crate::text::join_chars(ls, '\n');
    proof {
        reveal_strlit("\n");
        assert("\n"@ =~= seq!['\n']);
    }
    let lower = lowercase_of(&merged);
    if contains_str(&lower, "nxdomain") || contains_str(&lower, "name does not exist") {
        DnsStatus::NotFound
    } else if contains_str(&lower, "timed out") || contains_str(&lower, "timeout") {
        DnsStatus::Timeout
    } else if contains_str(&lower, "servfail") || contains_str(&lower, "server failure") {
        DnsStatus::ServerFailure
    } else if (records.a_records.len() > 0 || records.aaaa_records.len() > 0
        || records.cname_records.len() > 0 || records.mx_records.len() > 0) && code == Some(0i32) {
        DnsStatus::Success
    } else if code == Some(0i32) {
        DnsStatus::NoRecords
    } else {
        DnsStatus::Failed
    }
}

pub open spec fn initial_scan(response_time_ms: Option<u64>) -> DnsScan {
    DnsScan {
        server: None,
        saw_hint: false,
        response_time: response_time_ms,
        a: Seq::empty(),
        aaaa: Seq::empty(),
        cname: Seq::empty(),
        mx: Seq::empty(),
    }
}

/// Reads every line into a fresh result.
fn scan_output(
    query: &str,
    combined: &Vec<Vec<char>>,
    code: Option<i32>,
    response_time_ms: Option<u64>,
) -> (r: DnsParseResult)
    ensures
        exists|saw: bool| scan_of(r, saw) == scan_lines(initial_scan(response_time_ms), views(combined@)),
        r.query@ == query@,
        r.provider is None,
        r.diagnostics@.len() == 0,
{
    let mut result = DnsParseResult {
        query: owned(query),
        status: if code == Some(0i32) {
            DnsStatus::Success
        } else {
            DnsStatus::Failed
        },
        response_time_ms,
        dns_server: None,
        provider: None,
        a_records: Vec::new(),
        aaaa_records: Vec::new(),
        cname_records: Vec::new(),
        mx_records: Vec::new(),
        diagnostics: Vec::new(),
    };
    let mut saw_hint = false;
    let ghost ls = views(combined@);
    let ghost init = initial_scan(response_time_ms);
    assert(record_views(result.a_records@) =~= Seq::<RecordView>::empty());
    assert(record_views(result.aaaa_records@) =~= Seq::<RecordView>::empty());
    assert(pair_views(result.cname_records@) =~= Seq::<(Seq<char>, Seq<char>)>::empty());
    assert(mx_views(result.mx_records@) =~= Seq::<MxView>::empty());
    assert(scan_of(result, saw_hint) == init);
    for i in 0..combined.len()
        invariant
            ls == views(combined@),
            init == initial_scan(response_time_ms),
            scan_of(result, saw_hint) == scan_lines(init, ls.take(i as int)),
            result.query@ == query@,
            result.provider is None,
            result.diagnostics@.len() == 0,
    {
        assert(ls.take(i + 1).drop_last() =~= ls.take(i as int));
        assert(ls.take(i + 1).last() == combined@[i as int]@);
        parse_dns_line(&combined[i], &mut result, &mut saw_hint);
    }
    assert(ls.take(ls.len() as int) =~= ls);
    result
}

pub fn parse_dns_output(
    query: &str,
    stdout: &str,
    stderr: &str,
    code: Option<i32>,
    response_time_ms: Option<u64>,
) -> (r: DnsParseResult)
    ensures
        r@ == dns_parse(query@, stdout@, stderr@, code, response_time_ms),
{
    let out = chars_of(stdout);
    let err = chars_of(stderr);
    let mut combined = lines_of(&out);
    let mut err_lines = lines_of(&err);
    let ghost out_view = views(combined@);
    let ghost err_view = views(err_lines@);
    combined.append(&mut err_lines);
    let ghost ls = views(combined@);
    assert(ls =~= out_view + err_view);
    let mut result = scan_output(query, &combined, code, response_time_ms);
    let ghost st = scan_lines(initial_scan(response_time_ms), ls);
    assert(record_count(scan_of(result, false)) == record_count(st));
    result.status = detect_status(code, &combined, &result);
    match &result.dns_server {
        Some(server) => {
            result.provider = dns_provider(server.as_str());
        },
        None => {},
    }
    match result.provider {
        Some(p) => {
            result.diagnostics.push(concat2("Provider detected: ", p));
        },
        None => {},
    }
    if result.status == DnsStatus::Failed && code == Some(0i32) && !stdout.is_empty() {
        result.diagnostics.push(owned("Resolver output was present but incomplete."));
    }
    if result.status == DnsStatus::Success {
        result.diagnostics.push(owned("✓ DNS resolution successful"));
    }
    assert(string_views(result.diagnostics@) =~= dns_parse(query@, stdout@, stderr@, code, response_time_ms).diagnostics);
    result
}

// ---------------------------------------------------------------------------
// Presenting the answer
// ---------------------------------------------------------------------------
/// How quick the answer was, as a word.
pub open spec fn health(v: DnsView) -> Seq<char> {
    if v.status != DnsStatus::Success {
        if v.status == DnsStatus::NotFound {
            "Unknown"@
        } else {
            "Check"@
        }
    } else {
        match v.response_time_ms {
            None => "Unknown"@,
            Some(ms) => if ms <= 10 {
                "Excellent"@
            } else if ms <= 30 {
                "Good"@
            } else if ms <= 100 {
                "Moderate"@
            } else {
                "Slow"@
            },
        }
    }
}

pub open spec fn health_mark(v: DnsView) -> Seq<char> {
    if health(v) == "Excellent"@ || health(v) == "Good"@ {
        "✓"@
    } else {
        "⚠"@
    }
}

pub open spec fn view_record_count(v: DnsView) -> nat {
    v.a.len() + v.aaaa.len() + v.cname.len() + v.mx.len()
}

/// The chain a name resolves through, one node per line with arrows
/// between; nothing when it has fewer than two nodes.
pub open spec fn flow_chain(nodes: Seq<Seq<char>>) -> Seq<Seq<char>>
    decreases nodes.len(),
{
    if nodes.len() == 0 {
        Seq::empty()
    } else if nodes.len() == 1 {
        seq![nodes[0]]
    } else {
        flow_chain(nodes.drop_last()) + seq![
            crate::text::spaces(8) + "│"@,
            crate::text::spaces(8) + "▼"@,
            nodes.last(),
        ]
    }
}

pub open spec fn flow_text(nodes: Seq<Seq<char>>) -> Seq<Seq<char>> {
    if nodes.len() < 2 {
        Seq::empty()
    } else {
        flow_chain(nodes)
    }
}

/// The query, the alias targets, then the first IPv4 address, or else the
/// first IPv6 address; without an address the last alias target is left
/// out.
pub open spec fn flow_nodes(v: DnsView) -> Seq<Seq<char>> {
    let nodes = seq![v.query] + v.cname.map_values(|p: (Seq<char>, Seq<char>)| p.1);
    if v.a.len() > 0 {
        nodes.push(v.a[0].value)
    } else if v.aaaa.len() > 0 {
        nodes.push(v.aaaa[0].value)
    } else {
        nodes.drop_last()
    }
}

pub open spec fn address_lines(records: Seq<RecordView>, label: Seq<char>) -> Seq<Seq<char>>
    decreases records.len(),
{
    if records.len() == 0 {
        Seq::empty()
    } else {
        let r = records.last();
        address_lines(records.drop_last(), label) + seq!["Host: "@ + r.host, label + r.value]
            + match r.ttl {
            Some(t) => seq!["TTL: "@ + decimal(t as nat) + " sec"@],
            None => Seq::empty(),
        }
    }
}

pub open spec fn cname_lines(pairs: Seq<(Seq<char>, Seq<char>)>) -> Seq<Seq<char>>
    decreases pairs.len(),
{
    if pairs.len() == 0 {
        Seq::empty()
    } else {
        cname_lines(pairs.drop_last()) + seq![
            "Alias: "@ + pairs.last().0,
            "Points To: "@ + pairs.last().1,
        ]
    }
}

pub open spec fn mx_lines(mx: Seq<MxView>) -> Seq<Seq<char>>
    decreases mx.len(),
{
    if mx.len() == 0 {
        Seq::empty()
    } else {
        mx_lines(mx.drop_last()) + seq![
            crate::text::pad_right(decimal(mx.last().priority as nat), 10) + " "@ + mx.last().host,
        ]
    }
}

pub open spec fn dns_summary(v: DnsView) -> Seq<Seq<char>> {
    let timing = match v.response_time_ms {
        Some(ms) => seq![
            "Response Time: "@ + decimal(ms as nat) + " ms"@,
            "Health: "@ + health_mark(v) + " "@ + health(v),
        ],
        None => Seq::empty(),
    };
    let server = match v.dns_server {
        Some(s) => seq!["DNS Server: "@ + s] + match v.provider {
            Some(p) => seq!["Provider: "@ + p],
            None => Seq::empty(),
        },
        None => Seq::empty(),
    };
    seq!["Query: "@ + v.query, "Status: "@ + v.status.spec_symbol() + " "@ + v.status.spec_label()]
        + timing + server + seq!["Records: "@ + decimal(view_record_count(v))]
}

pub open spec fn dns_diagnostics(v: DnsView) -> Seq<Seq<char>> {
    v.diagnostics + if v.status == DnsStatus::Success && view_record_count(v) == 0 {
        seq!["⚠ No record lines parsed from command output."@]
    } else {
        Seq::empty()
    } + if v.status == DnsStatus::Success && v.a.len() == 0 && v.aaaa.len() == 0 {
        seq!["⚠ No A/AAAA answer parsed; raw output may be useful."@]
    } else {
        Seq::empty()
    } + match v.provider {
        Some(p) => if contains(p, "Tailscale"@) {
            seq!["ℹ Using Tailscale DNS service."@]
        } else {
            Seq::empty()
        },
        None => Seq::empty(),
    } + match v.response_time_ms {
        Some(ms) => if ms > 100 {
            seq!["⚠ Response time is slower than typical local DNS."@]
        } else {
            Seq::empty()
        },
        None => Seq::empty(),
    }
}

/// The sections of a DNS answer: the summary, one section per kind of
/// record that was found, the resolution chain and the diagnostics.
pub open spec fn dns_sections(v: DnsView) -> Seq<crate::tools::SectionView> {
    let mx_section = if v.mx.len() > 0 {
        seq![
            crate::tools::SectionView {
                label: "MX Records"@,
                lines: seq!["Priority   Host"@] + mx_lines(v.mx),
            },
        ]
    } else {
        Seq::empty()
    };
    seq![crate::tools::SectionView { label: "Summary"@, lines: dns_summary(v) }]
        + crate::tools::whois::nonempty_section("A Records"@, address_lines(v.a, "IPv4 Address: "@))
        + crate::tools::whois::nonempty_section(
        "AAAA Records"@,
        address_lines(v.aaaa, "IPv6 Address: "@),
    ) + crate::tools::whois::nonempty_section("CNAME Records"@, cname_lines(v.cname)) + mx_section
        + crate::tools::whois::nonempty_section("DNS Flow"@, flow_text(flow_nodes(v))) + seq![
        crate::tools::SectionView { label: "Diagnostics"@, lines: dns_diagnostics(v) },
    ]
}

impl DnsParseResult {
    /// The number of records of every kind; wide enough that the sum of
    /// four lengths cannot overflow.
    pub fn total_record_count(&self) -> (r: u128)
        ensures
            r == view_record_count(self@),
    {
        self.a_records.len() as u128 + self.aaaa_records.len() as u128
            + self.cname_records.len() as u128 + self.mx_records.len() as u128
    }

    pub fn health_label(&self) -> (r: &'static str)
        ensures
            r@ == health(self@),
    {
        if !self.status.is_success() {
            return if self.status == DnsStatus::NotFound {
                "Unknown"
            } else {
                "Check"
            };
        }
        let ms = match self.response_time_ms {
            Some(ms) => ms,
            None => {
                return "Unknown";
            },
        };
        if ms <= 10 {
            "Excellent"
        } else if ms <= 30 {
            "Good"
        } else if ms <= 100 {
            "Moderate"
        } else {
            "Slow"
        }
    }

    pub fn health_indicator(&self) -> (r: &'static str)
        ensures
            r@ == health_mark(self@),
    {
        let label = self.health_label();
        if crate::text::str_eq(label, "Excellent") || crate::text::str_eq(label, "Good") {
            "✓"
        } else {
            "⚠"
        }
    }
}

fn push_line(lines: &mut Vec<String>, line: String)
    ensures
        string_views(final(lines)@) == string_views(old(lines)@).push(line@),
{
    let ghost before = lines@;
    lines.push(line);
    proof {
        crate::text::lemma_string_views_push(before, line);
    }
}

fn address_section_lines(records: &Vec<DnsRecord>, label: &str) -> (r: Vec<String>)
    ensures
        string_views(r@) == address_lines(record_views(records@), label@),
{
    let mut lines: Vec<String> = Vec::new();
    let ghost rv = record_views(records@);
    for i in 0..records.len()
        invariant
            rv == record_views(records@),
            string_views(lines@) == address_lines(rv.take(i as int), label@),
    {
        assert(rv.take(i + 1).drop_last() =~= rv.take(i as int));
        assert(rv.take(i + 1).last() == records@[i as int]@);
        let ghost before = string_views(lines@);
        let record = &records[i];
        push_line(&mut lines, concat2("Host: ", record.host.as_str()));
        push_line(&mut lines, concat2(label, record.value.as_str()));
        match record.ttl {
            Some(t) => {
                let d = decimal_string(t);
                push_line(&mut lines, crate::text::concat3("TTL: ", d.as_str(), " sec"));
            },
            None => {},
        }
        assert(string_views(lines@) =~= address_lines(rv.take(i + 1), label@));
    }
    assert(rv.take(records.len() as int) =~= rv);
    lines
}

fn build_flow_lines(nodes: &Vec<String>) -> (r: Vec<String>)
    ensures
        string_views(r@) == flow_text(string_views(nodes@)),
{
    let mut lines: Vec<String> = Vec::new();
    if nodes.len() < 2 {
        return lines;
    }
    let ghost nv = string_views(nodes@);
    proof {
        reveal_strlit("│");
        reveal_strlit("▼");
    }
    for i in 0..nodes.len()
        invariant
            nv == string_views(nodes@),
            nodes.len() >= 2,
            i > 0 ==> string_views(lines@) == flow_chain(nv.take(i as int)),
            i == 0 ==> lines@.len() == 0,
    {
        assert(nv.take(i + 1).drop_last() =~= nv.take(i as int));
        assert(nv.take(i + 1).last() == nodes@[i as int]@);
        if i > 0 {
            let bar = crate::text::pad_right_str("", 8);
            let mut bar_line = bar;
            push_str(&mut bar_line, "│");
            let mut arrow_line = crate::text::pad_right_str("", 8);
            push_str(&mut arrow_line, "▼");
            proof {
                reveal_strlit("");
            }
            assert(bar_line@ =~= crate::text::spaces(8) + "│"@);
            assert(arrow_line@ =~= crate::text::spaces(8) + "▼"@);
            push_line(&mut lines, bar_line);
            push_line(&mut lines, arrow_line);
        }
        push_line(&mut lines, nodes[i].clone());
        if i == 0 {
            assert(string_views(lines@) =~= flow_chain(nv.take(1)));
        } else {
            assert(string_views(lines@) =~= flow_chain(nv.take(i + 1)));
        }
    }
    assert(nv.take(nodes.len() as int) =~= nv);
    lines
}

impl DnsParseResult {
    pub fn flow_lines(&self) -> (r: Vec<String>)
        ensures
            string_views(r@) == flow_text(flow_nodes(self@)),
    {
        let mut nodes: Vec<String> = Vec::new();
        nodes.push(self.query.clone());
        let ghost cv = pair_views(self.cname_records@);
        for i in 0..self.cname_records.len()
            invariant
                cv == pair_views(self.cname_records@),
                string_views(nodes@) == seq![self.query@] + cv.take(i as int).map_values(
                    |p: (Seq<char>, Seq<char>)| p.1,
                ),
        {
            push_line(&mut nodes, self.cname_records[i].1.clone());
            assert(string_views(nodes@) =~= seq![self.query@] + cv.take(i + 1).map_values(
                |p: (Seq<char>, Seq<char>)| p.1,
            ));
        }
        assert(cv.take(cv.len() as int) =~= cv);
        if self.a_records.len() > 0 {
            assert(record_views(self.a_records@)[0] == self.a_records@[0]@);
            push_line(&mut nodes, self.a_records[0].value.clone());
            return build_flow_lines(&nodes);
        }
        if self.aaaa_records.len() > 0 {
            assert(record_views(self.aaaa_records@)[0] == self.aaaa_records@[0]@);
            push_line(&mut nodes, self.aaaa_records[0].value.clone());
            return build_flow_lines(&nodes);
        }
        let ghost before = nodes@;
        nodes.pop();
        assert(string_views(nodes@) =~= string_views(before).drop_last());
        build_flow_lines(&nodes)
    }

    fn summary_lines(&self) -> (r: Vec<String>)
        ensures
            string_views(r@) == dns_summary(self@),
    {
        let mut summary: Vec<String> = Vec::new();
        push_line(&mut summary, concat2("Query: ", self.query.as_str()));
        let mut status_line = owned("Status: ");
        push_str(&mut status_line, self.status.symbol());
        push_str(&mut status_line, " ");
        push_str(&mut status_line, self.status.label());
        push_line(&mut summary, status_line);
        match self.response_time_ms {
            Some(ms) => {
                let d = decimal_string(ms);
                push_line(&mut summary, crate::text::concat3("Response Time: ", d.as_str(), " ms"));
                let mut health_line = owned("Health: ");
                push_str(&mut health_line, self.health_indicator());
                push_str(&mut health_line, " ");
                push_str(&mut health_line, self.health_label());
                push_line(&mut summary, health_line);
            },
            None => {},
        }
        match &self.dns_server {
            Some(server) => {
                push_line(&mut summary, concat2("DNS Server: ", server.as_str()));
                match self.provider {
                    Some(p) => {
                        push_line(&mut summary, concat2("Provider: ", p));
                    },
                    None => {},
                }
            },
            None => {},
        }
        let count = self.total_record_count();
        let count_text = string_of(&crate::text::decimal_chars_u128(count));
        push_line(&mut summary, concat2("Records: ", count_text.as_str()));
        assert(string_views(summary@) =~= dns_summary(self@));
        summary
    }

    fn cname_section_lines(&self) -> (r: Vec<String>)
        ensures
            string_views(r@) == cname_lines(self@.cname),
    {
        let mut lines: Vec<String> = Vec::new();
        let ghost cv = pair_views(self.cname_records@);
        for i in 0..self.cname_records.len()
            invariant
                cv == pair_views(self.cname_records@),
                string_views(lines@) == cname_lines(cv.take(i as int)),
        {
            assert(cv.take(i + 1).drop_last() =~= cv.take(i as int));
            assert(cv.take(i + 1).last() == (
                self.cname_records@[i as int].0@,
                self.cname_records@[i as int].1@,
            ));
            push_line(&mut lines, concat2("Alias: ", self.cname_records[i].0.as_str()));
            push_line(&mut lines, concat2("Points To: ", self.cname_records[i].1.as_str()));
            assert(string_views(lines@) =~= cname_lines(cv.take(i + 1)));
        }
        assert(cv.take(cv.len() as int) =~= cv);
        lines
    }

    fn mx_section_lines(&self) -> (r: Vec<String>)
        ensures
            string_views(r@) == seq!["Priority   Host"@] + mx_lines(self@.mx),
    {
        let mut lines: Vec<String> = Vec::new();
        push_line(&mut lines, owned("Priority   Host"));
        let ghost mv = mx_views(self.mx_records@);
        for i in 0..self.mx_records.len()
            invariant
                mv == mx_views(self.mx_records@),
                string_views(lines@) == seq!["Priority   Host"@] + mx_lines(mv.take(i as int)),
        {
            assert(mv.take(i + 1).drop_last() =~= mv.take(i as int));
            assert(mv.take(i + 1).last() == self.mx_records@[i as int]@);
            let d = decimal_string(self.mx_records[i].priority);
            let mut line = crate::text::pad_right_str(d.as_str(), 10);
            push_str(&mut line, " ");
            push_str(&mut line, self.mx_records[i].host.as_str());
            push_line(&mut lines, line);
            assert(string_views(lines@) =~= seq!["Priority   Host"@] + mx_lines(mv.take(i + 1)));
        }
        assert(mv.take(mv.len() as int) =~= mv);
        lines
    }

    fn diagnostic_lines(&self) -> (r: Vec<String>)
        ensures
            string_views(r@) == dns_diagnostics(self@),
    {
        let mut diagnostics: Vec<String> = Vec::new();
        for i in 0..self.diagnostics.len()
            invariant
                string_views(diagnostics@) == string_views(self.diagnostics@).take(i as int),
        {
            push_line(&mut diagnostics, self.diagnostics[i].clone());
            assert(string_views(diagnostics@) =~= string_views(self.diagnostics@).take(i + 1));
        }
        assert(string_views(self.diagnostics@).take(self.diagnostics.len() as int) =~= string_views(
            self.diagnostics@,
        ));
        let count = self.total_record_count();
        if self.status.is_success() && count == 0 {
            push_line(&mut diagnostics, owned("⚠ No record lines parsed from command output."));
        }
        if self.status == DnsStatus::Success && self.a_records.len() == 0
            && self.aaaa_records.len() == 0 {
            push_line(&mut diagnostics, owned("⚠ No A/AAAA answer parsed; raw output may be useful."));
        }
        match self.provider {
            Some(p) => {
                let pc = chars_of(p);
                if contains_str(&pc, "Tailscale") {
                    push_line(&mut diagnostics, owned("ℹ Using Tailscale DNS service."));
                }
            },
            None => {},
        }
        match self.response_time_ms {
            Some(ms) => {
                if ms > 100 {
                    push_line(
                        &mut diagnostics,
                        owned("⚠ Response time is slower than typical local DNS."),
                    );
                }
            },
            None => {},
        }
        assert(string_views(diagnostics@) =~= dns_diagnostics(self@));
        diagnostics
    }

    pub fn build_sections(&self) -> (r: Vec<crate::tools::ToolResultSection>)
        ensures
            crate::tools::section_views(r@) == dns_sections(self@),
    {
        let ghost v = self@;
        let mut sections: Vec<crate::tools::ToolResultSection> = Vec::new();
        let summary = self.summary_lines();
        push_section(&mut sections, "Summary", summary);
        let ghost after_summary = crate::tools::section_views(sections@);
        let a_lines = address_section_lines(&self.a_records, "IPv4 Address: ");
        push_nonempty_section(&mut sections, "A Records", a_lines);
        let aaaa_lines = address_section_lines(&self.aaaa_records, "IPv6 Address: ");
        push_nonempty_section(&mut sections, "AAAA Records", aaaa_lines);
        let cname = self.cname_section_lines();
        push_nonempty_section(&mut sections, "CNAME Records", cname);
        let ghost after_cname = crate::tools::section_views(sections@);
        if self.mx_records.len() > 0 {
            let mx = self.mx_section_lines();
            push_section(&mut sections, "MX Records", mx);
        }
        let flow = self.flow_lines();
        push_nonempty_section(&mut sections, "DNS Flow", flow);
        let diagnostics = self.diagnostic_lines();
        push_section(&mut sections, "Diagnostics", diagnostics);
        assert(crate::tools::section_views(sections@) =~= dns_sections(v));
        sections
    }
}

fn push_section(sections: &mut Vec<crate::tools::ToolResultSection>, label: &str, lines: Vec<String>)
    ensures
        crate::tools::section_views(final(sections)@) == crate::tools::section_views(old(sections)@).push(
            crate::tools::SectionView { label: label@, lines: string_views(lines@) },
        ),
{
    let section = crate::tools::ToolResultSection { label: owned(label), lines };
    let ghost before = sections@;
    sections.push(section);
    proof {
        crate::tools::lemma_section_views_push(before, section);
    }
}

fn push_nonempty_section(
    sections: &mut Vec<crate::tools::ToolResultSection>,
    label: &str,
    lines: Vec<String>,
)
    ensures
        crate::tools::section_views(final(sections)@) == crate::tools::section_views(old(sections)@)
            + crate::tools::whois::nonempty_section(label@, string_views(lines@)),
{
    if lines.len() > 0 {
        let ghost lv = string_views(lines@);
        push_section(sections, label, lines);
        assert(crate::tools::section_views(sections@) =~= crate::tools::section_views(old(sections)@)
            + crate::tools::whois::nonempty_section(label@, lv));
    } else {
        assert(string_views(lines@) =~= Seq::<Seq<char>>::empty());
        assert(crate::tools::section_views(sections@) =~= crate::tools::section_views(sections@)
            + crate::tools::whois::nonempty_section(label@, string_views(lines@)));
    }
}

// ---------------------------------------------------------------------------
// Running the lookup
// ---------------------------------------------------------------------------
/// The commands to try, in order: `dig`, `host`, `nslookup`.
pub open spec fn dns_commands(target: Seq<char>) -> Seq<ToolCommandView> {
    seq![
        ToolCommandView { display: "dig "@ + target, program: "dig"@, args: seq![target] },
        ToolCommandView { display: "host "@ + target, program: "host"@, args: seq![target] },
        ToolCommandView {
            display: "nslookup "@ + target,
            program: "nslookup"@,
            args: seq![target],
        },
    ]
}

pub fn command_candidates(target: &str) -> (r: Vec<ToolCommandSpec>)
    ensures
        command_views(r@) == dns_commands(target@),
{
    let dig = ToolCommandSpec {
        display: concat2("dig ", target),
        program: owned("dig"),
        args: vec![owned(target)],
    };
    let host = ToolCommandSpec {
        display: concat2("host ", target),
        program: owned("host"),
        args: vec![owned(target)],
    };
    let nslookup = ToolCommandSpec {
        display: concat2("nslookup ", target),
        program: owned("nslookup"),
        args: vec![owned(target)],
    };
    assert(dig@.args =~= seq![target@]);
    assert(host@.args =~= seq![target@]);
    assert(nslookup@.args =~= seq![target@]);
    let r = vec![dig, host, nslookup];
    assert(command_views(r@) =~= dns_commands(target@));
    r
}

/// The sections of a lookup whose command ran: those of the parsed answer,
/// and a note of the exit status when the command failed, or exited cleanly
/// without a usable answer.
pub open spec fn dns_result_sections(parsed: DnsView, code: Option<i32>) -> Seq<
    crate::tools::SectionView,
> {
    let note = crate::tools::SectionView {
        label: "Command"@,
        lines: seq!["Command exited with status "@ + crate::text::debug_exit_code(code) + "."@],
    };
    if code != Some(0i32) || parsed.status == DnsStatus::Failed {
        dns_sections(parsed).push(note)
    } else {
        dns_sections(parsed)
    }
}

/// The result of the first lookup command that ran.
pub fn dns_lookup_result(
    target: &str,
    display: &str,
    stdout: &str,
    stderr: &str,
    code: Option<i32>,
    response_time_ms: Option<u64>,
) -> (r: crate::tools::ToolResult)
    ensures
        r@ == (crate::tools::ResultView {
            title: "DNS Lookup"@,
            sections: dns_result_sections(
                dns_parse(target@, stdout@, stderr@, code, response_time_ms),
                code,
            ),
            raw_output: crate::tools::ping::raw_transcript(display@, stdout@, stderr@),
        }),
{
    let parsed = parse_dns_output(target, stdout, stderr, code, response_time_ms);
    let mut sections = parsed.build_sections();
    if code != Some(0i32) || parsed.status == DnsStatus::Failed {
        let status = crate::text::debug_exit_code_string(code);
        let line = crate::text::concat3("Command exited with status ", status.as_str(), ".");
        let mut lines: Vec<String> = Vec::new();
        push_line(&mut lines, line);
        assert(string_views(lines@) =~= seq![line@]);
        push_section(&mut sections, "Command", lines);
    }
    assert(crate::tools::section_views(sections@) =~= dns_result_sections(parsed@, code));
    crate::tools::ToolResult {
        title: owned("DNS Lookup"),
        sections,
        raw_output: crate::tools::ping::transcript(display, stdout, stderr),
    }
}

/// How a command that could not be started is reported: its program and
/// the reason.
pub fn dns_failure(program: &str, error: &str) -> (r: String)
    ensures
        r@ == program@ + " ("@ + error@ + ")"@,
{
    let mut r = concat2(program, " (");
    push_str(&mut r, error);
    push_str(&mut r, ")");
    r
}

/// The error when no lookup command could be started.
pub fn dns_no_success_message(failures: &Vec<String>) -> (r: String)
    ensures
        r@ == "No DNS command succeeded. Tried: "@ + join(string_views(failures@), ", "@),
{
    let tried = crate::text::join_strings(failures, ", ");
    concat2("No DNS command succeeded. Tried: ", tried.as_str())
}

} // verus!
