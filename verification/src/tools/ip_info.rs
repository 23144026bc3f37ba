//! IP information: the reverse name of an address and the ownership
//! details its whois record gives.
use vstd::prelude::*;

use crate::text::{
    chars_of, concat2, contains, find_chars, first_match, has_char, join, join_strings, lines,
    lines_of, owned, push_str, starts_with, strip_prefix, strip_prefix_str, string_of,
    string_views, trim, trim_chars, trim_end_char, trim_end_char_exec, views,
};
use crate::net::{ipv4_octets_spec, ipv6_octets_spec, parse_ipv4, parse_ipv6};
use crate::tools::whois::{
    first_field, first_field_value, str_seq, whois_sections, whois_text, parse_whois_output,
};
use crate::tools::{
    ResultView, SectionView, ToolCommandSpec, ToolCommandView, ToolResult, ToolResultSection,
    command_views, lemma_section_views_push, section_views,
};

verus! {

/// The IP information tool takes an IPv4 or an IPv6 address and refuses
/// anything else.
pub fn check_ip_input(ip: &str) -> (r: Result<(), String>)
    ensures
        r is Ok <==> (ipv4_octets_spec(ip@) is Some || ipv6_octets_spec(ip@) is Some),
        r matches Err(e) ==> e@ == "IP must be a valid IPv4 or IPv6 address."@,
{
    if parse_ipv4(ip).is_none() && parse_ipv6(ip).is_none() {
        Err(owned("IP must be a valid IPv4 or IPv6 address."))
    } else {
        Ok(())
    }
}

/// The reverse lookups to try, in order: `dig -x <ip> +short`, `host <ip>`,
/// `nslookup <ip>`.
pub open spec fn reverse_dns_commands(ip: Seq<char>) -> Seq<ToolCommandView> {
    seq![
        ToolCommandView {
            display: "dig -x "@ + ip + " +short"@,
            program: "dig"@,
            args: seq!["-x"@, ip, "+short"@],
        },
        ToolCommandView { display: "host "@ + ip, program: "host"@, args: seq![ip] },
        ToolCommandView { display: "nslookup "@ + ip, program: "nslookup"@, args: seq![ip] },
    ]
}

pub fn reverse_dns_command_candidates(ip: &str) -> (r: Vec<ToolCommandSpec>)
    ensures
        command_views(r@) == reverse_dns_commands(ip@),
{
    let dig = ToolCommandSpec {
        display: crate::text::concat3("dig -x ", ip, " +short"),
        program: owned("dig"),
        args: vec![owned("-x"), owned(ip), owned("+short")],
    };
    let host = ToolCommandSpec {
        display: concat2("host ", ip),
        program: owned("host"),
        args: vec![owned(ip)],
    };
    let nslookup = ToolCommandSpec {
        display: concat2("nslookup ", ip),
        program: owned("nslookup"),
        args: vec![owned(ip)],
    };
    assert(dig@.args =~= seq!["-x"@, ip@, "+short"@]);
    assert(host@.args =~= seq![ip@]);
    assert(nslookup@.args =~= seq![ip@]);
    let r = vec![dig, host, nslookup];
    assert(command_views(r@) =~= reverse_dns_commands(ip@));
    r
}

/// A name without surrounding whitespace and trailing dots.
pub open spec fn clean_name(s: Seq<char>) -> Seq<char> {
    trim_end_char(trim(s), '.')
}

/// The piece after the first ` domain name pointer `, up to the next one.
pub open spec fn pointer_target(s: Seq<char>) -> Seq<char> {
    let marker = " domain name pointer "@;
    match first_match(s, marker) {
        Some(i) => {
            let after = s.skip(i + marker.len());
            match first_match(after, marker) {
                Some(j) => after.take(j),
                None => after,
            }
        },
        None => Seq::empty(),
    }
}

/// What one line of a reverse lookup names, if anything: the target of a
/// `domain name pointer` line, or a bare dotted name.
pub open spec fn reverse_name_of_line(line: Seq<char>) -> Option<Seq<char>> {
    let t = clean_name(line);
    if t.len() == 0 {
        None
    } else {
        match strip_prefix(t, "domain name pointer "@) {
            Some(v) => Some(clean_name(v)),
            None => if contains(t, " domain name pointer "@) {
                Some(clean_name(pointer_target(t)))
            } else if t.contains('.') && !t.contains(' ') {
                Some(t)
            } else {
                None
            },
        }
    }
}

/// The name the first line that names one gives.
pub open spec fn reverse_name(ls: Seq<Seq<char>>) -> Option<Seq<char>>
    decreases ls.len(),
{
    if ls.len() == 0 {
        None
    } else {
        match reverse_name_of_line(ls[0]) {
            Some(n) => Some(n),
            None => reverse_name(ls.drop_first()),
        }
    }
}

fn clean_name_exec(s: &[char]) -> (r: Vec<char>)
    ensures
        r@ == clean_name(s@),
{
    let t = trim_chars(s);
    trim_end_char_exec(&t, '.')
}

fn reverse_name_of_line_exec(line: &[char]) -> (r: Option<Vec<char>>)
    ensures
        match r {
            Some(v) => reverse_name_of_line(line@) == Some(v@),
            None => reverse_name_of_line(line@) is None,
        },
{
    let t = clean_name_exec(line);
    if t.len() == 0 {
        return None;
    }
    match strip_prefix_str(&t, "domain name pointer ") {
        Some(v) => Some(clean_name_exec(&v)),
        None => {
            let marker = chars_of(" domain name pointer ");
            match find_chars(&t, &marker) {
                Some(i) => {
                    let after = crate::text::slice_chars(&t, i + marker.len(), t.len());
                    assert(after@ =~= t@.skip(i + marker@.len()));
                    let piece = match find_chars(&after, &marker) {
                        Some(j) => {
                            let p = crate::text::slice_chars(&after, 0, j);
                            assert(p@ =~= after@.take(j as int));
                            p
                        },
                        None => after,
                    };
                    assert(piece@ == pointer_target(t@));
                    Some(clean_name_exec(&piece))
                },
                None => {
                    if has_char(&t, '.') && !has_char(&t, ' ') {
                        Some(t)
                    } else {
                        None
                    }
                },
            }
        },
    }
}

pub fn parse_reverse_dns_output(text: &str) -> (r: Option<String>)
    ensures
        crate::model::opt_chars(r) == reverse_name(lines(text@)),
{
    let t = chars_of(text);
    let ls = lines_of(&t);
    let ghost lv = views(ls@);
    assert(lv.skip(0) =~= lv);
    for i in 0..ls.len()
        invariant
            lv == views(ls@),
            lv == lines(text@),
            reverse_name(lv) == reverse_name(lv.skip(i as int)),
    {
        assert(lv.skip(i as int)[0] == ls@[i as int]@);
        assert(lv.skip(i as int).drop_first() =~= lv.skip(i + 1));
        match reverse_name_of_line_exec(&ls[i]) {
            Some(n) => {
                return Some(string_of(&n));
            },
            None => {},
        }
    }
    assert(lv.skip(ls.len() as int) =~= Seq::<Seq<char>>::empty());
    None
}

// ---------------------------------------------------------------------------
// Running the lookups
// ---------------------------------------------------------------------------
/// What the lookups have gathered so far.
#[derive(Clone, Debug)]
pub struct ReverseLookup {
    pub raw_chunks: Vec<String>,
    pub reverse_name: Option<String>,
    pub reverse_error: Option<String>,
}

impl ReverseLookup {
    pub fn new() -> (r: Self)
        ensures
            r.raw_chunks@.len() == 0,
            r.reverse_name is None,
            r.reverse_error is None,
    {
        ReverseLookup { raw_chunks: Vec::new(), reverse_name: None, reverse_error: None }
    }
}

/// The name a finished reverse lookup gives: from its output, or else from
/// its error stream.
pub open spec fn reverse_answer(stdout: Seq<char>, stderr: Seq<char>) -> Option<Seq<char>> {
    match reverse_name(lines(stdout)) {
        Some(n) => Some(n),
        None => reverse_name(lines(stderr)),
    }
}

/// Records one reverse lookup and says whether to stop: a run that could
/// not start leaves its reason; a finished run leaves its transcript and
/// the name it gives, and the lookups stop once a name is known.
pub fn record_reverse_attempt(
    state: &mut ReverseLookup,
    command: &ToolCommandSpec,
    outcome: Result<(String, String, Option<i32>), String>,
) -> (stop: bool)
    ensures
        match outcome {
            Ok((stdout, stderr, _)) => {
                &&& string_views(final(state).raw_chunks@) == string_views(old(state).raw_chunks@).push(
                    crate::tools::ping::raw_transcript(command.display@, stdout@, stderr@),
                )
                &&& crate::model::opt_chars(final(state).reverse_name) == reverse_answer(stdout@, stderr@)
                &&& crate::model::opt_chars(final(state).reverse_error) == crate::model::opt_chars(
                    old(state).reverse_error,
                )
                &&& stop == (reverse_answer(stdout@, stderr@) is Some)
            },
            Err(e) => {
                &&& final(state).raw_chunks@ == old(state).raw_chunks@
                &&& crate::model::opt_chars(final(state).reverse_name) == crate::model::opt_chars(
                    old(state).reverse_name,
                )
                &&& crate::model::opt_chars(final(state).reverse_error) == Some(
                    command.program@ + " ("@ + e@ + ")"@,
                )
                &&& !stop
            },
        },
{
    match outcome {
        Ok((stdout, stderr, _code)) => {
            let chunk = crate::tools::ping::transcript(
                command.display.as_str(),
                stdout.as_str(),
                stderr.as_str(),
            );
            let ghost before = state.raw_chunks@;
            state.raw_chunks.push(chunk);
            proof {
                crate::text::lemma_string_views_push(before, chunk);
            }
            let name = match parse_reverse_dns_output(stdout.as_str()) {
                Some(n) => Some(n),
                None => parse_reverse_dns_output(stderr.as_str()),
            };
            let stop = name.is_some();
            state.reverse_name = name;
            stop
        },
        Err(e) => {
            let mut reason = command.program.clone();
            push_str(&mut reason, " (");
            push_str(&mut reason, e.as_str());
            push_str(&mut reason, ")");
            state.reverse_error = Some(reason);
            false
        },
    }
}

/// Records the whois run and gives its output, error stream and exit code;
/// a run that could not start counts as empty output with its reason as
/// the error stream.
pub fn record_whois_attempt(
    state: &mut ReverseLookup,
    command: &ToolCommandSpec,
    outcome: Result<(String, String, Option<i32>), String>,
) -> (r: (String, String, Option<i32>))
    ensures
        match outcome {
            Ok((stdout, stderr, code)) => {
                &&& r.0@ == stdout@ && r.1@ == stderr@ && r.2 == code
                &&& string_views(final(state).raw_chunks@) == string_views(old(state).raw_chunks@)
                    + if stdout@.len() > 0 || stderr@.len() > 0 {
                    seq![crate::tools::ping::raw_transcript(command.display@, stdout@, stderr@)]
                } else {
                    Seq::empty()
                }
            },
            Err(e) => {
                &&& r.0@.len() == 0 && r.1@ == e@ && r.2 is None
                &&& string_views(final(state).raw_chunks@) == string_views(old(state).raw_chunks@)
                    + seq!["$ "@ + command.display@ + "\n"@ + e@] + if e@.len() > 0 {
                    seq![crate::tools::ping::raw_transcript(command.display@, Seq::empty(), e@)]
                } else {
                    Seq::empty()
                }
            },
        },
        crate::model::opt_chars(final(state).reverse_name) == crate::model::opt_chars(
            old(state).reverse_name,
        ),
        crate::model::opt_chars(final(state).reverse_error) == crate::model::opt_chars(
            old(state).reverse_error,
        ),
{
    match outcome {
        Ok((stdout, stderr, code)) => {
            if !stdout.as_str().is_empty() || !stderr.as_str().is_empty() {
                let chunk = crate::tools::ping::transcript(
                    command.display.as_str(),
                    stdout.as_str(),
                    stderr.as_str(),
                );
                let ghost before = state.raw_chunks@;
                state.raw_chunks.push(chunk);
                proof {
                    crate::text::lemma_string_views_push(before, chunk);
                }
            } else {
                assert(string_views(state.raw_chunks@) =~= string_views(state.raw_chunks@) + Seq::<
                    Seq<char>,
                >::empty());
            }
            (stdout, stderr, code)
        },
        Err(e) => {
            let mut chunk = crate::text::concat3("$ ", command.display.as_str(), "\n");
            push_str(&mut chunk, e.as_str());
            let ghost before = state.raw_chunks@;
            state.raw_chunks.push(chunk);
            proof {
                crate::text::lemma_string_views_push(before, chunk);
            }
            let ghost middle = state.raw_chunks@;
            if !e.as_str().is_empty() {
                let chunk2 = crate::tools::ping::transcript(command.display.as_str(), "", e.as_str());
                state.raw_chunks.push(chunk2);
                proof {
                    crate::text::lemma_string_views_push(middle, chunk2);
                    reveal_strlit("");
                }
                assert(string_views(state.raw_chunks@) =~= string_views(before) + seq![chunk@]
                    + seq![chunk2@]);
            } else {
                assert(string_views(state.raw_chunks@) =~= string_views(before) + seq![chunk@]
                    + Seq::<Seq<char>>::empty());
            }
            (String::new(), e, None)
        },
    }
}

pub open spec fn organization_names() -> Seq<Seq<char>> {
    seq!["OrgName"@, "org-name"@, "org"@, "Organization"@, "descr"@, "owner"@]
}

pub open spec fn country_names() -> Seq<Seq<char>> {
    seq!["Country"@, "country"@]
}

pub open spec fn asn_names() -> Seq<Seq<char>> {
    seq!["origin"@, "originas"@, "aut-num"@, "ASNumber"@]
}

pub open spec fn or_unavailable(v: Option<Seq<char>>) -> Seq<char> {
    match v {
        Some(s) => s,
        None => "Unavailable"@,
    }
}

/// The sections of the IP information: a summary, the whois dates when
/// there are any, and diagnostics.
pub open spec fn ip_info_sections(
    ip: Seq<char>,
    reverse: Option<Seq<char>>,
    reverse_error: Option<Seq<char>>,
    stdout: Seq<char>,
    stderr: Seq<char>,
    code: Option<i32>,
) -> Seq<SectionView> {
    let ls = lines(whois_text(stdout, stderr));
    let organization = first_field_value(ls, organization_names());
    let country = first_field_value(ls, country_names());
    let asn = first_field_value(ls, asn_names());
    let summary = seq![
        "IP: "@ + ip,
        "Reverse DNS: "@ + or_unavailable(reverse),
        "Organization: "@ + or_unavailable(organization),
        "ASN: "@ + or_unavailable(asn),
        "Country: "@ + or_unavailable(country),
    ];
    let dates = crate::tools::whois::nonempty_section(
        "Dates"@,
        crate::tools::whois::whois_dates(ls),
    );
    let missing_reverse = if reverse is None {
        seq![
            match reverse_error {
                Some(e) => e,
                None => "No reverse DNS answer was parsed."@,
            },
        ]
    } else {
        Seq::empty()
    };
    let limited = if organization is None && asn is None && country is None {
        seq!["Whois ownership details were limited for this IP."@]
    } else {
        Seq::empty()
    };
    let diagnostics = if (missing_reverse + limited).len() == 0 {
        seq!["Reverse DNS and registration metadata collected."@]
    } else {
        missing_reverse + limited
    };
    seq![SectionView { label: "Summary"@, lines: summary }] + dates + seq![
        SectionView { label: "Diagnostics"@, lines: diagnostics },
    ]
}

fn or_unavailable_exec(v: &Option<String>) -> (r: String)
    ensures
        r@ == or_unavailable(crate::model::opt_chars(*v)),
{
    match v {
        Some(s) => s.clone(),
        None => owned("Unavailable"),
    }
}

/// The result of the IP information tool once its lookups have run.
pub fn ip_info_result(
    ip: &str,
    state: &ReverseLookup,
    stdout: &str,
    stderr: &str,
    code: Option<i32>,
) -> (r: ToolResult)
    ensures
        r@ == (ResultView {
            title: "IP Information"@,
            sections: ip_info_sections(
                ip@,
                crate::model::opt_chars(state.reverse_name),
                crate::model::opt_chars(state.reverse_error),
                stdout@,
                stderr@,
                code,
            ),
            raw_output: join(string_views(state.raw_chunks@), "\n"@),
        }),
{
    let combined = if stdout.is_empty() {
        stderr
    } else {
        stdout
    };
    let organization_list: &[&str] = &["OrgName", "org-name", "org", "Organization", "descr", "owner"];
    let country_list: &[&str] = &["Country", "country"];
    let asn_list: &[&str] = &["origin", "originas", "aut-num", "ASNumber"];
    assert(str_seq(organization_list@) =~= organization_names());
    assert(str_seq(country_list@) =~= country_names());
    assert(str_seq(asn_list@) =~= asn_names());
    let organization = first_field(combined, organization_list);
    let country = first_field(combined, country_list);
    let asn = first_field(combined, asn_list);
    let summary = vec![
        concat2("IP: ", ip),
        concat2("Reverse DNS: ", or_unavailable_exec(&state.reverse_name).as_str()),
        concat2("Organization: ", or_unavailable_exec(&organization).as_str()),
        concat2("ASN: ", or_unavailable_exec(&asn).as_str()),
        concat2("Country: ", or_unavailable_exec(&country).as_str()),
    ];
    let ghost expected = ip_info_sections(
        ip@,
        crate::model::opt_chars(state.reverse_name),
        crate::model::opt_chars(state.reverse_error),
        stdout@,
        stderr@,
        code,
    );
    let ghost ls = lines(whois_text(stdout@, stderr@));
    let summary_section = ToolResultSection { label: owned("Summary"), lines: summary };
    assert(summary_section@.lines =~= expected[0].lines);
    let mut sections: Vec<ToolResultSection> = Vec::new();
    sections.push(summary_section);
    assert(section_views(sections@) =~= seq![summary_section@]);
    let ghost after_summary = section_views(sections@);
    let dates = crate::tools::whois::dates_lines(combined);
    if dates.len() > 0 {
        let ghost before = sections@;
        let section = ToolResultSection { label: owned("Dates"), lines: dates };
        sections.push(section);
        proof {
            lemma_section_views_push(before, section);
        }
    }
    assert(section_views(sections@) =~= after_summary + crate::tools::whois::nonempty_section(
        "Dates"@,
        crate::tools::whois::whois_dates(ls),
    ));
    let mut diagnostics: Vec<String> = Vec::new();
    if state.reverse_name.is_none() {
        let line = match &state.reverse_error {
            Some(e) => e.clone(),
            None => owned("No reverse DNS answer was parsed."),
        };
        diagnostics.push(line);
    }
    if organization.is_none() && asn.is_none() && country.is_none() {
        diagnostics.push(owned("Whois ownership details were limited for this IP."));
    }
    if diagnostics.len() == 0 {
        diagnostics.push(owned("Reverse DNS and registration metadata collected."));
    }
    let ghost before = sections@;
    let section = ToolResultSection { label: owned("Diagnostics"), lines: diagnostics };
    assert(section@.lines =~= expected.last().lines);
    sections.push(section);
    proof {
        lemma_section_views_push(before, section);
    }
    assert(section_views(sections@) =~= expected);
    let raw_output = join_strings(&state.raw_chunks, "\n");
    ToolResult { title: owned("IP Information"), sections, raw_output }
}

} // verus!
