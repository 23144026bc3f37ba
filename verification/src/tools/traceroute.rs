//! `traceroute`: the hops on the way to a target.
use vstd::prelude::*;

use crate::text::{
    chars_of, concat2, debug_exit_code, debug_exit_code_string, decimal, decimal_string,
    decimal_value, lines, lines_of, owned, parse_u64, push_str, split_whitespace, str_eq,
    string_of, string_views, trim, trim_chars, views, words,
};
use crate::tools::ping::{raw_transcript, transcript};
use crate::tools::{
    ResultView, SectionView, ToolCommandSpec, ToolCommandView, ToolResult, ToolResultSection,
    lemma_section_views_push, section_views,
};

verus! {

/// At most eight hops: `traceroute -m 8 -w 1` on Linux, `tracert -h 8` on
/// Windows, `traceroute -m 8` elsewhere.
pub open spec fn traceroute_command(os: Seq<char>, target: Seq<char>) -> ToolCommandView {
    if os == "linux"@ {
        ToolCommandView {
            display: "traceroute -m 8 -w 1 "@ + target,
            program: "traceroute"@,
            args: seq!["-m"@, "8"@, "-w"@, "1"@, target],
        }
    } else if os == "windows"@ {
        ToolCommandView {
            display: "tracert -h 8 "@ + target,
            program: "tracert"@,
            args: seq!["-h"@, "8"@, target],
        }
    } else {
        ToolCommandView {
            display: "traceroute -m 8 "@ + target,
            program: "traceroute"@,
            args: seq!["-m"@, "8"@, target],
        }
    }
}

pub fn command_spec_for_os(os: &str, target: &str) -> (r: ToolCommandSpec)
    ensures
        r@ == traceroute_command(os@, target@),
{
    if str_eq(os, "linux") {
        let r = ToolCommandSpec {
            display: concat2("traceroute -m 8 -w 1 ", target),
            program: owned("traceroute"),
            args: vec![owned("-m"), owned("8"), owned("-w"), owned("1"), owned(target)],
        };
        assert(r@.args =~= traceroute_command(os@, target@).args);
        r
    } else if str_eq(os, "windows") {
        let r = ToolCommandSpec {
            display: concat2("tracert -h 8 ", target),
            program: owned("tracert"),
            args: vec![owned("-h"), owned("8"), owned(target)],
        };
        assert(r@.args =~= traceroute_command(os@, target@).args);
        r
    } else {
        let r = ToolCommandSpec {
            display: concat2("traceroute -m 8 ", target),
            program: owned("traceroute"),
            args: vec![owned("-m"), owned("8"), owned(target)],
        };
        assert(r@.args =~= traceroute_command(os@, target@).args);
        r
    }
}

/// A hop line: its first word is a number (`str::parse::<usize>`).
pub open spec fn is_hop_line(line: Seq<char>) -> bool {
    let ws = words(line);
    ws.len() > 0 && match decimal_value(ws[0]) {
        Some(n) => n <= usize::MAX,
        None => false,
    }
}

/// The hop lines of the output, trimmed, in order.
pub open spec fn hops(ls: Seq<Seq<char>>) -> Seq<Seq<char>>
    decreases ls.len(),
{
    if ls.len() == 0 {
        Seq::empty()
    } else {
        let prev = hops(ls.drop_last());
        let t = trim(ls.last());
        if t.len() > 0 && is_hop_line(t) {
            prev.push(t)
        } else {
            prev
        }
    }
}

/// A line that starts with a hop number: its first word is a decimal
/// number (any number of digits, after an optional `+`) that fits in a
/// `usize`, such as `9`, `10` or `30`.
pub open spec fn starts_with_hop_number(t: Seq<char>) -> bool {
    &&& words(t).len() > 0
    &&& decimal_value(words(t)[0]) matches Some(n) && n <= usize::MAX
}

/// The hops of traceroute output are its lines, trimmed, that are not
/// empty and start with a hop number, every one of them, in order.
pub proof fn lemma_hops_are_numbered_lines(ls: Seq<Seq<char>>)
    ensures
        hops(ls) == ls.map_values(|l: Seq<char>| trim(l)).filter(
            |t: Seq<char>| t.len() > 0 && starts_with_hop_number(t),
        ),
        forall|i: int|
            0 <= i < ls.len() && trim(#[trigger] ls[i]).len() > 0 && starts_with_hop_number(trim(ls[i]))
                ==> hops(ls).contains(trim(ls[i])),
    decreases ls.len(),
{
    reveal(Seq::filter);
    let pred = |t: Seq<char>| t.len() > 0 && starts_with_hop_number(t);
    let tf = |l: Seq<char>| trim(l);
    if ls.len() == 0 {
        assert(ls.map_values(tf).filter(pred) =~= Seq::<Seq<char>>::empty());
    } else {
        let prev = ls.drop_last();
        lemma_hops_are_numbered_lines(prev);
        assert(ls.map_values(tf).drop_last() =~= prev.map_values(tf));
        assert(ls.map_values(tf).last() == trim(ls.last()));
        let h = hops(ls);
        assert forall|i: int|
            0 <= i < ls.len() && trim(#[trigger] ls[i]).len() > 0 && starts_with_hop_number(trim(ls[i]))
                implies h.contains(trim(ls[i])) by {
            if i < prev.len() {
                assert(prev[i] == ls[i]);
                assert(hops(prev).contains(trim(prev[i])));
                let q = choose|q: int| 0 <= q < hops(prev).len() && hops(prev)[q] == trim(prev[i]);
                assert(h[q] == hops(prev)[q]);
            } else {
                assert(h[h.len() - 1] == trim(ls.last()));
            }
        }
    }
}

fn hop_number(line: &[char]) -> (r: bool)
    ensures
        r == is_hop_line(line@),
{
    let ws = split_whitespace(line);
    if ws.len() == 0 {
        return false;
    }
    assert(views(ws@)[0] == ws@[0]@);
    match parse_u64(&ws[0]) {
        Some(n) => (n as u128) <= (usize::MAX as u128),
        None => false,
    }
}

pub fn parse_hops(stdout: &str) -> (r: Vec<String>)
    ensures
        string_views(r@) == hops(lines(stdout@)),
{
    let out = chars_of(stdout);
    let ls = lines_of(&out);
    let ghost lv = views(ls@);
    let mut r: Vec<String> = Vec::new();
    for i in 0..ls.len()
        invariant
            lv == views(ls@),
            string_views(r@) == hops(lv.take(i as int)),
    {
        assert(lv.take(i + 1).drop_last() =~= lv.take(i as int));
        assert(lv.take(i + 1).last() == ls@[i as int]@);
        let t = trim_chars(&ls[i]);
        if t.len() > 0 && hop_number(&t) {
            let ghost before = r@;
            let line = string_of(&t);
            r.push(line);
            proof {
                crate::text::lemma_string_views_push(before, line);
            }
        }
    }
    assert(lv.take(lv.len() as int) =~= lv);
    r
}

/// The summary, the hops if any, and what went wrong or right.
pub open spec fn traceroute_sections(
    target: Seq<char>,
    stdout: Seq<char>,
    stderr: Seq<char>,
    code: Option<i32>,
) -> Seq<SectionView> {
    let hs = hops(lines(stdout));
    let summary = SectionView {
        label: "Summary"@,
        lines: seq![
            "Target: "@ + target,
            "Status: traceroute exited with "@ + debug_exit_code(code),
            "Hops Parsed: "@ + decimal(hs.len()),
        ],
    };
    let hop_sections = if hs.len() > 0 {
        seq![SectionView { label: "Hops"@, lines: hs }]
    } else {
        Seq::empty()
    };
    let diagnostic = if trim(stderr).len() > 0 {
        trim(stderr)
    } else if hs.len() == 0 {
        "No hop lines were parsed; raw output may contain timeout details."@
    } else {
        "Traceroute completed with at least one parsed hop."@
    };
    seq![summary] + hop_sections + seq![SectionView { label: "Diagnostics"@, lines: seq![diagnostic] }]
}

pub open spec fn traceroute_result_view(
    target: Seq<char>,
    display: Seq<char>,
    stdout: Seq<char>,
    stderr: Seq<char>,
    code: Option<i32>,
) -> ResultView {
    ResultView {
        title: "Traceroute"@,
        sections: traceroute_sections(target, stdout, stderr, code),
        raw_output: raw_transcript(display, stdout, stderr),
    }
}

/// The result of a finished traceroute run.
pub fn traceroute_result(
    target: &str,
    display: &str,
    stdout: &str,
    stderr: &str,
    code: Option<i32>,
) -> (r: ToolResult)
    ensures
        r@ == traceroute_result_view(target@, display@, stdout@, stderr@, code),
{
    let hop_lines = parse_hops(stdout);
    let count = hop_lines.len();
    let status = debug_exit_code_string(code);
    let summary_lines = vec![
        concat2("Target: ", target),
        concat2("Status: traceroute exited with ", status.as_str()),
        concat2("Hops Parsed: ", decimal_string(count as u64).as_str()),
    ];
    let summary = ToolResultSection { label: owned("Summary"), lines: summary_lines };
    let ghost summary_view = summary@;
    let mut sections: Vec<ToolResultSection> = Vec::new();
    sections.push(summary);
    assert(section_views(sections@) =~= seq![summary_view]);
    let ghost hv = string_views(hop_lines@);
    let ghost expected = traceroute_sections(target@, stdout@, stderr@, code);
    if count > 0 {
        let ghost before = sections@;
        let hop_section = ToolResultSection { label: owned("Hops"), lines: hop_lines };
        sections.push(hop_section);
        proof {
            lemma_section_views_push(before, hop_section);
        }
    }
    let ghost middle = section_views(sections@);
    let err = chars_of(stderr);
    let err_trimmed = trim_chars(&err);
    let diagnostic = if err_trimmed.len() > 0 {
        string_of(&err_trimmed)
    } else if count == 0 {
        owned("No hop lines were parsed; raw output may contain timeout details.")
    } else {
        owned("Traceroute completed with at least one parsed hop.")
    };
    let ghost diagnostic_view = diagnostic@;
    let diagnostics_section = ToolResultSection { label: owned("Diagnostics"), lines: vec![diagnostic] };
    assert(diagnostics_section@.lines =~= seq![diagnostic_view]);
    let ghost before_last = sections@;
    sections.push(diagnostics_section);
    proof {
        lemma_section_views_push(before_last, diagnostics_section);
    }
    let r = ToolResult {
        title: owned("Traceroute"),
        sections,
        raw_output: transcript(display, stdout, stderr),
    };
    assert(summary_view.lines =~= expected[0].lines);
    assert(section_views(r.sections@) =~= traceroute_sections(target@, stdout@, stderr@, code));
    r
}

} // verus!
