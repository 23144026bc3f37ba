//! `ping`: four echo requests and the summary that follows them.
use vstd::prelude::*;

use crate::text::{
    chars_of, concat2, debug_exit_code, debug_exit_code_string, last_n, lines, lines_of,
    nonblank_trimmed, nonblank_trimmed_from, owned, push_str, str_eq, string_views, views,
};
use crate::tools::{ResultView, SectionView, ToolCommandSpec, ToolCommandView, ToolResult, ToolResultSection};

verus! {

/// Four echo requests: `ping -n 4` on Windows, `ping -c 4` elsewhere.
pub open spec fn ping_command(os: Seq<char>, target: Seq<char>) -> ToolCommandView {
    if os == "windows"@ {
        ToolCommandView {
            display: "ping -n 4 "@ + target,
            program: "ping"@,
            args: seq!["-n"@, "4"@, target],
        }
    } else {
        ToolCommandView {
            display: "ping -c 4 "@ + target,
            program: "ping"@,
            args: seq!["-c"@, "4"@, target],
        }
    }
}

pub fn command_spec_for_os(os: &str, target: &str) -> (r: ToolCommandSpec)
    ensures
        r@ == ping_command(os@, target@),
{
    let count_flag = if str_eq(os, "windows") {
        "-n"
    } else {
        "-c"
    };
    let mut display = owned("ping ");
    push_str(&mut display, count_flag);
    push_str(&mut display, " 4 ");
    push_str(&mut display, target);
    let args = vec![owned(count_flag), owned("4"), owned(target)];
    let r = ToolCommandSpec { display, program: owned("ping"), args };
    proof {
        reveal_strlit("ping ");
        reveal_strlit(" 4 ");
        reveal_strlit("ping -n 4 ");
        reveal_strlit("ping -c 4 ");
        reveal_strlit("-n");
        reveal_strlit("-c");
    }
    assert(r@.display =~= ping_command(os@, target@).display);
    assert(r@.args =~= ping_command(os@, target@).args);
    r
}

/// What a finished command leaves for the raw-output pane: the command
/// line after `$ `, then its standard output and standard error.
pub open spec fn raw_transcript(display: Seq<char>, stdout: Seq<char>, stderr: Seq<char>) -> Seq<
    char,
> {
    "$ "@ + display + "\n"@ + stdout + stderr
}

pub fn transcript(display: &str, stdout: &str, stderr: &str) -> (r: String)
    ensures
        r@ == raw_transcript(display@, stdout@, stderr@),
{
    let mut r = owned("$ ");
    push_str(&mut r, display);
    push_str(&mut r, "\n");
    push_str(&mut r, stdout);
    push_str(&mut r, stderr);
    r
}

/// The ping summary: whether it exited cleanly, then the non-blank lines
/// among the last four of its output, trimmed.
pub open spec fn ping_summary(stdout: Seq<char>, code: Option<i32>) -> Seq<Seq<char>> {
    let status = if code == Some(0i32) {
        "Ping completed successfully."@
    } else {
        "Ping exited with status "@ + debug_exit_code(code) + "."@
    };
    seq![status] + nonblank_trimmed(last_n(lines(stdout), 4))
}

pub open spec fn ping_result_view(
    display: Seq<char>,
    stdout: Seq<char>,
    stderr: Seq<char>,
    code: Option<i32>,
) -> ResultView {
    ResultView {
        title: "Ping"@,
        sections: seq![SectionView { label: "Summary"@, lines: ping_summary(stdout, code) }],
        raw_output: raw_transcript(display, stdout, stderr),
    }
}

/// The result of a finished `ping` run.
pub fn ping_result(display: &str, stdout: &str, stderr: &str, code: Option<i32>) -> (r: ToolResult)
    ensures
        r@ == ping_result_view(display@, stdout@, stderr@, code),
{
    let status = if code == Some(0i32) {
        owned("Ping completed successfully.")
    } else {
        let mut s = owned("Ping exited with status ");
        let c = debug_exit_code_string(code);
        push_str(&mut s, c.as_str());
        push_str(&mut s, ".");
        s
    };
    let out = chars_of(stdout);
    let ls = lines_of(&out);
    let from: usize = if ls.len() > 4 {
        ls.len() - 4
    } else {
        0
    };
    let tail = nonblank_trimmed_from(&ls, from);
    assert(views(ls@).skip(from as int) =~= last_n(lines(stdout@), 4));
    let mut summary: Vec<String> = Vec::new();
    summary.push(status);
    let ghost head = string_views(summary@);
    for i in 0..tail.len()
        invariant
            string_views(summary@) == head + string_views(tail@).take(i as int),
    {
        let ghost before = summary@;
        summary.push(tail[i].clone());
        proof {
            crate::text::lemma_string_views_push(before, tail@[i as int]);
        }
        assert(string_views(summary@) =~= head + string_views(tail@).take(i + 1));
    }
    assert(string_views(tail@).take(tail.len() as int) =~= string_views(tail@));
    assert(string_views(summary@) =~= ping_summary(stdout@, code));
    let section = ToolResultSection { label: owned("Summary"), lines: summary };
    let ghost section_view = section@;
    let r = ToolResult {
        title: owned("Ping"),
        sections: vec![section],
        raw_output: transcript(display, stdout, stderr),
    };
    assert(r.sections@[0]@ == section_view);
    assert(r@.sections =~= ping_result_view(display@, stdout@, stderr@, code).sections);
    r
}

} // verus!
