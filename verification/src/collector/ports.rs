//! Listening TCP ports from `lsof`, `ss` and Windows `netstat`.
use vstd::prelude::*;

use crate::model::{port_views, ListeningPort, PortView};
use crate::text::{
    all_digits, chars_of, contains, contains_str, eq_ignore_ascii_case, eq_ignore_ascii_case_str,
    eq_str, find_char, find_chars, first_index, first_match, is_ascii_digit, is_digit, lines,
    lines_of, lowercase, owned, rsplit_once, rsplit_once_char, slice_chars, split_whitespace,
    string_of, to_lowercase_spec, trim, trim_chars, trim_end_char, trim_end_char_exec, trim_end_str,
    trim_end_str_exec, trim_start_char, trim_start_char_exec, views, words,
};

verus! {

/// Windows `netstat -ano` output names the `Proto` and `PID` columns.
pub open spec fn looks_like_windows_netstat(input: Seq<char>) -> bool {
    contains(input, "Proto"@) && contains(input, "PID"@)
}

/// The address and port of a socket name: the text around the last `:`,
/// the address without enclosing brackets; `*` as the port when there is no
/// `:`.
pub open spec fn node_parts(node: Seq<char>) -> (Seq<char>, Seq<char>) {
    match rsplit_once(node, ':') {
        Some((ip, port)) => (trim_end_char(trim_start_char(ip, '['), ']'), port),
        None => (node, "*"@),
    }
}

/// A listening row of Windows `netstat -ano`.
pub open spec fn windows_port(line: Seq<char>) -> Option<PortView> {
    let parts = words(line);
    if parts.len() < 5 || !eq_ignore_ascii_case(parts[0], "TCP"@) || !eq_ignore_ascii_case(
        parts[3],
        "LISTENING"@,
    ) {
        None
    } else {
        let (ip, port) = node_parts(parts[1]);
        Some(
            PortView {
                proto: "tcp"@,
                local_ip: ip,
                local_port: port,
                pid: parts[4],
                command: "pid:"@ + parts[4],
                user: "-"@,
            },
        )
    }
}

/// The protocol, local address and process columns of an `ss` socket row.
pub open spec fn ss_row_parts(line: Seq<char>) -> Option<(Seq<char>, Seq<char>, Seq<char>)> {
    let parts = words(line);
    if parts.len() == 0 {
        None
    } else if parts[0] == "tcp"@ || parts[0] == "tcp6"@ || parts[0] == "udp"@ || parts[0]
        == "udp6"@ {
        if parts.len() < 5 {
            None
        } else {
            Some((parts[0], parts[4], if parts.len() > 6 { parts[6] } else { seq![] }))
        }
    } else if parts[0] == "LISTEN"@ {
        if parts.len() < 4 {
            None
        } else {
            Some(("tcp"@, parts[3], if parts.len() > 5 { parts[5] } else { seq![] }))
        }
    } else {
        None
    }
}

/// The process name between the first two `"` of an `ss` process column.
pub open spec fn ss_command(process: Seq<char>) -> Option<Seq<char>> {
    match first_index(process, '"') {
        Some(start) => {
            let rest = process.skip(start + 1);
            match first_index(rest, '"') {
                Some(end) => Some(rest.take(end)),
                None => None,
            }
        },
        None => None,
    }
}

/// The longest prefix of `s` made of ASCII digits.
#[verifier::opaque]
pub open spec fn leading_digits(s: Seq<char>) -> Seq<char>
    decreases s.len(),
{
    if s.len() > 0 && is_digit(s[0]) {
        seq![s[0]] + leading_digits(s.drop_first())
    } else {
        seq![]
    }
}

/// The digits after the first `pid=` of an `ss` process column.
pub open spec fn ss_pid(process: Seq<char>) -> Option<Seq<char>> {
    match first_match(process, "pid="@) {
        Some(start) => {
            let pid = leading_digits(process.skip(start + 4));
            if pid.len() == 0 {
                None
            } else {
                Some(pid)
            }
        },
        None => None,
    }
}

/// An `ss -ltnp` row.
pub open spec fn ss_port(line: Seq<char>) -> Option<PortView> {
    match ss_row_parts(line) {
        Some((proto, local, process)) => {
            let (ip, port) = node_parts(local);
            Some(
                PortView {
                    proto,
                    local_ip: ip,
                    local_port: port,
                    pid: match ss_pid(process) {
                        Some(p) => p,
                        None => "-"@,
                    },
                    command: match ss_command(process) {
                        Some(c) => c,
                        None => "-"@,
                    },
                    user: "-"@,
                },
            )
        },
        None => None,
    }
}

/// An `lsof -iTCP -sTCP:LISTEN` row of at least nine columns.
pub open spec fn lsof_port(line: Seq<char>) -> Option<PortView> {
    let parts = words(line);
    if parts.len() < 9 {
        None
    } else {
        let name = trim(trim_end_str(trim_end_str(parts[8], " (LISTEN)"@), "(LISTEN)"@));
        let (ip, port) = node_parts(name);
        Some(
            PortView {
                proto: to_lowercase_spec(parts[7]),
                local_ip: ip,
                local_port: port,
                pid: parts[1],
                command: parts[0],
                user: parts[2],
            },
        )
    }
}

/// The ports that `row` reads from each of the given lines, in order.
pub open spec fn ports_of_rows(ls: Seq<Seq<char>>, row: spec_fn(Seq<char>) -> Option<PortView>) -> Seq<
    PortView,
>
    decreases ls.len(),
{
    if ls.len() == 0 {
        seq![]
    } else {
        let prev = ports_of_rows(ls.drop_last(), row);
        match row(ls.last()) {
            Some(p) => prev.push(p),
            None => prev,
        }
    }
}

/// What `parse_listening_ports` reads: Windows `netstat` when the output names
/// `Proto` and `PID`, else `ss` when some line is a socket row, else `lsof`
/// after its header line.
pub open spec fn listening_ports_of(input: Seq<char>) -> Seq<PortView> {
    let ls = lines(input);
    if looks_like_windows_netstat(input) {
        ports_of_rows(ls, |l: Seq<char>| windows_port(l))
    } else if exists|i: int| 0 <= i < ls.len() && (#[trigger] ss_row_parts(ls[i])) is Some {
        ports_of_rows(ls, |l: Seq<char>| ss_port(l))
    } else if ls.len() == 0 {
        seq![]
    } else {
        ports_of_rows(ls.skip(1), |l: Seq<char>| lsof_port(l))
    }
}

fn split_node_name(node: &[char]) -> (r: (Vec<char>, Vec<char>))
    ensures
        (r.0@, r.1@) == node_parts(node@),
{
    match rsplit_once_char(node, ':') {
        Some((ip, port)) => {
            let a = trim_start_char_exec(&ip, '[');
            let b = trim_end_char_exec(&a, ']');
            (b, port)
        },
        None => (slice_chars(node, 0, node.len()), chars_of("*")),
    }
}

fn port_entry(
    proto: Vec<char>,
    ip: Vec<char>,
    port: Vec<char>,
    pid: Vec<char>,
    command: Vec<char>,
    user: Vec<char>,
) -> (r: ListeningPort)
    ensures
        r@ == (PortView {
            proto: proto@,
            local_ip: ip@,
            local_port: port@,
            pid: pid@,
            command: command@,
            user: user@,
        }),
{
    ListeningPort {
        proto: string_of(&proto),
        local_ip: string_of(&ip),
        local_port: string_of(&port),
        pid: string_of(&pid),
        command: string_of(&command),
        user: string_of(&user),
    }
}

fn windows_port_of_line(line: &Vec<char>) -> (r: Option<ListeningPort>)
    ensures
        match r {
            Some(p) => windows_port(line@) == Some(p@),
            None => windows_port(line@) is None,
        },
{
    let parts = split_whitespace(line);
    if parts.len() < 5 || !eq_ignore_ascii_case_str(&parts[0], "TCP") {
        return None;
    }
    if !eq_ignore_ascii_case_str(&parts[3], "LISTENING") {
        return None;
    }
    let (ip, port) = split_node_name(&parts[1]);
    let pid = slice_chars(&parts[4], 0, parts[4].len());
    let mut command = chars_of("pid:");
    let mut k: usize = 0;
    while k < pid.len()
        invariant
            k <= pid.len(),
            command@ == "pid:"@ + pid@.take(k as int),
        decreases pid.len() - k,
    {
        command.push(pid[k]);
        assert(pid@.take(k + 1) =~= pid@.take(k as int).push(pid@[k as int]));
        k = k + 1;
    }
    assert(pid@.take(pid.len() as int) =~= pid@);
    assert(parts[4]@.subrange(0, parts[4]@.len() as int) =~= parts[4]@);
    Some(port_entry(chars_of("tcp"), ip, port, pid, command, chars_of("-")))
}

fn ss_row_parts_of(line: &Vec<char>) -> (r: Option<(Vec<char>, Vec<char>, Vec<char>)>)
    ensures
        match r {
            Some((a, b, c)) => ss_row_parts(line@) == Some((a@, b@, c@)),
            None => ss_row_parts(line@) is None,
        },
{
    let parts = split_whitespace(line);
    let ghost ps = views(parts@);
    if parts.len() == 0 {
        return None;
    }
    let first = &parts[0];
    if eq_str(first, "tcp") || eq_str(first, "tcp6") || eq_str(first, "udp") || eq_str(
        first,
        "udp6",
    ) {
        if parts.len() < 5 {
            return None;
        }
        let process = if parts.len() > 6 {
            slice_chars(&parts[6], 0, parts[6].len())
        } else {
            Vec::new()
        };
        assert(parts[6 as int]@.subrange(0, parts[6 as int]@.len() as int) =~= parts[6 as int]@)
            by {}
        return Some(
            (
                slice_chars(first, 0, first.len()),
                slice_chars(&parts[4], 0, parts[4].len()),
                process,
            ),
        );
    }
    if eq_str(first, "LISTEN") {
        if parts.len() < 4 {
            return None;
        }
        let process = if parts.len() > 5 {
            slice_chars(&parts[5], 0, parts[5].len())
        } else {
            Vec::new()
        };
        return Some((chars_of("tcp"), slice_chars(&parts[3], 0, parts[3].len()), process));
    }
    None
}

fn parse_ss_command(process: &Vec<char>) -> (r: Option<Vec<char>>)
    ensures
        match r {
            Some(c) => ss_command(process@) == Some(c@),
            None => ss_command(process@) is None,
        },
{
    let start = find_char(process, '"')?;
    let rest = slice_chars(process, start + 1, process.len());
    assert(rest@ =~= process@.skip(start + 1));
    let end = find_char(&rest, '"')?;
    Some(slice_chars(&rest, 0, end))
}

proof fn lemma_leading_digits_step(s: Seq<char>, i: int)
    requires
        0 <= i < s.len(),
        is_digit(s[i]),
    ensures
        leading_digits(s.skip(i)) == seq![s[i]] + leading_digits(s.skip(i + 1)),
{
    reveal(leading_digits);
    assert(s.skip(i).drop_first() =~= s.skip(i + 1));
}

proof fn lemma_leading_digits_stop(s: Seq<char>, i: int)
    requires
        0 <= i <= s.len(),
        i == s.len() || !is_digit(s[i]),
    ensures
        leading_digits(s.skip(i)) == Seq::<char>::empty(),
{
    reveal(leading_digits);
}

fn digits_from(process: &Vec<char>, start: usize) -> (pid: Vec<char>)
    requires
        start <= process.len(),
    ensures
        pid@ == leading_digits(process@.skip(start as int)),
{
    let mut pid: Vec<char> = Vec::new();
    let mut i = start;
    assert(pid@ + leading_digits(process@.skip(i as int)) =~= leading_digits(
        process@.skip(start as int),
    ));
    while i < process.len() && is_ascii_digit(process[i])
        invariant
            start <= i <= process.len(),
            leading_digits(process@.skip(start as int)) == pid@ + leading_digits(
                process@.skip(i as int),
            ),
        decreases process.len() - i,
    {
        proof {
            lemma_leading_digits_step(process@, i as int);
        }
        let ghost before = pid@;
        pid.push(process[i]);
        assert(before + (seq![process@[i as int]] + leading_digits(process@.skip(i + 1)))
            =~= pid@ + leading_digits(process@.skip(i + 1)));
        i = i + 1;
    }
    proof {
        lemma_leading_digits_stop(process@, i as int);
    }
    assert(pid@ + Seq::<char>::empty() =~= pid@);
    pid
}

fn parse_ss_pid(process: &Vec<char>) -> (r: Option<Vec<char>>)
    ensures
        match r {
            Some(c) => ss_pid(process@) == Some(c@),
            None => ss_pid(process@) is None,
        },
{
    let marker = chars_of("pid=");
    proof {
        reveal_strlit("pid=");
    }
    let start = match find_chars(process, &marker) {
        Some(k) => k + marker.len(),
        None => return None,
    };
    let pid = digits_from(process, start);
    if pid.len() == 0 {
        None
    } else {
        Some(pid)
    }
}

fn ss_port_of_line(line: &Vec<char>) -> (r: Option<ListeningPort>)
    ensures
        match r {
            Some(p) => ss_port(line@) == Some(p@),
            None => ss_port(line@) is None,
        },
{
    let (proto, local, process) = ss_row_parts_of(line)?;
    let (ip, port) = split_node_name(&local);
    let command = match parse_ss_command(&process) {
        Some(c) => c,
        None => chars_of("-"),
    };
    let pid = match parse_ss_pid(&process) {
        Some(p) => p,
        None => chars_of("-"),
    };
    Some(port_entry(proto, ip, port, pid, command, chars_of("-")))
}

fn lsof_port_of_line(line: &Vec<char>) -> (r: Option<ListeningPort>)
    ensures
        match r {
            Some(p) => lsof_port(line@) == Some(p@),
            None => lsof_port(line@) is None,
        },
{
    let parts = split_whitespace(line);
    if parts.len() < 9 {
        return None;
    }
    let a = trim_end_str_exec(&parts[8], " (LISTEN)");
    let b = trim_end_str_exec(&a, "(LISTEN)");
    let name = trim_chars(&b);
    let (ip, port) = split_node_name(&name);
    let proto = lowercase(&parts[7]);
    assert(parts@[0]@.subrange(0, parts@[0]@.len() as int) =~= parts@[0]@);
    assert(parts@[1]@.subrange(0, parts@[1]@.len() as int) =~= parts@[1]@);
    assert(parts@[2]@.subrange(0, parts@[2]@.len() as int) =~= parts@[2]@);
    assert(views(parts@)[0] == parts@[0]@);
    assert(views(parts@)[1] == parts@[1]@);
    assert(views(parts@)[2] == parts@[2]@);
    assert(views(parts@)[7] == parts@[7]@);
    assert(views(parts@)[8] == parts@[8]@);
    Some(
        port_entry(
            proto,
            ip,
            port,
            slice_chars(&parts[1], 0, parts[1].len()),
            slice_chars(&parts[0], 0, parts[0].len()),
            slice_chars(&parts[2], 0, parts[2].len()),
        ),
    )
}

/// Which listing format a line is read as.
enum PortFormat {
    Windows,
    Ss,
    Lsof,
}

spec fn format_row(format: PortFormat, l: Seq<char>) -> Option<PortView> {
    match format {
        PortFormat::Windows => windows_port(l),
        PortFormat::Ss => ss_port(l),
        PortFormat::Lsof => lsof_port(l),
    }
}

fn port_of_line(format: &PortFormat, line: &Vec<char>) -> (r: Option<ListeningPort>)
    ensures
        match r {
            Some(p) => format_row(*format, line@) == Some(p@),
            None => format_row(*format, line@) is None,
        },
{
    match format {
        PortFormat::Windows => windows_port_of_line(line),
        PortFormat::Ss => ss_port_of_line(line),
        PortFormat::Lsof => lsof_port_of_line(line),
    }
}

fn ports_of_lines(format: PortFormat, ls: &Vec<Vec<char>>, first: usize) -> (r: Vec<ListeningPort>)
    requires
        first <= ls.len(),
    ensures
        port_views(r@) == ports_of_rows(
            views(ls@).skip(first as int),
            |l: Seq<char>| format_row(format, l),
        ),
{
    let ghost lv = views(ls@).skip(first as int);
    let ghost row = |l: Seq<char>| format_row(format, l);
    let mut ports: Vec<ListeningPort> = Vec::new();
    for i in first..ls.len()
        invariant
            first <= ls.len(),
            lv == views(ls@).skip(first as int),
            row == (|l: Seq<char>| format_row(format, l)),
            port_views(ports@) == ports_of_rows(lv.take(i - first), row),
    {
        assert(lv.take(i + 1 - first).drop_last() =~= lv.take(i - first));
        assert(lv.take(i + 1 - first).last() == ls@[i as int]@);
        let ghost before = ports@;
        match port_of_line(&format, &ls[i]) {
            Some(p) => {
                ports.push(p);
                assert(port_views(ports@) =~= port_views(before).push(ports@.last()@));
            },
            None => {},
        }
    }
    assert(lv.take(ls.len() - first) =~= lv);
    ports
}

/// Parses listening TCP ports from `lsof`, `ss` or Windows `netstat` output.
pub fn parse_listening_ports(input: &str) -> (r: Vec<ListeningPort>)
    ensures
        port_views(r@) == listening_ports_of(input@),
{
    let chars = chars_of(input);
    let ls = lines_of(&chars);
    let ghost lv = views(ls@);
    assert(lv.skip(0) =~= lv);
    if contains_str(&chars, "Proto") && contains_str(&chars, "PID") {
        let r = ports_of_lines(PortFormat::Windows, &ls, 0);
        assert((|l: Seq<char>| format_row(PortFormat::Windows, l)) =~= (|l: Seq<char>|
            windows_port(l)));
        return r;
    }
    let mut any_ss = false;
    for i in 0..ls.len()
        invariant
            lv == views(ls@),
            any_ss == exists|j: int| 0 <= j < i && (#[trigger] ss_row_parts(lv[j])) is Some,
    {
        assert(lv[i as int] == ls@[i as int]@);
        if ss_row_parts_of(&ls[i]).is_some() {
            any_ss = true;
        }
    }
    if any_ss {
        let r = ports_of_lines(PortFormat::Ss, &ls, 0);
        assert((|l: Seq<char>| format_row(PortFormat::Ss, l)) =~= (|l: Seq<char>| ss_port(l)));
        return r;
    }
    if ls.len() == 0 {
        return Vec::new();
    }
    let r = ports_of_lines(PortFormat::Lsof, &ls, 1);
    assert((|l: Seq<char>| format_row(PortFormat::Lsof, l)) =~= (|l: Seq<char>| lsof_port(l)));
    r
}

} // verus!
