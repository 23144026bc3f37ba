//! The external commands that feed the collectors, and what their captured
//! output means.
//!
//! Running a process is the application's business; this module says which
//! program to run on which operating system and how a finished run turns
//! into the text a parser reads or the error the user sees.
use vstd::prelude::*;

use crate::text::{str_eq, trim_chars, chars_of, trim, concat2, owned, string_views};

verus! {

/// What a finished process left behind.
#[derive(Clone, Debug)]
pub struct CommandResult {
    pub stdout: String,
    pub stderr: String,
    pub exit_code: Option<i32>,
}

/// A command line: how it is shown, the program and its arguments.
#[derive(Clone, Copy, Debug)]
pub struct CommandSpec {
    pub display: &'static str,
    pub program: &'static str,
    pub args: &'static [&'static str],
}

/// The characters of each argument.
pub open spec fn arg_views(args: Seq<&'static str>) -> Seq<Seq<char>> {
    args.map_values(|a: &'static str| a@)
}

impl CommandSpec {
    /// The command line as three character-level values.
    pub open spec fn spec_parts(self) -> (Seq<char>, Seq<char>, Seq<Seq<char>>) {
        (self.display@, self.program@, arg_views(self.args@))
    }
}

pub open spec fn is_linux(os: Seq<char>) -> bool {
    os == "linux"@
}

pub open spec fn is_windows(os: Seq<char>) -> bool {
    os == "windows"@
}

/// The interface listing of `os`: `ip -details -statistics address show` on
/// Linux, `ipconfig /all` on Windows, `ifconfig` elsewhere.
pub open spec fn interface_command(os: Seq<char>) -> (Seq<char>, Seq<char>, Seq<Seq<char>>) {
    if is_linux(os) {
        ("ip -details -statistics address show"@, "ip"@,
            seq!["-details"@, "-statistics"@, "address"@, "show"@])
    } else if is_windows(os) {
        ("ipconfig /all"@, "ipconfig"@, seq!["/all"@])
    } else {
        ("ifconfig"@, "ifconfig"@, Seq::empty())
    }
}

/// The routing table of `os`: `ip route show` on Linux, `route PRINT` on
/// Windows, `netstat -rn` elsewhere.
pub open spec fn route_table_command(os: Seq<char>) -> (Seq<char>, Seq<char>, Seq<Seq<char>>) {
    if is_linux(os) {
        ("ip route show"@, "ip"@, seq!["route"@, "show"@])
    } else if is_windows(os) {
        ("route PRINT"@, "route"@, seq!["PRINT"@])
    } else {
        ("netstat -rn"@, "netstat"@, seq!["-rn"@])
    }
}

/// The default route of `os`: `ip route show default` on Linux,
/// `route PRINT 0.0.0.0` on Windows, `route -n get default` elsewhere.
pub open spec fn default_route_command(os: Seq<char>) -> (Seq<char>, Seq<char>, Seq<Seq<char>>) {
    if is_linux(os) {
        ("ip route show default"@, "ip"@, seq!["route"@, "show"@, "default"@])
    } else if is_windows(os) {
        ("route PRINT 0.0.0.0"@, "route"@, seq!["PRINT"@, "0.0.0.0"@])
    } else {
        ("route -n get default"@, "route"@, seq!["-n"@, "get"@, "default"@])
    }
}

pub fn interface_command_spec_for_os(os: &str) -> (r: CommandSpec)
    ensures
        r.spec_parts() == interface_command(os@),
{
    if str_eq(os, "linux") {
        let args: &'static [&'static str] = &["-details", "-statistics", "address", "show"];
        let r = CommandSpec {
            display: "ip -details -statistics address show",
            program: "ip",
            args,
        };
        assert(arg_views(r.args@) =~= seq!["-details"@, "-statistics"@, "address"@, "show"@]);
        r
    } else if str_eq(os, "windows") {
        let args: &'static [&'static str] = &["/all"];
        let r = CommandSpec { display: "ipconfig /all", program: "ipconfig", args };
        assert(arg_views(r.args@) =~= seq!["/all"@]);
        r
    } else {
        let args: &'static [&'static str] = &[];
        let r = CommandSpec { display: "ifconfig", program: "ifconfig", args };
        assert(arg_views(r.args@) =~= Seq::empty());
        r
    }
}


pub fn route_table_command_spec_for_os(os: &str) -> (r: CommandSpec)
    ensures
        r.spec_parts() == route_table_command(os@),
{
    if str_eq(os, "linux") {
        let args: &'static [&'static str] = &["route", "show"];
        let r = CommandSpec { display: "ip route show", program: "ip", args };
        assert(arg_views(r.args@) =~= seq!["route"@, "show"@]);
        r
    } else if str_eq(os, "windows") {
        let args: &'static [&'static str] = &["PRINT"];
        let r = CommandSpec { display: "route PRINT", program: "route", args };
        assert(arg_views(r.args@) =~= seq!["PRINT"@]);
        r
    } else {
        let args: &'static [&'static str] = &["-rn"];
        let r = CommandSpec { display: "netstat -rn", program: "netstat", args };
        assert(arg_views(r.args@) =~= seq!["-rn"@]);
        r
    }
}

pub fn default_route_command_spec_for_os(os: &str) -> (r: CommandSpec)
    ensures
        r.spec_parts() == default_route_command(os@),
{
    if str_eq(os, "linux") {
        let args: &'static [&'static str] = &["route", "show", "default"];
        let r = CommandSpec { display: "ip route show default", program: "ip", args };
        assert(arg_views(r.args@) =~= seq!["route"@, "show"@, "default"@]);
        r
    } else if str_eq(os, "windows") {
        let args: &'static [&'static str] = &["PRINT", "0.0.0.0"];
        let r = CommandSpec { display: "route PRINT 0.0.0.0", program: "route", args };
        assert(arg_views(r.args@) =~= seq!["PRINT"@, "0.0.0.0"@]);
        r
    } else {
        let args: &'static [&'static str] = &["-n", "get", "default"];
        let r = CommandSpec { display: "route -n get default", program: "route", args };
        assert(arg_views(r.args@) =~= seq!["-n"@, "get"@, "default"@]);
        r
    }
}

/// The listening TCP sockets of `os`: `ss -H -ltnp` on Linux,
/// `netstat -ano -p tcp` on Windows, `lsof -iTCP -sTCP:LISTEN -P -n`
/// elsewhere.
pub open spec fn listening_ports_command(os: Seq<char>) -> (Seq<char>, Seq<char>, Seq<Seq<char>>) {
    if is_linux(os) {
        ("ss -H -ltnp"@, "ss"@, seq!["-H"@, "-ltnp"@])
    } else if is_windows(os) {
        ("netstat -ano -p tcp"@, "netstat"@, seq!["-ano"@, "-p"@, "tcp"@])
    } else {
        ("lsof -iTCP -sTCP:LISTEN -P -n"@, "lsof"@, seq!["-iTCP"@, "-sTCP:LISTEN"@, "-P"@, "-n"@])
    }
}

pub fn listening_ports_command_spec_for_os(os: &str) -> (r: CommandSpec)
    ensures
        r.spec_parts() == listening_ports_command(os@),
{
    if str_eq(os, "linux") {
        let args: &'static [&'static str] = &["-H", "-ltnp"];
        let r = CommandSpec { display: "ss -H -ltnp", program: "ss", args };
        assert(arg_views(r.args@) =~= seq!["-H"@, "-ltnp"@]);
        r
    } else if str_eq(os, "windows") {
        let args: &'static [&'static str] = &["-ano", "-p", "tcp"];
        let r = CommandSpec { display: "netstat -ano -p tcp", program: "netstat", args };
        assert(arg_views(r.args@) =~= seq!["-ano"@, "-p"@, "tcp"@]);
        r
    } else {
        let args: &'static [&'static str] = &["-iTCP", "-sTCP:LISTEN", "-P", "-n"];
        let r = CommandSpec { display: "lsof -iTCP -sTCP:LISTEN -P -n", program: "lsof", args };
        assert(arg_views(r.args@) =~= seq!["-iTCP"@, "-sTCP:LISTEN"@, "-P"@, "-n"@]);
        r
    }
}

/// A run succeeded when its exit code is zero.
pub open spec fn exited_cleanly(output: CommandResult) -> bool {
    output.exit_code == Some(0i32)
}

/// What a capture gives the caller: the standard output of a clean run,
/// the standard error of any other.
pub fn command_output(output: CommandResult) -> (r: Result<String, String>)
    ensures
        exited_cleanly(output) ==> (r matches Ok(s) && s@ == output.stdout@),
        !exited_cleanly(output) ==> (r matches Err(e) && e@ == output.stderr@),
{
    if output.exit_code == Some(0i32) {
        Ok(output.stdout)
    } else {
        Err(output.stderr)
    }
}

/// `lsof` exits non-zero when nothing listens; a failed run with a blank
/// error stream therefore means "no listening sockets", not a failure.
pub fn listening_output(output: CommandResult) -> (r: Result<String, String>)
    ensures
        exited_cleanly(output) ==> (r matches Ok(s) && s@ == output.stdout@),
        !exited_cleanly(output) && trim(output.stderr@).len() == 0 ==> (r matches Ok(s) && s@.len() == 0),
        !exited_cleanly(output) && trim(output.stderr@).len() > 0 ==> (r matches Err(e) && e@ == output.stderr@),
{
    if output.exit_code == Some(0i32) {
        Ok(output.stdout)
    } else {
        let err = chars_of(output.stderr.as_str());
        let trimmed = trim_chars(&err);
        if trimmed.len() == 0 {
            Ok(String::new())
        } else {
            Err(output.stderr)
        }
    }
}

/// `whois` may exit non-zero after printing a usable record; that record is
/// kept, and only a run that printed nothing reports its error stream.
pub fn whois_output(output: CommandResult) -> (r: Result<String, String>)
    ensures
        exited_cleanly(output) ==> (r matches Ok(s) && s@ == output.stdout@),
        !exited_cleanly(output) && trim(output.stdout@).len() > 0 ==> (r matches Ok(s) && s@ == output.stdout@),
        !exited_cleanly(output) && trim(output.stdout@).len() == 0 ==> (r matches Err(e) && e@ == output.stderr@),
{
    if output.exit_code == Some(0i32) {
        Ok(output.stdout)
    } else {
        let out = chars_of(output.stdout.as_str());
        let trimmed = trim_chars(&out);
        if trimmed.len() > 0 {
            Ok(output.stdout)
        } else {
            Err(output.stderr)
        }
    }
}

/// `kill` reports nothing on success and its trimmed error stream otherwise.
pub fn kill_output(output: CommandResult) -> (r: Result<(), String>)
    ensures
        exited_cleanly(output) ==> r is Ok,
        !exited_cleanly(output) ==> (r matches Err(e) && e@ == trim(output.stderr@)),
{
    if output.exit_code == Some(0i32) {
        Ok(())
    } else {
        let err = chars_of(output.stderr.as_str());
        let trimmed = trim_chars(&err);
        Err(crate::text::string_of(&trimmed))
    }
}

/// The output of a clean run; otherwise its error stream, or, when that is
/// blank, the exit status.
pub fn command_stdout(output: &CommandResult) -> (r: Result<String, String>)
    ensures
        exited_cleanly(*output) ==> (r matches Ok(s) && s@ == output.stdout@),
        !exited_cleanly(*output) && trim(output.stderr@).len() == 0 ==> (r matches Err(e) && e@
            == "command exited with "@ + crate::text::debug_exit_code(output.exit_code)),
        !exited_cleanly(*output) && trim(output.stderr@).len() > 0 ==> (r matches Err(e) && e@
            == output.stderr@),
{
    if output.exit_code == Some(0i32) {
        Ok(output.stdout.clone())
    } else {
        let err = chars_of(output.stderr.as_str());
        let trimmed = trim_chars(&err);
        if trimmed.len() == 0 {
            let code = crate::text::debug_exit_code_string(output.exit_code);
            Err(crate::text::concat2("command exited with ", code.as_str()))
        } else {
            Err(output.stderr.clone())
        }
    }
}

// ---------------------------------------------------------------------------
// Command lines with arguments from the user
// ---------------------------------------------------------------------------
/// A command line whose parts are owned, for arguments that come from the
/// user.
#[derive(Clone, Debug)]
pub struct OwnedCommandSpec {
    pub display: String,
    pub program: String,
    pub args: Vec<String>,
}

impl OwnedCommandSpec {
    /// The command line as three character-level values.
    pub open spec fn spec_parts(self) -> (Seq<char>, Seq<char>, Seq<Seq<char>>) {
        (self.display@, self.program@, string_views(self.args@))
    }
}

/// The route to one destination: `ip route get` on Linux, `route PRINT` on
/// Windows, `route -n get` elsewhere.
pub open spec fn route_path_command(os: Seq<char>, destination: Seq<char>) -> (
    Seq<char>,
    Seq<char>,
    Seq<Seq<char>>,
) {
    if is_linux(os) {
        ("ip route get "@ + destination, "ip"@, seq!["route"@, "get"@, destination])
    } else if is_windows(os) {
        ("route PRINT "@ + destination, "route"@, seq!["PRINT"@, destination])
    } else {
        ("route -n get "@ + destination, "route"@, seq!["-n"@, "get"@, destination])
    }
}

pub fn route_path_command_spec_for_os(os: &str, destination: &str) -> (r: OwnedCommandSpec)
    ensures
        r.spec_parts() == route_path_command(os@, destination@),
{
    let r = if str_eq(os, "linux") {
        OwnedCommandSpec {
            display: concat2("ip route get ", destination),
            program: owned("ip"),
            args: vec![owned("route"), owned("get"), owned(destination)],
        }
    } else if str_eq(os, "windows") {
        OwnedCommandSpec {
            display: concat2("route PRINT ", destination),
            program: owned("route"),
            args: vec![owned("PRINT"), owned(destination)],
        }
    } else {
        OwnedCommandSpec {
            display: concat2("route -n get ", destination),
            program: owned("route"),
            args: vec![owned("-n"), owned("get"), owned(destination)],
        }
    };
    assert(string_views(r.args@) =~= route_path_command(os@, destination@).2);
    r
}

/// The IPv6 routing table, which only Linux lists apart: `ip -6 route show`.
pub fn ipv6_route_table_command_spec_for_os(os: &str) -> (r: Option<OwnedCommandSpec>)
    ensures
        is_linux(os@) ==> (r matches Some(c) && c.spec_parts() == (
            "ip -6 route show"@,
            "ip"@,
            seq!["-6"@, "route"@, "show"@],
        )),
        !is_linux(os@) ==> r is None,
{
    if str_eq(os, "linux") {
        let c = OwnedCommandSpec {
            display: owned("ip -6 route show"),
            program: owned("ip"),
            args: vec![owned("-6"), owned("route"), owned("show")],
        };
        assert(string_views(c.args@) =~= seq!["-6"@, "route"@, "show"@]);
        Some(c)
    } else {
        None
    }
}

/// The routing policy rules, on Linux only: `ip rule`.
pub fn ip_rule_command_spec_for_os(os: &str) -> (r: Option<OwnedCommandSpec>)
    ensures
        is_linux(os@) ==> (r matches Some(c) && c.spec_parts() == ("ip rule"@, "ip"@, seq!["rule"@])),
        !is_linux(os@) ==> r is None,
{
    if str_eq(os, "linux") {
        let c = OwnedCommandSpec { display: owned("ip rule"), program: owned("ip"), args: vec![owned("rule")] };
        assert(string_views(c.args@) =~= seq!["rule"@]);
        Some(c)
    } else {
        None
    }
}

} // verus!
