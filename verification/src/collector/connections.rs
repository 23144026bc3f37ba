//! Active connections from `netstat -an` output, whose endpoints are
//! written `address.port` (BSD style, `*.*` for an unbound endpoint).
use vstd::prelude::*;

use crate::model::{ActiveConnection, ConnectionView, connection_views};
use crate::text::{
    lines, lines_of, owned, rsplit_once, rsplit_once_char, split_whitespace, starts_with,
    starts_with_str, string_of, views, words,
};

verus! {

/// An endpoint split at its last dot into address and port; without a dot
/// the whole text is the address and the port is `*`.
pub open spec fn endpoint(s: Seq<char>) -> (Seq<char>, Seq<char>) {
    match rsplit_once(s, '.') {
        Some((a, p)) => (a, p),
        None => (s, "*"@),
    }
}

/// A connection row: a `tcp…` or `udp…` protocol followed by the two queue
/// sizes, the local and the foreign endpoint, and possibly the state.
pub open spec fn is_connection_row(ws: Seq<Seq<char>>) -> bool {
    ws.len() >= 5 && (starts_with(ws[0], "tcp"@) || starts_with(ws[0], "udp"@))
}

pub open spec fn connection_of(ws: Seq<Seq<char>>) -> ConnectionView {
    ConnectionView {
        proto: ws[0],
        local_ip: endpoint(ws[3]).0,
        local_port: endpoint(ws[3]).1,
        foreign_ip: endpoint(ws[4]).0,
        foreign_port: endpoint(ws[4]).1,
        state: if ws.len() > 5 {
            Some(ws[5])
        } else {
            None
        },
    }
}

/// The connections of the rows among `ls`, in order.
pub open spec fn connections_of(ls: Seq<Seq<char>>) -> Seq<ConnectionView>
    decreases ls.len(),
{
    if ls.len() == 0 {
        Seq::empty()
    } else {
        let prev = connections_of(ls.drop_last());
        let ws = words(ls.last());
        if is_connection_row(ws) {
            prev.push(connection_of(ws))
        } else {
            prev
        }
    }
}

fn endpoint_exec(s: &Vec<char>) -> (r: (String, String))
    ensures
        (r.0@, r.1@) == endpoint(s@),
{
    match rsplit_once_char(s, '.') {
        Some((a, p)) => (string_of(&a), string_of(&p)),
        None => (string_of(s), owned("*")),
    }
}

fn connection_of_line(line: &Vec<char>) -> (r: Option<ActiveConnection>)
    ensures
        match r {
            Some(c) => is_connection_row(words(line@)) && c@ == connection_of(words(line@)),
            None => !is_connection_row(words(line@)),
        },
{
    let ws = split_whitespace(line);
    proof {
        assert(views(ws@) == words(line@));
    }
    if ws.len() < 5 {
        return None;
    }
    assert(forall|k: int| 0 <= k < ws@.len() ==> views(ws@)[k] == ws@[k]@);
    if !(starts_with_str(&ws[0], "tcp") || starts_with_str(&ws[0], "udp")) {
        return None;
    }
    let (local_ip, local_port) = endpoint_exec(&ws[3]);
    let (foreign_ip, foreign_port) = endpoint_exec(&ws[4]);
    let state = if ws.len() > 5 {
        Some(string_of(&ws[5]))
    } else {
        None
    };
    Some(ActiveConnection {
        proto: string_of(&ws[0]),
        local_ip,
        local_port,
        foreign_ip,
        foreign_port,
        state,
    })
}

/// The active connections listed in `netstat -an` output.
pub fn parse_connections(input: &str) -> (r: Vec<ActiveConnection>)
    ensures
        connection_views(r@) == connections_of(lines(input@)),
{
    let chars = crate::text::chars_of(input);
    let ls = lines_of(&chars);
    let ghost lv = views(ls@);
    let mut r: Vec<ActiveConnection> = Vec::new();
    for k in 0..ls.len()
        invariant
            lv == views(ls@),
            lv == lines(input@),
            connection_views(r@) == connections_of(lv.take(k as int)),
    {
        assert(lv.take(k + 1).drop_last() =~= lv.take(k as int));
        assert(lv.take(k + 1).last() == ls@[k as int]@);
        let ghost before = connection_views(r@);
        if let Some(c) = connection_of_line(&ls[k]) {
            r.push(c);
            assert(connection_views(r@) =~= before.push(c@));
        }
    }
    assert(lv.take(ls.len() as int) =~= lv);
    r
}

} // verus!
