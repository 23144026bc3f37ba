//! `whois` and its RDAP fallback: ownership records of a domain or an
//! address, reduced to a few labelled lines.
use vstd::prelude::*;

use crate::text::{
    join, chars_of, concat2, debug_exit_code, debug_exit_code_string, lines, lines_of, owned,
    push_chars, push_str, slice_chars, starts_with, starts_with_chars, str_to_lowercase,
    string_of, string_views, to_lowercase_spec, trim, trim_chars, views,
};
use crate::tools::ping::{raw_transcript, transcript};
use crate::tools::{
    ResultView, SectionView, ToolCommandSpec, ToolCommandView, ToolResult, ToolResultSection,
    is_ip_text, lemma_section_views_push, section_views,
};

verus! {

/// `whois <target>`.
pub open spec fn whois_command(target: Seq<char>) -> ToolCommandView {
    ToolCommandView { display: "whois "@ + target, program: "whois"@, args: seq![target] }
}

pub fn command_spec(target: &str) -> (r: ToolCommandSpec)
    ensures
        r@ == whois_command(target@),
{
    let r = ToolCommandSpec {
        display: concat2("whois ", target),
        program: owned("whois"),
        args: vec![owned(target)],
    };
    assert(r@.args =~= seq![target@]);
    r
}

/// Windows has no `whois` command: there a lookup asks RDAP over HTTPS
/// directly, while elsewhere the local `whois` runs first and RDAP is the
/// fallback.
pub fn uses_rdap_directly(os: &str) -> (r: bool)
    ensures
        r == (os@ == "windows"@),
{
    crate::text::str_eq(os, "windows")
}

/// The RDAP query of a target: `https://rdap.org/ip/...` for an address,
/// `https://rdap.org/domain/...` otherwise, fetched with `curl`.
pub open spec fn rdap_command(target: Seq<char>) -> ToolCommandView {
    let kind = if is_ip_text(target) {
        "ip"@
    } else {
        "domain"@
    };
    let url = "https://rdap.org/"@ + kind + "/"@ + target;
    ToolCommandView {
        display: "curl -sS -L -m 10 "@ + url,
        program: "curl"@,
        args: seq!["-sS"@, "-L"@, "-m"@, "10"@, url],
    }
}

pub fn rdap_command_spec(target: &str) -> (r: ToolCommandSpec)
    ensures
        r@ == rdap_command(target@),
{
    let t = chars_of(target);
    let ip = crate::net::parse_ipv4_chars(&t).is_some() || crate::net::parse_ipv6_chars(
        &t,
    ).is_some();
    let kind = if ip {
        "ip"
    } else {
        "domain"
    };
    let mut url = owned("https://rdap.org/");
    push_str(&mut url, kind);
    push_str(&mut url, "/");
    push_str(&mut url, target);
    let display = concat2("curl -sS -L -m 10 ", url.as_str());
    let r = ToolCommandSpec {
        display,
        program: owned("curl"),
        args: vec![owned("-sS"), owned("-L"), owned("-m"), owned("10"), url],
    };
    assert(r@.args =~= rdap_command(target@).args);
    r
}

// ---------------------------------------------------------------------------
// Named fields of whois output
// ---------------------------------------------------------------------------
/// `s` without its first `n` characters; empty when it is shorter.
pub open spec fn rest_after(s: Seq<char>, n: int) -> Seq<char> {
    if n <= s.len() {
        s.skip(n)
    } else {
        Seq::empty()
    }
}

/// The value of `name:` or `name=` at the start of a line, compared
/// without regard to case: the trimmed rest of the trimmed line.
pub open spec fn named_field(line: Seq<char>, name: Seq<char>) -> Option<Seq<char>> {
    let trimmed = trim(line);
    let lower = to_lowercase_spec(trimmed);
    let name_lower = to_lowercase_spec(name);
    if starts_with(lower, name_lower.push(':')) || starts_with(lower, name_lower.push('=')) {
        Some(trim(rest_after(trimmed, name.len() + 1int)))
    } else {
        None
    }
}

/// The value the first of `names` that matches the line gives it.
pub open spec fn first_named(line: Seq<char>, names: Seq<Seq<char>>) -> Option<Seq<char>>
    decreases names.len(),
{
    if names.len() == 0 {
        None
    } else {
        match named_field(line, names[0]) {
            Some(v) => Some(v),
            None => first_named(line, names.drop_first()),
        }
    }
}

/// The first line, in order, whose first matching name gives a non-empty
/// value; that value.
pub open spec fn first_field_value(ls: Seq<Seq<char>>, names: Seq<Seq<char>>) -> Option<Seq<char>>
    decreases ls.len(),
{
    if ls.len() == 0 {
        None
    } else {
        match first_named(ls[0], names) {
            Some(v) => if v.len() > 0 {
                Some(v)
            } else {
                first_field_value(ls.drop_first(), names)
            },
            None => first_field_value(ls.drop_first(), names),
        }
    }
}

/// Every non-empty value of any of `names`, line by line and name by name,
/// each kept once, in the order first seen.
pub open spec fn collect_values(
    found: Seq<Seq<char>>,
    ls: Seq<Seq<char>>,
    names: Seq<Seq<char>>,
) -> Seq<Seq<char>>
    decreases ls.len(),
{
    if ls.len() == 0 {
        found
    } else {
        collect_values(line_values(found, ls[0], names), ls.drop_first(), names)
    }
}

pub open spec fn line_values(found: Seq<Seq<char>>, line: Seq<char>, names: Seq<Seq<char>>) -> Seq<
    Seq<char>,
>
    decreases names.len(),
{
    if names.len() == 0 {
        found
    } else {
        let next = match named_field(line, names[0]) {
            Some(v) => if v.len() > 0 && !found.contains(v) {
                found.push(v)
            } else {
                found
            },
            None => found,
        };
        line_values(next, line, names.drop_first())
    }
}

fn extract_named_field(line: &[char], name: &str) -> (r: Option<Vec<char>>)
    ensures
        match r {
            Some(v) => named_field(line@, name@) == Some(v@),
            None => named_field(line@, name@) is None,
        },
{
    let trimmed = trim_chars(line);
    let trimmed_text = string_of(&trimmed);
    let lower_text = str_to_lowercase(trimmed_text.as_str());
    let lower = chars_of(lower_text.as_str());
    let name_lower_text = str_to_lowercase(name);
    let mut colon = chars_of(name_lower_text.as_str());
    let mut equals = chars_of(name_lower_text.as_str());
    colon.push(':');
    equals.push('=');
    let name_len = chars_of(name).len();
    if starts_with_chars(&lower, &colon) || starts_with_chars(&lower, &equals) {
        if name_len < trimmed.len() {
            let rest = slice_chars(&trimmed, name_len + 1, trimmed.len());
            assert(rest@ =~= rest_after(trimmed@, name@.len() + 1int));
            Some(trim_chars(&rest))
        } else {
            let rest: Vec<char> = Vec::new();
            assert(rest@ =~= rest_after(trimmed@, name@.len() + 1int));
            Some(trim_chars(&rest))
        }
    } else {
        None
    }
}

pub open spec fn str_seq(names: Seq<&str>) -> Seq<Seq<char>> {
    names.map_values(|n: &str| n@)
}

fn first_named_exec(line: &[char], names: &[&str]) -> (r: Option<Vec<char>>)
    ensures
        match r {
            Some(v) => first_named(line@, str_seq(names@)) == Some(v@),
            None => first_named(line@, str_seq(names@)) is None,
        },
{
    let ghost ns = str_seq(names@);
    assert(ns.skip(0) =~= ns);
    for i in 0..names.len()
        invariant
            ns == str_seq(names@),
            first_named(line@, ns) == first_named(line@, ns.skip(i as int)),
    {
        assert(ns.skip(i as int)[0] == names@[i as int]@);
        assert(ns.skip(i as int).drop_first() =~= ns.skip(i + 1));
        match extract_named_field(line, names[i]) {
            Some(v) => {
                return Some(v);
            },
            None => {},
        }
    }
    assert(ns.skip(names.len() as int) =~= Seq::<Seq<char>>::empty());
    None
}

/// The first non-empty value of any of `names`, scanning line by line.
pub fn first_field(text: &str, names: &[&str]) -> (r: Option<String>)
    ensures
        match r {
            Some(v) => first_field_value(lines(text@), str_seq(names@)) == Some(v@),
            None => first_field_value(lines(text@), str_seq(names@)) is None,
        },
{
    let t = chars_of(text);
    let ls = lines_of(&t);
    let ghost lv = views(ls@);
    let ghost ns = str_seq(names@);
    assert(lv.skip(0) =~= lv);
    for i in 0..ls.len()
        invariant
            lv == views(ls@),
            lv == lines(text@),
            ns == str_seq(names@),
            first_field_value(lv, ns) == first_field_value(lv.skip(i as int), ns),
    {
        assert(lv.skip(i as int)[0] == ls@[i as int]@);
        assert(lv.skip(i as int).drop_first() =~= lv.skip(i + 1));
        match first_named_exec(&ls[i], names) {
            Some(v) => {
                if v.len() > 0 {
                    assert(lv.skip(i as int).len() > 0);
                    assert(first_field_value(lv.skip(i as int), ns) == Some(v@));
                    return Some(string_of(&v));
                }
            },
            None => {},
        }
    }
    assert(lv.skip(ls.len() as int) =~= Seq::<Seq<char>>::empty());
    None
}

fn contains_string(values: &Vec<String>, v: &[char]) -> (r: bool)
    ensures
        r == string_views(values@).contains(v@),
{
    for i in 0..values.len()
        invariant
            forall|j: int| 0 <= j < i ==> values@[j]@ != v@,
    {
        if crate::text::eq_str(v, values[i].as_str()) {
            assert(string_views(values@)[i as int] == v@);
            return true;
        }
    }
    assert(!string_views(values@).contains(v@)) by {
        if string_views(values@).contains(v@) {
            let k = choose|k: int| 0 <= k < string_views(values@).len() && string_views(values@)[k] == v@;
            assert(values@[k]@ == v@);
        }
    }
    false
}

/// Every distinct non-empty value of any of `names`.
pub fn collect_fields(text: &str, names: &[&str]) -> (r: Vec<String>)
    ensures
        string_views(r@) == collect_values(Seq::empty(), lines(text@), str_seq(names@)),
{
    let t = chars_of(text);
    let ls = lines_of(&t);
    let ghost lv = views(ls@);
    let ghost ns = str_seq(names@);
    let mut values: Vec<String> = Vec::new();
    assert(lv.skip(0) =~= lv);
    assert(string_views(values@) =~= Seq::<Seq<char>>::empty());
    for i in 0..ls.len()
        invariant
            lv == views(ls@),
            ns == str_seq(names@),
            collect_values(Seq::empty(), lv, ns) == collect_values(
                string_views(values@),
                lv.skip(i as int),
                ns,
            ),
    {
        assert(lv.skip(i as int)[0] == ls@[i as int]@);
        assert(lv.skip(i as int).drop_first() =~= lv.skip(i + 1));
        let ghost at_line = string_views(values@);
        assert(ns.skip(0) =~= ns);
        for j in 0..names.len()
            invariant
                i < ls.len(),
                lv == views(ls@),
                ns == str_seq(names@),
                line_values(at_line, ls@[i as int]@, ns) == line_values(
                    string_views(values@),
                    ls@[i as int]@,
                    ns.skip(j as int),
                ),
        {
            assert(ns.skip(j as int)[0] == names@[j as int]@);
            assert(ns.skip(j as int).drop_first() =~= ns.skip(j + 1));
            match extract_named_field(&ls[i], names[j]) {
                Some(v) => {
                    if v.len() > 0 && !contains_string(&values, &v) {
                        let ghost before = values@;
                        let s = string_of(&v);
                        values.push(s);
                        proof {
                            crate::text::lemma_string_views_push(before, s);
                        }
                    }
                },
                None => {},
            }
        }
        assert(ns.skip(names.len() as int) =~= Seq::<Seq<char>>::empty());
    }
    assert(lv.skip(ls.len() as int) =~= Seq::<Seq<char>>::empty());
    values
}

// ---------------------------------------------------------------------------
// The whois summary
// ---------------------------------------------------------------------------
pub open spec fn registrar_names() -> Seq<Seq<char>> {
    seq!["Registrar"@, "registrar"@]
}

pub open spec fn organization_names() -> Seq<Seq<char>> {
    seq!["OrgName"@, "org-name"@, "org"@, "Organization"@, "Registrant Organization"@, "owner"@]
}

pub open spec fn country_names() -> Seq<Seq<char>> {
    seq!["Country"@, "Registrant Country"@, "country"@]
}

pub open spec fn created_names() -> Seq<Seq<char>> {
    seq!["Creation Date"@, "Created On"@, "created"@, "Registration Time"@]
}

pub open spec fn updated_names() -> Seq<Seq<char>> {
    seq!["Updated Date"@, "Last Updated On"@, "updated"@]
}

pub open spec fn expiry_names() -> Seq<Seq<char>> {
    seq![
        "Registry Expiry Date"@,
        "Registrar Registration Expiration Date"@,
        "Expiry Date"@,
        "paid-till"@,
        "expires"@,
    ]
}

pub open spec fn name_server_names() -> Seq<Seq<char>> {
    seq!["Name Server"@, "nserver"@, "Name Servers"@]
}

/// `prefix` and the value, when there is one.
pub open spec fn labelled(prefix: Seq<char>, value: Option<Seq<char>>) -> Seq<Seq<char>> {
    match value {
        Some(v) => seq![prefix + v],
        None => Seq::empty(),
    }
}

/// A section, only when it has lines.
pub open spec fn nonempty_section(label: Seq<char>, lines: Seq<Seq<char>>) -> Seq<SectionView> {
    if lines.len() > 0 {
        seq![SectionView { label, lines }]
    } else {
        Seq::empty()
    }
}

pub open spec fn whois_summary(
    target: Seq<char>,
    ls: Seq<Seq<char>>,
    code: Option<i32>,
) -> Seq<Seq<char>> {
    let status = if code == Some(0i32) {
        "Status: Lookup completed"@
    } else {
        "Status: Command exited with status "@ + debug_exit_code(code)
    };
    seq!["Target: "@ + target, status] + labelled(
        "Registrar: "@,
        first_field_value(ls, registrar_names()),
    ) + labelled("Organization: "@, first_field_value(ls, organization_names())) + labelled(
        "Country: "@,
        first_field_value(ls, country_names()),
    )
}

pub open spec fn whois_dates(ls: Seq<Seq<char>>) -> Seq<Seq<char>> {
    labelled("Created: "@, first_field_value(ls, created_names())) + labelled(
        "Updated: "@,
        first_field_value(ls, updated_names()),
    ) + labelled("Expires: "@, first_field_value(ls, expiry_names()))
}

proof fn lemma_prefixed_differ(p: Seq<char>, w: Seq<char>, q: Seq<char>, v: Seq<char>)
    requires
        p.len() > 0,
        q.len() > 0,
        p[0] != q[0],
    ensures
        p + w != q + v,
{
    assert((p + w)[0] == p[0]);
    assert((q + v)[0] == q[0]);
}

proof fn lemma_prefixed_same(p: Seq<char>, w: Seq<char>, v: Seq<char>)
    ensures
        p + w == p + v ==> w == v,
{
    if p + w == p + v {
        assert(w =~= (p + w).skip(p.len() as int));
        assert(v =~= (p + v).skip(p.len() as int));
    }
}

/// The summary of a whois record names the registrar, the organisation and
/// the country by the first value of their fields (`Registrar`; `OrgName`,
/// `org-name`, `org`, `Organization`, `Registrant Organization`, `owner`;
/// `Country`, `Registrant Country`, `country`), each line there exactly when
/// such a value is.
pub proof fn lemma_whois_summary_lines(target: Seq<char>, ls: Seq<Seq<char>>, code: Option<i32>, v: Seq<char>)
    ensures
        whois_summary(target, ls, code).contains("Registrar: "@ + v) <==> first_field_value(
            ls,
            seq!["Registrar"@, "registrar"@],
        ) == Some(v),
        whois_summary(target, ls, code).contains("Organization: "@ + v) <==> first_field_value(
            ls,
            seq!["OrgName"@, "org-name"@, "org"@, "Organization"@, "Registrant Organization"@, "owner"@],
        ) == Some(v),
        whois_summary(target, ls, code).contains("Country: "@ + v) <==> first_field_value(
            ls,
            seq!["Country"@, "Registrant Country"@, "country"@],
        ) == Some(v),
{
    reveal_strlit("Registrar: ");
    reveal_strlit("Organization: ");
    reveal_strlit("Country: ");
    reveal_strlit("Target: ");
    reveal_strlit("Status: Lookup completed");
    reveal_strlit("Status: Command exited with status ");
    let status = if code == Some(0i32) {
        "Status: Lookup completed"@
    } else {
        "Status: Command exited with status "@ + debug_exit_code(code)
    };
    let h = seq!["Target: "@ + target, status];
    let r = labelled("Registrar: "@, first_field_value(ls, registrar_names()));
    let o = labelled("Organization: "@, first_field_value(ls, organization_names()));
    let c = labelled("Country: "@, first_field_value(ls, country_names()));
    let sm = whois_summary(target, ls, code);
    assert(sm == h + r + o + c);
    lemma_prefixed_same("Registrar: "@, first_field_value(ls, registrar_names()).unwrap_or(Seq::empty()), v);
    lemma_prefixed_same("Organization: "@, first_field_value(ls, organization_names()).unwrap_or(Seq::empty()), v);
    lemma_prefixed_same("Country: "@, first_field_value(ls, country_names()).unwrap_or(Seq::empty()), v);
    let st_rest = if code == Some(0i32) {
        "Lookup completed"@
    } else {
        "Command exited with status "@ + debug_exit_code(code)
    };
    reveal_strlit("Status: ");
    reveal_strlit("Lookup completed");
    reveal_strlit("Command exited with status ");
    assert(status =~= "Status: "@ + st_rest);
    let pr = seq!["Registrar: "@, "Organization: "@, "Country: "@];
    assert forall|i: int| 0 <= i < 3 implies pr[i] + v != "Target: "@ + target && pr[i] + v != "Status: "@
        + st_rest by {
        lemma_prefixed_differ(pr[i], v, "Target: "@, target);
        lemma_prefixed_differ(pr[i], v, "Status: "@, st_rest);
    }
    assert forall|i: int, j: int, w: Seq<char>| 0 <= i < 3 && 0 <= j < 3 && i != j implies pr[i] + v != pr[j] + w by {
        lemma_prefixed_differ(pr[i], v, pr[j], w);
    }
    assert(pr[0] == "Registrar: "@ && pr[1] == "Organization: "@ && pr[2] == "Country: "@);
    assert forall|k: int| 0 <= k < sm.len() implies (sm[k] == "Registrar: "@ + v ==> r.contains(sm[k]))
        && (sm[k] == "Organization: "@ + v ==> o.contains(sm[k])) && (sm[k] == "Country: "@ + v ==> c.contains(
        sm[k],
    )) by {
        if k < 2 {
            assert(sm[k] == h[k]);
        } else if k < 2 + r.len() {
            assert(sm[k] == r[k - 2]);
            assert(r.contains(sm[k]));
        } else if k < 2 + r.len() + o.len() {
            assert(sm[k] == o[k - 2 - r.len()]);
            assert(o.contains(sm[k]));
        } else {
            assert(sm[k] == c[k - 2 - r.len() - o.len()]);
            assert(c.contains(sm[k]));
        }
    }
    if first_field_value(ls, registrar_names()) == Some(v) {
        assert(sm[2] == "Registrar: "@ + v);
    }
    if first_field_value(ls, organization_names()) == Some(v) {
        assert(sm[(2 + r.len()) as int] == "Organization: "@ + v);
    }
    if first_field_value(ls, country_names()) == Some(v) {
        assert(sm[(2 + r.len() + o.len()) as int] == "Country: "@ + v);
    }
}

/// In the dates of a whois record the `Created:` line carries the first
/// value of a creation field (`Creation Date`, `Created On`, `created`,
/// `Registration Time`), the `Updated:` line the first
/// value of an update field (`Updated Date`, `Last Updated On`, `updated`)
/// and the `Expires:` line the first value of an expiry field (`Registry
/// Expiry Date`, `Registrar Registration Expiration Date`, `Expiry Date`,
/// `paid-till`, `expires`); each line is there exactly when such a value is.
pub proof fn lemma_whois_dates_lines(ls: Seq<Seq<char>>, v: Seq<char>)
    ensures
        whois_dates(ls).contains("Created: "@ + v) <==> first_field_value(
            ls,
            seq!["Creation Date"@, "Created On"@, "created"@, "Registration Time"@],
        ) == Some(v),
        whois_dates(ls).contains("Updated: "@ + v) <==> first_field_value(
            ls,
            seq!["Updated Date"@, "Last Updated On"@, "updated"@],
        ) == Some(v),
        whois_dates(ls).contains("Expires: "@ + v) <==> first_field_value(
            ls,
            seq![
                "Registry Expiry Date"@,
                "Registrar Registration Expiration Date"@,
                "Expiry Date"@,
                "paid-till"@,
                "expires"@,
            ],
        ) == Some(v),
{
    reveal_strlit("Created: ");
    reveal_strlit("Updated: ");
    reveal_strlit("Expires: ");
    let c = labelled("Created: "@, first_field_value(ls, created_names()));
    let u = labelled("Updated: "@, first_field_value(ls, updated_names()));
    let e = labelled("Expires: "@, first_field_value(ls, expiry_names()));
    let d = whois_dates(ls);
    assert(d == c + u + e);
    assert forall|p: Seq<char>, q: Seq<char>, w: Seq<char>|
        p.len() == 9 && q.len() == 9 && p[0] != q[0] implies p + w != q + v by {
        assert((p + w)[0] == p[0]);
        assert((q + v)[0] == q[0]);
    }
    assert forall|w: Seq<char>| #![auto] "Updated: "@ + w == "Updated: "@ + v implies w == v by {
        assert(w =~= ("Updated: "@ + w).skip(9));
        assert(v =~= ("Updated: "@ + v).skip(9));
    }
    assert forall|w: Seq<char>| #![auto] "Expires: "@ + w == "Expires: "@ + v implies w == v by {
        assert(w =~= ("Expires: "@ + w).skip(9));
        assert(v =~= ("Expires: "@ + v).skip(9));
    }
    assert forall|w: Seq<char>| #![auto] "Created: "@ + w == "Created: "@ + v implies w == v by {
        assert(w =~= ("Created: "@ + w).skip(9));
        assert(v =~= ("Created: "@ + v).skip(9));
    }
    if d.contains("Created: "@ + v) {
        let i = choose|i: int| 0 <= i < d.len() && d[i] == "Created: "@ + v;
        if i < c.len() {
            assert(d[i] == c[i]);
        } else if i < c.len() + u.len() {
            assert(d[i] == u[i - c.len()]);
        } else {
            assert(d[i] == e[i - c.len() - u.len()]);
        }
    }
    if first_field_value(ls, created_names()) == Some(v) {
        assert(d[0] == "Created: "@ + v);
    }
    if d.contains("Updated: "@ + v) {
        let i = choose|i: int| 0 <= i < d.len() && d[i] == "Updated: "@ + v;
        if i < c.len() {
            assert(d[i] == c[i]);
        } else if i < c.len() + u.len() {
            assert(d[i] == u[i - c.len()]);
        } else {
            assert(d[i] == e[i - c.len() - u.len()]);
        }
    }
    if first_field_value(ls, updated_names()) == Some(v) {
        assert(d[c.len() as int] == "Updated: "@ + v);
    }
    if d.contains("Expires: "@ + v) {
        let i = choose|i: int| 0 <= i < d.len() && d[i] == "Expires: "@ + v;
        if i < c.len() {
            assert(d[i] == c[i]);
        } else if i < c.len() + u.len() {
            assert(d[i] == u[i - c.len()]);
        } else {
            assert(d[i] == e[i - c.len() - u.len()]);
        }
    }
    if first_field_value(ls, expiry_names()) == Some(v) {
        assert(d[(c.len() + u.len()) as int] == "Expires: "@ + v);
    }
}

/// A note when neither registrar, organisation nor country was found, the
/// trimmed error stream when it is not blank, and a note of success when
/// there is neither.
pub open spec fn whois_diagnostics(ls: Seq<Seq<char>>, stderr: Seq<char>) -> Seq<Seq<char>> {
    let limited = if first_field_value(ls, registrar_names()) is None && first_field_value(
        ls,
        organization_names(),
    ) is None && first_field_value(ls, country_names()) is None {
        seq!["Parsed metadata was limited; inspect raw output for full details."@]
    } else {
        Seq::empty()
    };
    let errors = if trim(stderr).len() > 0 {
        seq![trim(stderr)]
    } else {
        Seq::empty()
    };
    if (limited + errors).len() == 0 {
        seq!["Whois lookup returned structured ownership details."@]
    } else {
        limited + errors
    }
}

/// The text whose fields are read: standard output, or standard error
/// when there is no output.
pub open spec fn whois_text(stdout: Seq<char>, stderr: Seq<char>) -> Seq<char> {
    if stdout.len() == 0 {
        stderr
    } else {
        stdout
    }
}

/// The sections of a whois answer: a summary of registrar, organisation and
/// country; the dates; the name servers; and diagnostics.
pub open spec fn whois_sections(
    target: Seq<char>,
    stdout: Seq<char>,
    stderr: Seq<char>,
    code: Option<i32>,
) -> Seq<SectionView> {
    let ls = lines(whois_text(stdout, stderr));
    seq![SectionView { label: "Summary"@, lines: whois_summary(target, ls, code) }]
        + nonempty_section("Dates"@, whois_dates(ls)) + nonempty_section(
        "Name Servers"@,
        collect_values(Seq::empty(), ls, name_server_names()),
    ) + seq![SectionView { label: "Diagnostics"@, lines: whois_diagnostics(ls, stderr) }]
}

/// The summary of a whois lookup has a `Dates` section right after its
/// summary whenever the record gives an update or an expiry date, and that
/// section's `Updated:` line carries the first update date and its
/// `Expires:` line the first expiry date.
pub proof fn lemma_whois_dates_section(
    target: Seq<char>,
    stdout: Seq<char>,
    stderr: Seq<char>,
    code: Option<i32>,
    v: Seq<char>,
)
    ensures
        ({
            let ls = lines(whois_text(stdout, stderr));
            let sections = whois_sections(target, stdout, stderr, code);
            &&& first_field_value(ls, seq!["Updated Date"@, "Last Updated On"@, "updated"@]) == Some(v)
                ==> sections[1].label == "Dates"@ && sections[1].lines.contains("Updated: "@ + v)
            &&& first_field_value(
                ls,
                seq![
                    "Registry Expiry Date"@,
                    "Registrar Registration Expiration Date"@,
                    "Expiry Date"@,
                    "paid-till"@,
                    "expires"@,
                ],
            ) == Some(v) ==> sections[1].label == "Dates"@ && sections[1].lines.contains("Expires: "@ + v)
        }),
{
    let ls = lines(whois_text(stdout, stderr));
    lemma_whois_dates_lines(ls, v);
    let d = whois_dates(ls);
    let head = seq![SectionView { label: "Summary"@, lines: whois_summary(target, ls, code) }];
    if d.len() > 0 {
        let sections = whois_sections(target, stdout, stderr, code);
        assert(sections[1] == nonempty_section("Dates"@, d)[0]);
    }
}

fn push_labelled(lines: &mut Vec<String>, prefix: &str, value: &Option<String>)
    ensures
        string_views(final(lines)@) == string_views(old(lines)@) + labelled(
            prefix@,
            crate::model::opt_chars(*value),
        ),
{
    match value {
        Some(v) => {
            let ghost before = lines@;
            let line = concat2(prefix, v.as_str());
            lines.push(line);
            proof {
                crate::text::lemma_string_views_push(before, line);
            }
        },
        None => {
            assert(string_views(lines@) =~= string_views(lines@) + Seq::<Seq<char>>::empty());
        },
    }
}

fn opt_string(v: Option<String>) -> (r: Option<String>)
    ensures
        crate::model::opt_chars(r) == crate::model::opt_chars(v),
{
    v
}

/// The creation, update and expiry dates of a whois record.
pub fn dates_lines(text: &str) -> (r: Vec<String>)
    ensures
        string_views(r@) == whois_dates(lines(text@)),
{
    let created_list: &[&str] = &["Creation Date", "Created On", "created", "Registration Time"];
    let updated_list: &[&str] = &["Updated Date", "Last Updated On", "updated"];
    let expiry_list: &[&str] = &[
        "Registry Expiry Date",
        "Registrar Registration Expiration Date",
        "Expiry Date",
        "paid-till",
        "expires",
    ];
    assert(str_seq(created_list@) =~= created_names());
    assert(str_seq(updated_list@) =~= updated_names());
    assert(str_seq(expiry_list@) =~= expiry_names());
    let created = first_field(text, created_list);
    let updated = first_field(text, updated_list);
    let expiry = first_field(text, expiry_list);
    let mut dates: Vec<String> = Vec::new();
    push_labelled(&mut dates, "Created: ", &created);
    push_labelled(&mut dates, "Updated: ", &updated);
    push_labelled(&mut dates, "Expires: ", &expiry);
    assert(string_views(dates@) =~= whois_dates(lines(text@)));
    dates
}

pub fn parse_whois_output(target: &str, stdout: &str, stderr: &str, code: Option<i32>) -> (r: Vec<
    ToolResultSection,
>)
    ensures
        section_views(r@) == whois_sections(target@, stdout@, stderr@, code),
{
    let combined = if stdout.is_empty() {
        stderr
    } else {
        stdout
    };
    let registrar_list: &[&str] = &["Registrar", "registrar"];
    let organization_list: &[&str] = &[
        "OrgName",
        "org-name",
        "org",
        "Organization",
        "Registrant Organization",
        "owner",
    ];
    let country_list: &[&str] = &["Country", "Registrant Country", "country"];
    let server_list: &[&str] = &["Name Server", "nserver", "Name Servers"];
    assert(str_seq(registrar_list@) =~= registrar_names());
    assert(str_seq(organization_list@) =~= organization_names());
    assert(str_seq(country_list@) =~= country_names());
    assert(str_seq(server_list@) =~= name_server_names());
    let registrar = first_field(combined, registrar_list);
    let organization = first_field(combined, organization_list);
    let country = first_field(combined, country_list);
    let name_servers = collect_fields(combined, server_list);
    let limited = registrar.is_none() && organization.is_none() && country.is_none();

    let mut summary: Vec<String> = Vec::new();
    summary.push(concat2("Target: ", target));
    if code == Some(0i32) {
        summary.push(owned("Status: Lookup completed"));
    } else {
        let c = debug_exit_code_string(code);
        summary.push(concat2("Status: Command exited with status ", c.as_str()));
    }
    push_labelled(&mut summary, "Registrar: ", &registrar);
    push_labelled(&mut summary, "Organization: ", &organization);
    push_labelled(&mut summary, "Country: ", &country);
    let ghost ls = lines(whois_text(stdout@, stderr@));
    let ghost expected = whois_sections(target@, stdout@, stderr@, code);
    assert(string_views(summary@) =~= whois_summary(target@, ls, code));
    let summary_section = ToolResultSection { label: owned("Summary"), lines: summary };
    let mut sections: Vec<ToolResultSection> = Vec::new();
    sections.push(summary_section);
    assert(section_views(sections@) =~= seq![summary_section@]);

    let dates = dates_lines(combined);
    let ghost after_summary = section_views(sections@);
    if dates.len() > 0 {
        let ghost before = sections@;
        let section = ToolResultSection { label: owned("Dates"), lines: dates };
        sections.push(section);
        proof {
            lemma_section_views_push(before, section);
        }
    }
    assert(section_views(sections@) =~= after_summary + nonempty_section("Dates"@, whois_dates(ls)));
    let ghost after_dates = section_views(sections@);
    if name_servers.len() > 0 {
        let ghost before = sections@;
        let section = ToolResultSection { label: owned("Name Servers"), lines: name_servers };
        sections.push(section);
        proof {
            lemma_section_views_push(before, section);
        }
    }
    assert(section_views(sections@) =~= after_dates + nonempty_section(
        "Name Servers"@,
        collect_values(Seq::empty(), ls, name_server_names()),
    ));
    let mut diagnostics: Vec<String> = Vec::new();
    if limited {
        diagnostics.push(owned("Parsed metadata was limited; inspect raw output for full details."));
    }
    let err = chars_of(stderr);
    let err_trimmed = trim_chars(&err);
    if err_trimmed.len() > 0 {
        diagnostics.push(string_of(&err_trimmed));
    }
    if diagnostics.len() == 0 {
        diagnostics.push(owned("Whois lookup returned structured ownership details."));
    }
    assert(string_views(diagnostics@) =~= whois_diagnostics(ls, stderr@));
    let ghost before = sections@;
    let section = ToolResultSection { label: owned("Diagnostics"), lines: diagnostics };
    sections.push(section);
    proof {
        lemma_section_views_push(before, section);
    }
    assert(section_views(sections@) =~= expected);
    sections
}

/// The result of a finished whois run.
pub fn whois_result(target: &str, display: &str, stdout: &str, stderr: &str, code: Option<i32>) -> (r:
    ToolResult)
    ensures
        r@ == (ResultView {
            title: "Whois Lookup"@,
            sections: whois_sections(target@, stdout@, stderr@, code),
            raw_output: raw_transcript(display@, stdout@, stderr@),
        }),
{
    ToolResult {
        title: owned("Whois Lookup"),
        sections: parse_whois_output(target, stdout, stderr, code),
        raw_output: transcript(display, stdout, stderr),
    }
}

// ---------------------------------------------------------------------------
// RDAP
// ---------------------------------------------------------------------------
/// An RDAP event as the JSON document holds it: its `eventAction` and
/// `eventDate` strings, where they are strings.
#[derive(Clone, Debug)]
pub struct RdapEvent {
    pub action: Option<String>,
    pub date: Option<String>,
}

/// An RDAP entity: the strings of its `roles` array (when it has one), and
/// for each array inside `vcardArray[1]`, its first and fourth members where
/// they are strings.
#[derive(Clone, Debug)]
pub struct RdapEntity {
    pub roles: Option<Vec<String>>,
    pub vcard_fields: Vec<(Option<String>, Option<String>)>,
}

/// The members of an RDAP answer that the summary reads, as the JSON
/// document holds them.
#[derive(Clone, Debug)]
pub struct RdapRecord {
    pub handle: Option<String>,
    pub name: Option<String>,
    pub ldh_name: Option<String>,
    pub country: Option<String>,
    pub start_address: Option<String>,
    pub end_address: Option<String>,
    pub events: Vec<RdapEvent>,
    pub entities: Vec<RdapEntity>,
}

/// A text member: present, trimmed and not empty.
pub open spec fn text_member(o: Option<String>) -> Option<Seq<char>> {
    match o {
        Some(s) => if trim(s@).len() > 0 {
            Some(trim(s@))
        } else {
            None
        },
        None => None,
    }
}

pub open spec fn event_lines(events: Seq<RdapEvent>) -> Seq<Seq<char>>
    decreases events.len(),
{
    if events.len() == 0 {
        Seq::empty()
    } else {
        let e = events.last();
        event_lines(events.drop_last()) + match (text_member(e.action), text_member(e.date)) {
            (Some(a), Some(d)) => seq![a + ": "@ + d],
            _ => Seq::empty(),
        }
    }
}

/// The formatted name of an entity: the fourth member of its first vCard
/// property named `fn`.
pub open spec fn vcard_name(fields: Seq<(Option<String>, Option<String>)>) -> Option<Seq<char>>
    decreases fields.len(),
{
    if fields.len() == 0 {
        None
    } else {
        match (fields[0].0, fields[0].1) {
            (Some(first), Some(fourth)) => if first@ == "fn"@ {
                Some(fourth@)
            } else {
                vcard_name(fields.drop_first())
            },
            _ => vcard_name(fields.drop_first()),
        }
    }
}

/// An entity's name, with its roles joined by commas in brackets after it
/// when it has any.
pub open spec fn entity_line(e: RdapEntity) -> Option<Seq<char>> {
    match vcard_name(e.vcard_fields@) {
        Some(name) => {
            let roles = match e.roles {
                Some(rs) => join(string_views(rs@), ", "@),
                None => Seq::empty(),
            };
            if roles.len() > 0 {
                Some(name + " ("@ + roles + ")"@)
            } else {
                Some(name)
            }
        },
        None => None,
    }
}

pub open spec fn entity_lines(entities: Seq<RdapEntity>) -> Seq<Seq<char>>
    decreases entities.len(),
{
    if entities.len() == 0 {
        Seq::empty()
    } else {
        entity_lines(entities.drop_last()) + match entity_line(entities.last()) {
            Some(l) => seq![l],
            None => Seq::empty(),
        }
    }
}

pub open spec fn rdap_summary(target: Seq<char>, record: RdapRecord, code: Option<i32>) -> Seq<
    Seq<char>,
> {
    let status = if code == Some(0i32) {
        "Status: RDAP lookup completed"@
    } else {
        "Status: RDAP command exited with status "@ + debug_exit_code(code)
    };
    let name = match text_member(record.name) {
        Some(n) => Some(n),
        None => text_member(record.ldh_name),
    };
    let range = match (text_member(record.start_address), text_member(record.end_address)) {
        (Some(s), Some(e)) => Some(s + " - "@ + e),
        _ => None,
    };
    seq!["Target: "@ + target, status] + labelled("Handle: "@, text_member(record.handle))
        + labelled("Name: "@, name) + labelled("Country: "@, text_member(record.country))
        + labelled("Range: "@, range)
}

/// The sections of an RDAP answer: a summary, its events, its entities and a
/// note that the fallback was used.
pub open spec fn rdap_sections(target: Seq<char>, record: RdapRecord, code: Option<i32>) -> Seq<
    SectionView,
> {
    seq![SectionView { label: "Summary"@, lines: rdap_summary(target, record, code) }]
        + nonempty_section("Events"@, event_lines(record.events@)) + nonempty_section(
        "Entities"@,
        entity_lines(record.entities@),
    ) + seq![
        SectionView { label: "Diagnostics"@, lines: seq!["Used RDAP fallback over HTTPS."@] },
    ]
}

fn text_member_exec(o: &Option<String>) -> (r: Option<String>)
    ensures
        crate::model::opt_chars(r) == text_member(*o),
{
    match o {
        Some(s) => {
            let c = chars_of(s.as_str());
            let t = trim_chars(&c);
            if t.len() > 0 {
                Some(string_of(&t))
            } else {
                None
            }
        },
        None => None,
    }
}

fn find_vcard_name(fs: &Vec<(Option<String>, Option<String>)>) -> (r: Option<String>)
    ensures
        crate::model::opt_chars(r) == vcard_name(fs@),
{
    let mut i: usize = 0;
    assert(fs@.skip(0) =~= fs@);
    while i < fs.len()
        invariant
            i <= fs.len(),
            vcard_name(fs@) == vcard_name(fs@.skip(i as int)),
        decreases fs.len() - i,
    {
        assert(fs@.skip(i as int)[0] == fs@[i as int]);
        assert(fs@.skip(i as int).drop_first() =~= fs@.skip(i + 1));
        match (&fs[i].0, &fs[i].1) {
            (Some(first), Some(fourth)) => {
                if crate::text::str_eq(first.as_str(), "fn") {
                    return Some(fourth.clone());
                }
            },
            _ => {},
        }
        i = i + 1;
    }
    assert(fs@.skip(i as int) =~= Seq::<(Option<String>, Option<String>)>::empty());
    None
}

fn entity_name(e: &RdapEntity) -> (r: Option<String>)
    ensures
        crate::model::opt_chars(r) == entity_line(*e),
{
    let name = find_vcard_name(&e.vcard_fields);
    match name {
        Some(n) => {
            let roles = match &e.roles {
                Some(rs) => crate::text::join_strings(rs, ", "),
                None => String::new(),
            };
            if !roles.as_str().is_empty() {
                let mut line = n;
                push_str(&mut line, " (");
                push_str(&mut line, roles.as_str());
                push_str(&mut line, ")");
                Some(line)
            } else {
                Some(n)
            }
        },
        None => None,
    }
}

pub fn parse_rdap_output(target: &str, record: &RdapRecord, code: Option<i32>) -> (r: Vec<
    ToolResultSection,
>)
    ensures
        section_views(r@) == rdap_sections(target@, *record, code),
{
    let mut summary: Vec<String> = Vec::new();
    summary.push(concat2("Target: ", target));
    if code == Some(0i32) {
        summary.push(owned("Status: RDAP lookup completed"));
    } else {
        let c = debug_exit_code_string(code);
        summary.push(concat2("Status: RDAP command exited with status ", c.as_str()));
    }
    let handle = text_member_exec(&record.handle);
    push_labelled(&mut summary, "Handle: ", &handle);
    let name = match text_member_exec(&record.name) {
        Some(n) => Some(n),
        None => text_member_exec(&record.ldh_name),
    };
    push_labelled(&mut summary, "Name: ", &name);
    let country = text_member_exec(&record.country);
    push_labelled(&mut summary, "Country: ", &country);
    let range = match (text_member_exec(&record.start_address), text_member_exec(&record.end_address)) {
        (Some(s), Some(e)) => {
            let mut r = s;
            push_str(&mut r, " - ");
            push_str(&mut r, e.as_str());
            Some(r)
        },
        _ => None,
    };
    push_labelled(&mut summary, "Range: ", &range);
    assert(string_views(summary@) =~= rdap_summary(target@, *record, code));
    let summary_section = ToolResultSection { label: owned("Summary"), lines: summary };
    let mut sections: Vec<ToolResultSection> = Vec::new();
    sections.push(summary_section);
    assert(section_views(sections@) =~= seq![summary_section@]);
    let ghost after_summary = section_views(sections@);

    let mut events: Vec<String> = Vec::new();
    for i in 0..record.events.len()
        invariant
            string_views(events@) == event_lines(record.events@.take(i as int)),
    {
        assert(record.events@.take(i + 1).drop_last() =~= record.events@.take(i as int));
        let e = &record.events[i];
        match (text_member_exec(&e.action), text_member_exec(&e.date)) {
            (Some(a), Some(d)) => {
                let mut line = a;
                push_str(&mut line, ": ");
                push_str(&mut line, d.as_str());
                let ghost before = events@;
                events.push(line);
                proof {
                    crate::text::lemma_string_views_push(before, line);
                }
            },
            _ => {},
        }
        assert(string_views(events@) =~= event_lines(record.events@.take(i + 1)));
    }
    assert(record.events@.take(record.events.len() as int) =~= record.events@);
    if events.len() > 0 {
        let ghost before = sections@;
        let section = ToolResultSection { label: owned("Events"), lines: events };
        sections.push(section);
        proof {
            lemma_section_views_push(before, section);
        }
    }
    assert(section_views(sections@) =~= after_summary + nonempty_section(
        "Events"@,
        event_lines(record.events@),
    ));
    let ghost after_events = section_views(sections@);

    let mut entities: Vec<String> = Vec::new();
    for i in 0..record.entities.len()
        invariant
            string_views(entities@) == entity_lines(record.entities@.take(i as int)),
    {
        assert(record.entities@.take(i + 1).drop_last() =~= record.entities@.take(i as int));
        match entity_name(&record.entities[i]) {
            Some(line) => {
                let ghost before = entities@;
                entities.push(line);
                proof {
                    crate::text::lemma_string_views_push(before, line);
                }
            },
            None => {},
        }
        assert(string_views(entities@) =~= entity_lines(record.entities@.take(i + 1)));
    }
    assert(record.entities@.take(record.entities.len() as int) =~= record.entities@);
    if entities.len() > 0 {
        let ghost before = sections@;
        let section = ToolResultSection { label: owned("Entities"), lines: entities };
        sections.push(section);
        proof {
            lemma_section_views_push(before, section);
        }
    }
    assert(section_views(sections@) =~= after_events + nonempty_section(
        "Entities"@,
        entity_lines(record.entities@),
    ));
    let ghost before = sections@;
    let section = ToolResultSection {
        label: owned("Diagnostics"),
        lines: vec![owned("Used RDAP fallback over HTTPS.")],
    };
    assert(section@.lines =~= seq!["Used RDAP fallback over HTTPS."@]);
    sections.push(section);
    proof {
        lemma_section_views_push(before, section);
    }
    assert(section_views(sections@) =~= rdap_sections(target@, *record, code));
    sections
}

/// The RDAP sections, with the reason local whois could not be used and
/// the trimmed error stream of the RDAP request added to the diagnostics.
pub open spec fn rdap_fallback_sections(
    target: Seq<char>,
    record: RdapRecord,
    code: Option<i32>,
    whois_error: Seq<char>,
    stderr: Seq<char>,
) -> Seq<SectionView> {
    let base = rdap_sections(target, record, code);
    let last = base.last();
    let extra = seq!["Local whois unavailable: "@ + whois_error] + if trim(stderr).len() > 0 {
        seq![trim(stderr)]
    } else {
        Seq::empty()
    };
    base.drop_last().push(SectionView { label: last.label, lines: last.lines + extra })
}

pub fn rdap_fallback_output(
    target: &str,
    record: &RdapRecord,
    code: Option<i32>,
    whois_error: &str,
    stderr: &str,
) -> (r: Vec<ToolResultSection>)
    ensures
        section_views(r@) == rdap_fallback_sections(target@, *record, code, whois_error@, stderr@),
{
    let mut sections = parse_rdap_output(target, record, code);
    let ghost base = section_views(sections@);
    let mut last = sections.pop().unwrap();
    assert(section_views(sections@) =~= base.drop_last());
    let ghost last_lines = string_views(last.lines@);
    let ghost before = last.lines@;
    let note = concat2("Local whois unavailable: ", whois_error);
    last.lines.push(note);
    proof {
        crate::text::lemma_string_views_push(before, note);
    }
    let err = chars_of(stderr);
    let err_trimmed = trim_chars(&err);
    if err_trimmed.len() > 0 {
        let ghost before2 = last.lines@;
        let e = string_of(&err_trimmed);
        last.lines.push(e);
        proof {
            crate::text::lemma_string_views_push(before2, e);
        }
    }
    let ghost extra = seq!["Local whois unavailable: "@ + whois_error@] + if trim(stderr@).len() > 0 {
        seq![trim(stderr@)]
    } else {
        Seq::empty()
    };
    assert(string_views(last.lines@) =~= last_lines + extra);
    let ghost kept = sections@;
    sections.push(last);
    proof {
        lemma_section_views_push(kept, last);
    }
    assert(section_views(sections@) =~= rdap_fallback_sections(
        target@,
        *record,
        code,
        whois_error@,
        stderr@,
    ));
    sections
}

} // verus!
