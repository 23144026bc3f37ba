//! The text that the terminal interface shows beside its tables: titles,
//! command lines, labels, masks and release-note banners.
use vstd::prelude::*;

use crate::model::RouteFamily;
use crate::app::ViewMode;
use crate::text::{
    chars_of, concat2, decimal, join, join_strings, lines, lines_of, owned, push_chars, push_str,
    str_eq, strip_prefix, strip_prefix_str, string_of, string_views, trim, trim_chars,
    trim_end_char, trim_end_char_exec, trim_start_char, trim_start_char_exec, views,
};
use crate::update::{UpdateStatus, cleaned_note, release_notes};

verus! {

pub fn render_title() -> (r: &'static str)
    ensures
        r@ == "lazyifconfig"@,
{
    "lazyifconfig"
}

/// The command whose output a view shows, on a machine whose operating
/// system is called `os` (`std::env::consts::OS`).
pub open spec fn active_command(view_mode: ViewMode, os: Seq<char>) -> Seq<char> {
    let linux = os == "linux"@;
    let windows = os == "windows"@;
    match view_mode {
        ViewMode::Interface | ViewMode::Network => if linux {
            "ip -details -statistics address show"@
        } else if windows {
            "ipconfig /all"@
        } else {
            "ifconfig"@
        },
        ViewMode::Connections => "netstat -an"@,
        ViewMode::Ports => if linux {
            "ss -H -ltnp"@
        } else if windows {
            "netstat -ano -p tcp"@
        } else {
            "lsof -iTCP -sTCP:LISTEN -P -n"@
        },
        ViewMode::Routes => if linux {
            "ip route show"@
        } else if windows {
            "route PRINT"@
        } else {
            "netstat -rn"@
        },
        ViewMode::Timeline => "event-logger"@,
    }
}

pub fn get_active_command(view_mode: ViewMode, os: &str) -> (r: &'static str)
    ensures
        r@ == active_command(view_mode, os@),
{
    let linux = str_eq(os, "linux");
    let windows = str_eq(os, "windows");
    match view_mode {
        ViewMode::Interface | ViewMode::Network => {
            if linux {
                "ip -details -statistics address show"
            } else if windows {
                "ipconfig /all"
            } else {
                "ifconfig"
            }
        },
        ViewMode::Connections => "netstat -an",
        ViewMode::Ports => {
            if linux {
                "ss -H -ltnp"
            } else if windows {
                "netstat -ano -p tcp"
            } else {
                "lsof -iTCP -sTCP:LISTEN -P -n"
            }
        },
        ViewMode::Routes => {
            if linux {
                "ip route show"
            } else if windows {
                "route PRINT"
            } else {
                "netstat -rn"
            }
        },
        ViewMode::Timeline => "event-logger",
    }
}

// ---------------------------------------------------------------------------
// The operating system's name
// ---------------------------------------------------------------------------
/// The value of `key=` on the first line of an `os-release` file that
/// starts with it, without surrounding double quotes.
pub open spec fn os_release_entry(ls: Seq<Seq<char>>, key: Seq<char>) -> Option<Seq<char>>
    decreases ls.len(),
{
    if ls.len() == 0 {
        None
    } else {
        match strip_prefix(ls[0], key.push('=')) {
            Some(v) => Some(crate::text::trim_start_char(trim_end_char(v, '"'), '"')),
            None => os_release_entry(ls.drop_first(), key),
        }
    }
}

pub fn os_release_value(contents: &str, key: &str) -> (r: Option<String>)
    ensures
        crate::model::opt_chars(r) == os_release_entry(lines(contents@), key@),
{
    let c = chars_of(contents);
    let ls = lines_of(&c);
    let mut prefix = chars_of(key);
    prefix.push('=');
    let ghost lv = views(ls@);
    assert(lv.skip(0) =~= lv);
    for i in 0..ls.len()
        invariant
            lv == views(ls@),
            lv == lines(contents@),
            prefix@ == key@.push('='),
            os_release_entry(lv, key@) == os_release_entry(lv.skip(i as int), key@),
    {
        assert(lv.skip(i as int)[0] == ls@[i as int]@);
        assert(lv.skip(i as int).drop_first() =~= lv.skip(i + 1));
        if crate::text::starts_with_chars(&ls[i], &prefix) {
            let v = crate::text::slice_chars(&ls[i], prefix.len(), ls[i].len());
            assert(v@ =~= ls@[i as int]@.skip(prefix@.len() as int));
            let a = trim_end_char_exec(&v, '"');
            let b = trim_start_char_exec(&a, '"');
            return Some(string_of(&b));
        }
    }
    assert(lv.skip(ls.len() as int) =~= Seq::<Seq<char>>::empty());
    None
}

/// The name of a Linux distribution from its `os-release` file: its
/// `PRETTY_NAME`, or else `Linux` and its `VERSION_ID`; nothing when that
/// is empty.
pub open spec fn linux_label(contents: Seq<char>) -> Option<Seq<char>> {
    let ls = lines(contents);
    let label = match os_release_entry(ls, "PRETTY_NAME"@) {
        Some(p) => Some(p),
        None => match os_release_entry(ls, "VERSION_ID"@) {
            Some(v) => Some("Linux "@ + v),
            None => None,
        },
    };
    match label {
        Some(l) => if l.len() > 0 {
            Some(l)
        } else {
            None
        },
        None => None,
    }
}

pub fn linux_os_label(os_release: &str) -> (r: Option<String>)
    ensures
        crate::model::opt_chars(r) == linux_label(os_release@),
{
    let label = match os_release_value(os_release, "PRETTY_NAME") {
        Some(p) => Some(p),
        None => match os_release_value(os_release, "VERSION_ID") {
            Some(v) => Some(concat2("Linux ", v.as_str())),
            None => None,
        },
    };
    match label {
        Some(l) => {
            if !l.as_str().is_empty() {
                Some(l)
            } else {
                None
            }
        },
        None => None,
    }
}

// ---------------------------------------------------------------------------
// Labels
// ---------------------------------------------------------------------------
pub open spec fn family_label(family: RouteFamily) -> Seq<char> {
    match family {
        RouteFamily::Ipv4 => "IPv4"@,
        RouteFamily::Ipv6 => "IPv6"@,
        RouteFamily::Unknown => "?"@,
    }
}

pub fn route_family_label(family: RouteFamily) -> (r: &'static str)
    ensures
        r@ == family_label(family),
{
    match family {
        RouteFamily::Ipv4 => "IPv4",
        RouteFamily::Ipv6 => "IPv6",
        RouteFamily::Unknown => "?",
    }
}

/// What the status bar says of the updater; `version` is the running
/// version.
pub open spec fn update_label(status: UpdateStatus, version: Seq<char>) -> Seq<char> {
    match status {
        UpdateStatus::Idle => "v"@ + version,
        UpdateStatus::Checking { manual } => if manual {
            "update: checking(now)"@
        } else {
            "update: checking"@
        },
        UpdateStatus::Available { version: v } => "update: v"@ + v@ + " ready"@,
        UpdateStatus::Installing { version: v, .. } => "update: installing v"@ + v@,
        UpdateStatus::Updated { version: v } => "update: v"@ + v@ + " installed"@,
        UpdateStatus::UpToDate => "update: latest"@,
        UpdateStatus::Error { .. } => "update: error"@,
    }
}

pub fn update_status_label(status: &UpdateStatus, version: &str) -> (r: String)
    ensures
        r@ == update_label(*status, version@),
{
    match status {
        UpdateStatus::Idle => concat2("v", version),
        UpdateStatus::Checking { manual } => {
            if *manual {
                owned("update: checking(now)")
            } else {
                owned("update: checking")
            }
        },
        UpdateStatus::Available { version: v } => crate::text::concat3(
            "update: v",
            v.as_str(),
            " ready",
        ),
        UpdateStatus::Installing { version: v, .. } => concat2("update: installing v", v.as_str()),
        UpdateStatus::Updated { version: v } => crate::text::concat3(
            "update: v",
            v.as_str(),
            " installed",
        ),
        UpdateStatus::UpToDate => owned("update: latest"),
        UpdateStatus::Error { .. } => owned("update: error"),
    }
}

/// The message shown when the route lookup of a destination fails.
pub fn route_path_command_error_message(error: &str) -> (r: String)
    ensures
        r@ == "destination could not be resolved by route command: "@ + error@,
{
    concat2("destination could not be resolved by route command: ", error)
}

// ---------------------------------------------------------------------------
// Masks
// ---------------------------------------------------------------------------
/// The netmask of a prefix length as a 32-bit number; lengths past 32 mean
/// all ones.
pub open spec fn ipv4_mask(prefix_len: u8) -> u32 {
    if prefix_len == 0 {
        0
    } else if prefix_len >= 32 {
        0xffff_ffffu32
    } else {
        (0xffff_ffffu32 << ((32 - prefix_len) as u32)) as u32
    }
}

pub fn ipv4_mask_exec(prefix_len: u8) -> (r: u32)
    ensures
        r == ipv4_mask(prefix_len),
{
    if prefix_len == 0 {
        0
    } else if prefix_len >= 32 {
        u32::MAX
    } else {
        let shift: u32 = 32 - prefix_len as u32;
        u32::MAX << shift
    }
}

/// The four octets of a 32-bit number, most significant first.
pub open spec fn octets_of(n: u32) -> Seq<u8> {
    seq![(n / 0x100_0000) as u8, ((n / 0x1_0000) % 256) as u8, ((n / 256) % 256) as u8, (n % 256) as u8]
}

/// The dotted netmask of a prefix length.
pub fn prefix_len_to_ipv4_mask(prefix_len: u8) -> (r: String)
    ensures
        r@ == crate::net::v4_text(octets_of(ipv4_mask(prefix_len))),
{
    let mask = ipv4_mask_exec(prefix_len);
    let o = [(mask / 0x100_0000) as u8, ((mask / 0x1_0000) % 256) as u8, ((mask / 256) % 256) as u8, (mask % 256) as u8];
    assert(o@ =~= octets_of(mask));
    let text = crate::net::v4_text_exec(&o);
    string_of(&text)
}

/// The network part of an IPv4 address.
pub fn calculate_ipv4_subnet_u32(ip_val: u32, prefix_len: u8) -> (r: u32)
    ensures
        r == ip_val & ipv4_mask(prefix_len),
{
    ip_val & ipv4_mask_exec(prefix_len)
}

/// The mask byte for byte `i` of an address with this prefix length.
pub open spec fn ipv6_mask_byte(i: int, prefix_len: u8) -> u8 {
    let bit_index = i * 8;
    if prefix_len >= bit_index + 8 {
        0xff
    } else if prefix_len <= bit_index {
        0
    } else {
        (0xffu8 << ((8 - (prefix_len - bit_index)) as u32)) as u8
    }
}

/// The network part of an IPv6 address given by its sixteen octets.
pub fn calculate_ipv6_subnet_arr(octets: &[u8], prefix_len: u8) -> (r: Vec<u8>)
    requires
        octets.len() == 16,
    ensures
        r@.len() == 16,
        forall|i: int| 0 <= i < 16 ==> r@[i] == (octets@[i] & ipv6_mask_byte(i, prefix_len)),
{
    let mut r: Vec<u8> = Vec::new();
    for i in 0..16
        invariant
            octets.len() == 16,
            r@.len() == i,
            forall|k: int| 0 <= k < i ==> r@[k] == (octets@[k] & ipv6_mask_byte(k, prefix_len)),
    {
        let bit_index: u8 = (i as u8) * 8;
        let mask: u8 = if prefix_len as u16 >= bit_index as u16 + 8 {
            0xff
        } else if prefix_len <= bit_index {
            0x00
        } else {
            let remaining: u8 = prefix_len - bit_index;
            let shift: u32 = (8 - remaining) as u32;
            0xffu8 << shift
        };
        assert(mask == ipv6_mask_byte(i as int, prefix_len));
        r.push(octets[i] & mask);
    }
    r
}

// ---------------------------------------------------------------------------
// Release notes in the banner
// ---------------------------------------------------------------------------
/// At most `max` characters of `notes`, with `...` after a cut.
pub open spec fn truncated_notes(notes: Seq<char>, max: nat) -> Seq<char> {
    if notes.len() > max {
        notes.take(max as int) + "..."@
    } else {
        notes
    }
}

pub fn truncate_release_notes(notes: &str, max_chars: usize) -> (r: String)
    ensures
        r@ == truncated_notes(notes@, max_chars as nat),
{
    let c = chars_of(notes);
    let mut out = String::new();
    let mut i: usize = 0;
    while i < c.len()
        invariant
            c@ == notes@,
            i <= c.len(),
            i <= max_chars,
            out@ == c@.take(i as int),
        decreases c.len() - i,
    {
        if i >= max_chars {
            push_str(&mut out, "...");
            return out;
        }
        let ghost before = out@;
        let one = [c[i]];
        push_chars(&mut out, &one);
        assert(out@ =~= c@.take(i + 1));
        i = i + 1;
    }
    assert(c@.take(c.len() as int) =~= c@);
    out
}

/// The first two meaningful lines of the notes joined by ` | ` (or the
/// trimmed notes when there are none), cut to `max` characters.
pub open spec fn banner_summary(notes: Seq<char>, max: nat) -> Seq<char> {
    let picked = crate::update::note_lines(lines(notes), 2);
    let summary = if picked.len() == 0 {
        trim(notes)
    } else {
        join(picked, " | "@)
    };
    truncated_notes(summary, max)
}

pub fn summarize_release_notes_for_banner(notes: &str, max_chars: usize) -> (r: String)
    ensures
        r@ == banner_summary(notes@, max_chars as nat),
{
    let c = chars_of(notes);
    let ls = lines_of(&c);
    let ghost lv = views(ls@);
    let mut picked: Vec<String> = Vec::new();
    let mut i: usize = 0;
    assert(lv.skip(0) =~= lv);
    while i < ls.len() && picked.len() < 2
        invariant
            lv == views(ls@),
            i <= ls.len(),
            picked.len() <= 2,
            crate::update::note_lines(lv, 2) == string_views(picked@) + crate::update::note_lines(
                lv.skip(i as int),
                (2 - picked.len()) as nat,
            ),
        decreases ls.len() - i,
    {
        assert(lv.skip(i as int)[0] == ls@[i as int]@);
        assert(lv.skip(i as int).drop_first() =~= lv.skip(i + 1));
        let t = trim_chars(&ls[i]);
        if t.len() > 0 {
            let a = trim_start_char_exec(&t, '#');
            let b = trim_start_char_exec(&a, '-');
            let d = trim_start_char_exec(&b, '*');
            let e = trim_start_char_exec(&d, ' ');
            let cleaned = trim_chars(&e);
            assert(cleaned@ == cleaned_note(ls@[i as int]@));
            if cleaned.len() > 0 {
                let ghost before = picked@;
                let line = string_of(&cleaned);
                picked.push(line);
                proof {
                    crate::text::lemma_string_views_push(before, line);
                }
                assert(string_views(picked@) =~= string_views(before) + seq![cleaned@]);
            }
        }
        i = i + 1;
    }
    proof {
        if i == ls.len() {
            assert(lv.skip(i as int) =~= Seq::<Seq<char>>::empty());
        }
        assert(crate::update::note_lines(lv.skip(i as int), (2 - picked.len()) as nat)
            =~= Seq::<Seq<char>>::empty());
    }
    assert(crate::update::note_lines(lv, 2) =~= string_views(picked@));
    let summary = if picked.len() == 0 {
        string_of(&trim_chars(&c))
    } else {
        join_strings(&picked, " | ")
    };
    truncate_release_notes(summary.as_str(), max_chars)
}

} // verus!
