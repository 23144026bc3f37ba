//! Self-update decisions: whether a GitHub release is newer than the running
//! version, which of its assets fits this platform, and how its notes are
//! shown.
use std::cmp::Ordering;

use vstd::prelude::*;

use crate::text::{
    chars_of, concat2, concat3, ends_with, ends_with_chars, find_chars, first_match, join,
    join_strings, lines, lines_of, owned, parse_u64, parse_u64_spec, push_str, slice_chars,
    string_of, string_views, trim, trim_chars, trim_end_char, trim_end_char_exec, trim_end_str,
    trim_end_str_exec, trim_start_char, trim_start_char_exec, views,
};

verus! {

/// Where the project lives.
pub const REPOSITORY_URL: &'static str = "https://github.com/choihunchul/lazyifconfig";

#[derive(Clone, Debug)]
pub struct ReleaseAsset {
    pub name: String,
    pub download_url: String,
}

#[derive(Clone, Debug)]
pub struct ReleaseInfo {
    pub tag_name: String,
    pub html_url: String,
    pub body: String,
    pub assets: Vec<ReleaseAsset>,
    pub release_date: Option<String>,
}

#[derive(Clone, Debug)]
pub struct AvailableUpdate {
    pub current_version: String,
    pub target_version: String,
    pub release_url: String,
    pub asset_name: String,
    pub download_url: String,
    pub release_notes: String,
    pub release_date: String,
}

#[derive(Clone, Debug)]
pub enum CheckOutcome {
    UpToDate { current_version: String, release_date: Option<String> },
    Available(AvailableUpdate),
}

#[derive(Clone, Debug)]
pub enum UpdateStatus {
    Idle,
    Checking { manual: bool },
    Available { version: String },
    Installing { version: String, manual: bool },
    Updated { version: String },
    UpToDate,
    Error { message: String },
}

impl Default for UpdateStatus {
    fn default() -> (r: Self)
        ensures
            r is Idle,
    {
        UpdateStatus::Idle
    }
}

#[derive(Debug)]
pub enum UpdateMessage {
    CheckFinished { manual: bool, result: Result<CheckOutcome, String> },
    InstallFinished { manual: bool, version: String, result: Result<(), String> },
}

// ---------------------------------------------------------------------------
// Versions
// ---------------------------------------------------------------------------
/// A version without surrounding whitespace and without leading `v`s.
pub open spec fn normalized_version(v: Seq<char>) -> Seq<char> {
    trim_start_char(trim(v), 'v')
}

pub fn normalize_version(version: &str) -> (r: String)
    ensures
        r@ == normalized_version(version@),
{
    let c = chars_of(version);
    let t = trim_chars(&c);
    string_of(&trim_start_char_exec(&t, 'v'))
}

/// The pieces of `s` between `.` and `-` separators, scanning left to
/// right with the finished pieces and the piece being read.
pub open spec fn version_scan(s: Seq<char>, done: Seq<Seq<char>>, cur: Seq<char>) -> Seq<Seq<char>>
    decreases s.len(),
{
    if s.len() == 0 {
        done.push(cur)
    } else if s[0] == '.' || s[0] == '-' {
        version_scan(s.drop_first(), done.push(cur), Seq::empty())
    } else {
        version_scan(s.drop_first(), done, cur.push(s[0]))
    }
}

/// A piece as a number; a piece that is not one counts as zero.
pub open spec fn part_value(p: Seq<char>) -> u64 {
    match parse_u64_spec(p) {
        Some(n) => n,
        None => 0,
    }
}

/// The numbers of a version, after normalising it.
pub open spec fn version_parts(v: Seq<char>) -> Seq<u64> {
    version_scan(normalized_version(v), Seq::empty(), Seq::empty()).map_values(
        |p: Seq<char>| part_value(p),
    )
}

/// The part at `i`, zero past the end.
pub open spec fn part_at(parts: Seq<u64>, i: int) -> u64 {
    if 0 <= i < parts.len() {
        parts[i]
    } else {
        0
    }
}

/// How two part lists compare from index `i` on: the first difference
/// decides, missing parts count as zero. `-1`, `0` and `1` stand for
/// less, equal and greater.
pub open spec fn compare_from(l: Seq<u64>, r: Seq<u64>, i: int) -> int
    decreases (if l.len() > r.len() {
        l.len()
    } else {
        r.len()
    }) - i,
{
    let n = if l.len() > r.len() {
        l.len()
    } else {
        r.len()
    };
    if i >= n || i < 0 {
        0
    } else if part_at(l, i) < part_at(r, i) {
        -1
    } else if part_at(l, i) > part_at(r, i) {
        1
    } else {
        compare_from(l, r, i + 1)
    }
}

pub open spec fn version_order(left: Seq<char>, right: Seq<char>) -> int {
    compare_from(version_parts(left), version_parts(right), 0)
}

pub open spec fn ordering_value(o: Ordering) -> int {
    match o {
        Ordering::Less => -1,
        Ordering::Equal => 0,
        Ordering::Greater => 1,
    }
}

fn split_version(s: &[char]) -> (r: Vec<Vec<char>>)
    ensures
        views(r@) == version_scan(s@, Seq::empty(), Seq::empty()),
{
    let mut done: Vec<Vec<char>> = Vec::new();
    let mut cur: Vec<char> = Vec::new();
    let mut i: usize = 0;
    assert(s@.skip(0) =~= s@);
    assert(views(done@) =~= Seq::<Seq<char>>::empty());
    assert(cur@ =~= Seq::<char>::empty());
    while i < s.len()
        invariant
            i <= s.len(),
            version_scan(s@, Seq::empty(), Seq::empty()) == version_scan(
                s@.skip(i as int),
                views(done@),
                cur@,
            ),
        decreases s.len() - i,
    {
        assert(s@.skip(i as int)[0] == s@[i as int]);
        assert(s@.skip(i as int).drop_first() =~= s@.skip(i + 1));
        if s[i] == '.' || s[i] == '-' {
            let ghost before = done@;
            let piece = cur;
            done.push(piece);
            assert(views(done@) =~= views(before).push(piece@));
            cur = Vec::new();
            assert(cur@ =~= Seq::<char>::empty());
        } else {
            cur.push(s[i]);
        }
        i = i + 1;
    }
    assert(s@.skip(i as int) =~= Seq::<char>::empty());
    let ghost before = done@;
    let piece = cur;
    done.push(piece);
    assert(views(done@) =~= views(before).push(piece@));
    done
}

pub fn parse_version_parts(version: &str) -> (r: Vec<u64>)
    ensures
        r@ == version_parts(version@),
{
    let n = normalize_version(version);
    let c = chars_of(n.as_str());
    let pieces = split_version(&c);
    let ghost pv = views(pieces@);
    let mut parts: Vec<u64> = Vec::new();
    for i in 0..pieces.len()
        invariant
            pv == views(pieces@),
            parts@ == pv.take(i as int).map_values(|p: Seq<char>| part_value(p)),
    {
        assert(pv[i as int] == pieces@[i as int]@);
        let v = match parse_u64(&pieces[i]) {
            Some(n) => n,
            None => 0,
        };
        parts.push(v);
        assert(parts@ =~= pv.take(i + 1).map_values(|p: Seq<char>| part_value(p)));
    }
    assert(pv.take(pieces.len() as int) =~= pv);
    parts
}

/// `-1`, `0` or `1` as two part lists compare.
fn compare_parts(l: &Vec<u64>, rp: &Vec<u64>) -> (r: i8)
    ensures
        r as int == compare_from(l@, rp@, 0),
        r == -1 || r == 0 || r == 1,
{
    let max_len = if l.len() > rp.len() {
        l.len()
    } else {
        rp.len()
    };
    let mut idx: usize = 0;
    while idx < max_len
        invariant
            max_len == (if l.len() > rp.len() {
                l.len()
            } else {
                rp.len()
            }),
            idx <= max_len,
            compare_from(l@, rp@, 0) == compare_from(l@, rp@, idx as int),
        decreases max_len - idx,
    {
        let a: u64 = if idx < l.len() {
            l[idx]
        } else {
            0
        };
        let b: u64 = if idx < rp.len() {
            rp[idx]
        } else {
            0
        };
        if a < b {
            return -1;
        }
        if a > b {
            return 1;
        }
        idx = idx + 1;
    }
    0
}

/// Compares two versions number by number.
pub fn compare_versions(left: &str, right: &str) -> (r: Ordering)
    ensures
        ordering_value(r) == version_order(left@, right@),
{
    let l = parse_version_parts(left);
    let rp = parse_version_parts(right);
    let c = compare_parts(&l, &rp);
    if c < 0 {
        Ordering::Less
    } else if c > 0 {
        Ordering::Greater
    } else {
        Ordering::Equal
    }
}

proof fn lemma_compare_from_reflexive(l: Seq<u64>, i: int)
    requires
        0 <= i,
    ensures
        compare_from(l, l, i) == 0,
    decreases l.len() - i,
{
    if i < l.len() {
        lemma_compare_from_reflexive(l, i + 1);
    }
}

proof fn lemma_compare_from_antisymmetric(l: Seq<u64>, r: Seq<u64>, i: int)
    requires
        0 <= i,
    ensures
        compare_from(l, r, i) == -compare_from(r, l, i),
    decreases (if l.len() > r.len() {
        l.len()
    } else {
        r.len()
    }) - i,
{
    let n = if l.len() > r.len() {
        l.len()
    } else {
        r.len()
    };
    if i < n && part_at(l, i) == part_at(r, i) {
        lemma_compare_from_antisymmetric(l, r, i + 1);
    }
}

/// Every version compares equal to itself.
pub proof fn lemma_compare_versions_reflexive(v: Seq<char>)
    ensures
        version_order(v, v) == 0,
{
    lemma_compare_from_reflexive(version_parts(v), 0);
}

/// Swapping the versions reverses the comparison.
pub proof fn lemma_compare_versions_antisymmetric(a: Seq<char>, b: Seq<char>)
    ensures
        version_order(a, b) == -version_order(b, a),
{
    lemma_compare_from_antisymmetric(version_parts(a), version_parts(b), 0);
}

// ---------------------------------------------------------------------------
// Release notes
// ---------------------------------------------------------------------------
/// The notes, trimmed; a placeholder when there are none.
pub open spec fn release_notes(body: Seq<char>) -> Seq<char> {
    if trim(body).len() == 0 {
        "Release notes not provided."@
    } else {
        trim(body)
    }
}

pub fn normalize_release_notes(body: &str) -> (r: String)
    ensures
        r@ == release_notes(body@),
{
    let c = chars_of(body);
    let t = trim_chars(&c);
    if t.len() == 0 {
        owned("Release notes not provided.")
    } else {
        string_of(&t)
    }
}

/// A note line without heading marks, list bullets and surrounding spaces.
pub open spec fn cleaned_note(line: Seq<char>) -> Seq<char> {
    trim(
        trim_start_char(
            trim_start_char(trim_start_char(trim_start_char(trim(line), '#'), '-'), '*'),
            ' ',
        ),
    )
}

/// The first `max` non-empty cleaned lines.
pub open spec fn note_lines(ls: Seq<Seq<char>>, max: nat) -> Seq<Seq<char>>
    decreases ls.len(),
{
    if ls.len() == 0 || max == 0 {
        Seq::empty()
    } else if trim(ls[0]).len() == 0 || cleaned_note(ls[0]).len() == 0 {
        note_lines(ls.drop_first(), max)
    } else {
        seq![cleaned_note(ls[0])] + note_lines(ls.drop_first(), (max - 1) as nat)
    }
}

/// The first two meaningful lines of the notes joined by ` | `.
pub open spec fn release_summary(body: Seq<char>) -> Seq<char> {
    let picked = note_lines(lines(release_notes(body)), 2);
    if picked.len() == 0 {
        "Release notes not provided."@
    } else {
        join(picked, " | "@)
    }
}

fn cleaned_note_exec(line: &[char]) -> (r: Vec<char>)
    ensures
        r@ == cleaned_note(line@),
{
    let t = trim_chars(line);
    let a = trim_start_char_exec(&t, '#');
    let b = trim_start_char_exec(&a, '-');
    let c = trim_start_char_exec(&b, '*');
    let d = trim_start_char_exec(&c, ' ');
    trim_chars(&d)
}

pub fn summarize_release_notes(body: &str) -> (r: String)
    ensures
        r@ == release_summary(body@),
{
    let notes = normalize_release_notes(body);
    let c = chars_of(notes.as_str());
    let ls = lines_of(&c);
    let ghost lv = views(ls@);
    let mut picked: Vec<String> = Vec::new();
    let mut i: usize = 0;
    assert(lv.skip(0) =~= lv);
    while i < ls.len() && picked.len() < 2
        invariant
            lv == views(ls@),
            i <= ls.len(),
            picked.len() <= 2,
            note_lines(lv, 2) == string_views(picked@) + note_lines(
                lv.skip(i as int),
                (2 - picked.len()) as nat,
            ),
        decreases ls.len() - i,
    {
        assert(lv.skip(i as int)[0] == ls@[i as int]@);
        assert(lv.skip(i as int).drop_first() =~= lv.skip(i + 1));
        let t = trim_chars(&ls[i]);
        if t.len() > 0 {
            let cleaned = cleaned_note_exec(&ls[i]);
            if cleaned.len() > 0 {
                let ghost before = picked@;
                let line = string_of(&cleaned);
                picked.push(line);
                proof {
                    crate::text::lemma_string_views_push(before, line);
                }
                assert(string_views(picked@) =~= string_views(before) + seq![cleaned@]);
            }
        }
        i = i + 1;
    }
    proof {
        if i == ls.len() {
            assert(lv.skip(i as int) =~= Seq::<Seq<char>>::empty());
        }
        assert(note_lines(lv.skip(i as int), (2 - picked.len()) as nat) =~= Seq::<Seq<char>>::empty());
    }
    assert(note_lines(lv, 2) =~= string_views(picked@));
    if picked.len() == 0 {
        owned("Release notes not provided.")
    } else {
        join_strings(&picked, " | ")
    }
}

// ---------------------------------------------------------------------------
// The release source
// ---------------------------------------------------------------------------
/// The `owner/name` part of a GitHub repository URL, after any `.git`
/// suffix and trailing slashes are dropped.
pub open spec fn repository_part(url: Seq<char>) -> Result<Seq<char>, Seq<char>> {
    let repo = trim_end_char(trim_end_str(url, ".git"@), '/');
    match first_match(repo, "github.com/"@) {
        Some(i) => Ok(repo.skip(i + 11)),
        None => Err("repository URL is not a GitHub repository"@),
    }
}

fn repository_slug_of(url: &str) -> (r: Result<String, String>)
    ensures
        match r {
            Ok(s) => repository_part(url@) == Ok::<Seq<char>, Seq<char>>(s@),
            Err(e) => repository_part(url@) == Err::<Seq<char>, Seq<char>>(e@),
        },
{
    let c = chars_of(url);
    let a = trim_end_str_exec(&c, ".git");
    let repo = trim_end_char_exec(&a, '/');
    let marker = chars_of("github.com/");
    proof {
        reveal_strlit("github.com/");
    }
    match find_chars(&repo, &marker) {
        Some(i) => {
            let rest = slice_chars(&repo, i + marker.len(), repo.len());
            assert(rest@ =~= repo@.skip(i + 11));
            Ok(string_of(&rest))
        },
        None => Err(owned("repository URL is not a GitHub repository")),
    }
}

pub fn repository_slug() -> (r: Result<String, String>)
    ensures
        match r {
            Ok(s) => repository_part(REPOSITORY_URL@) == Ok::<Seq<char>, Seq<char>>(s@),
            Err(e) => repository_part(REPOSITORY_URL@) == Err::<Seq<char>, Seq<char>>(e@),
        },
{
    repository_slug_of(REPOSITORY_URL)
}

/// The GitHub API endpoint of the latest release of this project.
pub fn release_api_url() -> (r: Result<String, String>)
    ensures
        match repository_part(REPOSITORY_URL@) {
            Ok(slug) => r matches Ok(u) && u@ == "https://api.github.com/repos/"@ + slug
                + "/releases/latest"@,
            Err(e) => r matches Err(m) && m@ == e,
        },
{
    let repo = repository_slug()?;
    Ok(concat3("https://api.github.com/repos/", repo.as_str(), "/releases/latest"))
}

/// The first asset built for `target` as a `.tar.gz` archive, or else the
/// first as a `.zip` archive.
pub open spec fn asset_for(assets: Seq<ReleaseAsset>, target: Seq<char>) -> Option<int> {
    let tarball = "-"@ + target + ".tar.gz"@;
    let zip = "-"@ + target + ".zip"@;
    match first_asset_ending(assets, tarball, 0) {
        Some(i) => Some(i),
        None => first_asset_ending(assets, zip, 0),
    }
}

pub open spec fn first_asset_ending(assets: Seq<ReleaseAsset>, suffix: Seq<char>, from: int) -> Option<
    int,
>
    decreases assets.len() - from,
{
    if from < 0 || from >= assets.len() {
        None
    } else if ends_with(assets[from].name@, suffix) {
        Some(from)
    } else {
        first_asset_ending(assets, suffix, from + 1)
    }
}

fn find_asset_ending(assets: &Vec<ReleaseAsset>, suffix: &[char]) -> (r: Option<usize>)
    ensures
        match r {
            Some(i) => i < assets.len() && first_asset_ending(assets@, suffix@, 0) == Some(
                i as int,
            ),
            None => first_asset_ending(assets@, suffix@, 0) is None,
        },
{
    let mut i: usize = 0;
    while i < assets.len()
        invariant
            i <= assets.len(),
            first_asset_ending(assets@, suffix@, 0) == first_asset_ending(
                assets@,
                suffix@,
                i as int,
            ),
        decreases assets.len() - i,
    {
        let name = chars_of(assets[i].name.as_str());
        if ends_with_chars(&name, suffix) {
            return Some(i);
        }
        i = i + 1;
    }
    None
}

pub fn select_release_asset<'a>(release: &'a ReleaseInfo, target: &str) -> (r: Option<
    &'a ReleaseAsset,
>)
    ensures
        match asset_for(release.assets@, target@) {
            Some(i) => r matches Some(a) && 0 <= i < release.assets@.len() && *a
                == release.assets@[i],
            None => r is None,
        },
{
    let tarball = chars_of(concat3("-", target, ".tar.gz").as_str());
    let zip = chars_of(concat3("-", target, ".zip").as_str());
    match find_asset_ending(&release.assets, &tarball) {
        Some(i) => Some(&release.assets[i]),
        None => match find_asset_ending(&release.assets, &zip) {
            Some(i) => Some(&release.assets[i]),
            None => None,
        },
    }
}

// ---------------------------------------------------------------------------
// The decision
// ---------------------------------------------------------------------------
/// What checking a release gives, when the running version is `current`
/// and this platform's target is `target` (none on a platform without
/// release builds): an update when the release is newer and has an asset
/// for the target, else "up to date"; an error when a newer release cannot
/// be installed here.
pub open spec fn release_decision(
    release: ReleaseInfo,
    current: Seq<char>,
    target: Option<Seq<char>>,
    r: Result<CheckOutcome, String>,
) -> bool {
    let latest = normalized_version(release.tag_name@);
    if version_order(latest, current) == 1 {
        match target {
            None => r matches Err(e) && e@ == "unsupported platform for self-update"@,
            Some(t) => match asset_for(release.assets@, t) {
                None => r matches Err(e) && e@ == "no release asset found for target "@ + t,
                Some(i) => r matches Ok(CheckOutcome::Available(u)) && {
                    &&& u.current_version@ == current
                    &&& u.target_version@ == latest
                    &&& u.release_url@ == release.html_url@
                    &&& u.asset_name@ == release.assets@[i].name@
                    &&& u.download_url@ == release.assets@[i].download_url@
                    &&& u.release_notes@ == release_notes(release.body@)
                    &&& u.release_date@ == match release.release_date {
                        Some(d) => d@,
                        None => Seq::empty(),
                    }
                },
            },
        }
    } else {
        r matches Ok(CheckOutcome::UpToDate { current_version, release_date }) && current_version@
            == current && crate::model::opt_chars(release_date) == crate::model::opt_chars(
            release.release_date,
        )
    }
}

pub fn evaluate_release(release: ReleaseInfo, current_version: &str, target: Option<&str>) -> (r:
    Result<CheckOutcome, String>)
    ensures
        release_decision(
            release,
            current_version@,
            match target {
                Some(t) => Some(t@),
                None => None,
            },
            r,
        ),
{
    let latest_version = normalize_version(release.tag_name.as_str());
    match compare_versions(latest_version.as_str(), current_version) {
        Ordering::Greater => {
            let target = match target {
                Some(t) => t,
                None => {
                    return Err(owned("unsupported platform for self-update"));
                },
            };
            let asset = match select_release_asset(&release, target) {
                Some(a) => a,
                None => {
                    return Err(concat2("no release asset found for target ", target));
                },
            };
            let release_date = match &release.release_date {
                Some(d) => d.clone(),
                None => String::new(),
            };
            Ok(
                CheckOutcome::Available(
                    AvailableUpdate {
                        current_version: owned(current_version),
                        target_version: latest_version,
                        release_url: release.html_url.clone(),
                        asset_name: asset.name.clone(),
                        download_url: asset.download_url.clone(),
                        release_notes: normalize_release_notes(release.body.as_str()),
                        release_date,
                    },
                ),
            )
        },
        _ => Ok(
            CheckOutcome::UpToDate {
                current_version: owned(current_version),
                release_date: release.release_date,
            },
        ),
    }
}

} // verus!
