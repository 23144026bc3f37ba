//! The text of the raw output viewer: the command, when it ran and how it
//! ended, its output with the search matches highlighted, and the status
//! line with the search state and the key hints.
use vstd::prelude::*;

use crate::app::{App, SearchMatch, byte_len, utf8_len};
use crate::model::CommandOutput;
use crate::screen::{TextSpan, TextStyle, Tint, badge, line_views, span_views, tinted, tinted_bold};
use crate::model::CommandSourceId;
use crate::text::{
    chars_of, concat2, decimal, decimal_chars_u128, i32_string, lines, lines_of, owned, push_str,
    signed_decimal, slice_chars, string_of, views,
};

verus! {

// ---------------------------------------------------------------------------
// Byte offsets
// ---------------------------------------------------------------------------
/// The first character position `k` from `from` on at which the first `k`
/// characters take exactly `b` bytes: the character boundary at byte `b`.
pub open spec fn boundary_from(s: Seq<char>, b: int, from: int) -> Option<int>
    decreases s.len() + 1 - from,
{
    if from < 0 || from > s.len() {
        None
    } else if byte_len(s.take(from)) == b {
        Some(from)
    } else {
        boundary_from(s, b, from + 1)
    }
}

/// The character position at byte offset `b`, when `b` falls on a
/// character boundary (`str::is_char_boundary`).
pub open spec fn boundary(s: Seq<char>, b: int) -> Option<int> {
    boundary_from(s, b, 0)
}

proof fn lemma_byte_len_step(s: Seq<char>, k: int)
    requires
        0 <= k < s.len(),
    ensures
        byte_len(s.take(k + 1)) == byte_len(s.take(k)) + utf8_len(s[k]),
{
    assert(s.take(k + 1).drop_last() =~= s.take(k));
}

/// More characters take more bytes.
proof fn lemma_byte_len_increases(s: Seq<char>, i: int, j: int)
    requires
        0 <= i < j <= s.len(),
    ensures
        byte_len(s.take(i)) < byte_len(s.take(j)),
    decreases j - i,
{
    lemma_byte_len_step(s, j - 1);
    if i < j - 1 {
        lemma_byte_len_increases(s, i, j - 1);
    }
}

proof fn lemma_boundary_found(s: Seq<char>, b: int, from: int)
    requires
        boundary_from(s, b, from) matches Some(k),
    ensures
        boundary_from(s, b, from) matches Some(k) && from <= k <= s.len() && byte_len(s.take(k)) == b,
    decreases s.len() + 1 - from,
{
    if !(from < 0 || from > s.len()) && byte_len(s.take(from)) != b {
        lemma_boundary_found(s, b, from + 1);
    }
}

/// Boundaries keep the order of their byte offsets.
proof fn lemma_boundary_order(s: Seq<char>, x: int, y: int)
    requires
        boundary(s, x) is Some,
        boundary(s, y) is Some,
        x <= y,
    ensures
        boundary(s, x)->0 <= boundary(s, y)->0,
{
    lemma_boundary_found(s, x, 0);
    lemma_boundary_found(s, y, 0);
    let i = boundary(s, x)->0;
    let j = boundary(s, y)->0;
    if j < i {
        lemma_byte_len_increases(s, j, i);
    }
}

fn boundary_exec(s: &Vec<char>, b: usize) -> (r: Option<usize>)
    ensures
        match r {
            Some(k) => boundary(s@, b as int) == Some(k as int),
            None => boundary(s@, b as int) is None,
        },
{
    let mut k: usize = 0;
    let mut bytes: u128 = 0;
    assert(s@.take(0) =~= Seq::<char>::empty());
    loop
        invariant
            k <= s@.len(),
            bytes == byte_len(s@.take(k as int)),
            bytes <= 4 * k,
            boundary(s@, b as int) == boundary_from(s@, b as int, k as int),
        decreases s@.len() - k,
    {
        if bytes == b as u128 {
            return Some(k);
        }
        if k == s.len() {
            assert(boundary_from(s@, b as int, k + 1) is None);
            return None;
        }
        proof {
            lemma_byte_len_step(s@, k as int);
        }
        let u = crate::app::utf8_len_exec(s[k]) as u128;
        bytes = bytes + u;
        k = k + 1;
    }
}

// ---------------------------------------------------------------------------
// Highlighting
// ---------------------------------------------------------------------------
/// A match whose both ends fall on character boundaries.
pub open spec fn usable(s: Seq<char>, m: SearchMatch) -> bool {
    boundary(s, m.start_byte as int) is Some && boundary(s, m.end_byte as int) is Some
}

/// Every usable match starts no later than it ends (slicing the line
/// backwards would fail).
pub open spec fn matches_ordered(s: Seq<char>, ms: Seq<SearchMatch>) -> bool {
    forall|i: int| 0 <= i < ms.len() && usable(s, #[trigger] ms[i]) ==> ms[i].start_byte <= ms[i].end_byte
}

/// The pieces of a line after going through the matches in order, and the
/// byte offset where the last highlighted piece ended: the text between
/// the end of the previous piece and a usable match (when the match starts
/// after it), then the match highlighted.
pub open spec fn segment_scan(s: Seq<char>, ms: Seq<SearchMatch>) -> (Seq<(Seq<char>, bool)>, int)
    decreases ms.len(),
{
    if ms.len() == 0 {
        (Seq::empty(), 0)
    } else {
        let (done, last) = segment_scan(s, ms.drop_last());
        let m = ms.last();
        if usable(s, m) {
            let a = boundary(s, m.start_byte as int)->0;
            let b = boundary(s, m.end_byte as int)->0;
            let before = if m.start_byte > last && boundary(s, last) is Some {
                seq![(s.subrange(boundary(s, last)->0, a), false)]
            } else {
                Seq::empty()
            };
            (done + before + seq![(s.subrange(a, b), true)], m.end_byte as int)
        } else {
            (done, last)
        }
    }
}

/// A line cut into plain and highlighted pieces by its search matches; the
/// rest after the last highlighted piece ends it.
pub open spec fn segments(s: Seq<char>, ms: Seq<SearchMatch>) -> Seq<(Seq<char>, bool)> {
    let (done, last) = segment_scan(s, ms);
    if last < byte_len(s) && boundary(s, last) is Some {
        done.push((s.skip(boundary(s, last)->0), false))
    } else {
        done
    }
}

pub open spec fn segment_views(v: Seq<(String, bool)>) -> Seq<(Seq<char>, bool)> {
    v.map_values(|p: (String, bool)| (p.0@, p.1))
}

proof fn lemma_scan_last(s: Seq<char>, ms: Seq<SearchMatch>)
    ensures
        segment_scan(s, ms).1 == 0 || boundary(s, segment_scan(s, ms).1) is Some,
        segment_scan(s, ms).1 >= 0,
    decreases ms.len(),
{
    if ms.len() > 0 {
        lemma_scan_last(s, ms.drop_last());
    }
}

/// The pieces of line `text` that the matches `matches` cut it into, each
/// with whether it is highlighted.
pub fn highlight_segments(text: &str, matches: &[SearchMatch]) -> (r: Vec<(String, bool)>)
    requires
        matches_ordered(text@, matches@),
    ensures
        segment_views(r@) == segments(text@, matches@),
{
    let s = chars_of(text);
    let mut r: Vec<(String, bool)> = Vec::new();
    let mut last: usize = 0;
    let mut i: usize = 0;
    assert(matches@.take(0) =~= Seq::<SearchMatch>::empty());
    while i < matches.len()
        invariant
            s@ == text@,
            i <= matches@.len(),
            matches_ordered(text@, matches@),
            (segment_views(r@), last as int) == segment_scan(s@, matches@.take(i as int)),
        decreases matches@.len() - i,
    {
        let m = matches[i];
        let ghost prev = segment_views(r@);
        assert(matches@.take(i + 1).drop_last() =~= matches@.take(i as int));
        assert(matches@.take(i + 1).last() == m);
        proof {
            lemma_scan_last(s@, matches@.take(i as int));
        }
        let a = boundary_exec(&s, m.start_byte);
        let b = boundary_exec(&s, m.end_byte);
        if let (Some(a), Some(b)) = (a, b) {
            assert(usable(s@, matches@[i as int]));
            proof {
                lemma_boundary_found(s@, m.start_byte as int, 0);
                lemma_boundary_found(s@, m.end_byte as int, 0);
                lemma_boundary_order(s@, m.start_byte as int, m.end_byte as int);
            }
            if m.start_byte > last {
                match boundary_exec(&s, last) {
                    Some(l) => {
                        proof {
                            lemma_boundary_found(s@, last as int, 0);
                            lemma_boundary_order(s@, last as int, m.start_byte as int);
                        }
                        r.push((string_of(&slice_chars(&s, l, a)), false));
                    },
                    None => {},
                }
            }
            r.push((string_of(&slice_chars(&s, a, b)), true));
            last = m.end_byte;
            assert(segment_views(r@) =~= segment_scan(s@, matches@.take(i + 1)).0);
        } else {
            assert(!usable(s@, m));
        }
        i = i + 1;
    }
    assert(matches@.take(matches.len() as int) =~= matches@);
    let ghost done = segment_views(r@);
    proof {
        lemma_scan_last(s@, matches@);
    }
    if (last as u128) < byte_count_u128(&s) {
        if let Some(l) = boundary_exec(&s, last) {
            proof {
                lemma_boundary_found(s@, last as int, 0);
            }
            r.push((string_of(&slice_chars(&s, l, s.len())), false));
            assert(s@.subrange(l as int, s@.len() as int) =~= s@.skip(l as int));
            assert(segment_views(r@) =~= done.push((s@.skip(l as int), false)));
        }
    }
    r
}

fn byte_count_u128(s: &Vec<char>) -> (r: u128)
    ensures
        r == byte_len(s@),
{
    let mut n: u128 = 0;
    for k in 0..s.len()
        invariant
            n == byte_len(s@.take(k as int)),
            n <= 4 * k,
    {
        proof {
            lemma_byte_len_step(s@, k as int);
        }
        let u = crate::app::utf8_len_exec(s[k]) as u128;
        n = n + u;
    }
    assert(s@.take(s.len() as int) =~= s@);
    n
}

// ---------------------------------------------------------------------------
// The page
// ---------------------------------------------------------------------------
pub type Piece = (Seq<char>, TextStyle);

/// The matches on line `idx`, in order.
pub open spec fn on_line(ms: Seq<SearchMatch>, idx: int) -> Seq<SearchMatch>
    decreases ms.len(),
{
    if ms.len() == 0 {
        Seq::empty()
    } else {
        let p = on_line(ms.drop_last(), idx);
        if ms.last().line_index as int == idx {
            p.push(ms.last())
        } else {
            p
        }
    }
}

/// Output text: pale green after a clean run, soft red otherwise.
pub open spec fn output_style(ok: bool) -> TextStyle {
    tinted(if ok {
        Tint::PaleGreen
    } else {
        Tint::Salmon
    })
}

pub open spec fn match_style() -> TextStyle {
    badge(Tint::Black, Tint::Amber)
}

/// A piece of output in its style.
pub open spec fn styled(p: (Seq<char>, bool), ok: bool) -> Piece {
    (p.0, if p.1 {
        match_style()
    } else {
        output_style(ok)
    })
}

/// A line of output: one piece without matches; otherwise its pieces, the
/// matches highlighted.
pub open spec fn output_line(line: Seq<char>, ms: Seq<SearchMatch>, ok: bool) -> Seq<Piece> {
    if ms.len() == 0 {
        seq![(line, output_style(ok))]
    } else {
        let segs = segments(line, ms);
        Seq::new(segs.len(), |k: int| styled(segs[k], ok))
    }
}

pub open spec fn exit_text(code: Option<i32>) -> Seq<char> {
    match code {
        Some(c) => signed_decimal(c as int),
        None => "None"@,
    }
}

/// The lines of an output's text (its standard output, a line break and
/// its standard error), each with its matches.
pub open spec fn output_lines(ls: Seq<Seq<char>>, ms: Seq<SearchMatch>, ok: bool) -> Seq<Seq<Piece>> {
    Seq::new(ls.len(), |k: int| output_line(ls[k], on_line(ms, k), ok))
}

/// The viewer's page for the selected source, whose output ran at the time
/// that reads `executed_at`: the command line, when it ran and its exit
/// code, a blank line, then the output; or why there is nothing to show.
pub open spec fn raw_viewer_page(app: App, executed_at: Seq<char>) -> Seq<Seq<Piece>> {
    let rv = app.raw_viewer;
    if rv.selected_index < rv.sources@.len() {
        let id = rv.sources@[rv.selected_index as int];
        if app.command_outputs.view().dom().contains(id) {
            let out = app.command_outputs.view()[id];
            let ok = out.exit_code == Some(0i32);
            seq![
                seq![("$ "@, tinted_bold(Tint::Prompt)), (out.command@, tinted_bold(Tint::Prompt))],
                seq![
                    ("Executed: "@ + executed_at + "  |  Exit Code: "@, tinted(Tint::Gray)),
                    (exit_text(out.exit_code), tinted(if ok {
                        Tint::Prompt
                    } else {
                        Tint::Salmon
                    })),
                ],
                Seq::empty(),
            ] + output_lines(lines(out.stdout@ + "\n"@ + out.stderr@), rv.search_matches@, ok)
        } else {
            seq![seq![("Command execution history not found."@, tinted(Tint::Salmon))]]
        }
    } else {
        seq![seq![("No source selected."@, tinted(Tint::Salmon))]]
    }
}

/// Every search match starts no later than it ends.
pub open spec fn matches_forward(ms: Seq<SearchMatch>) -> bool {
    forall|i: int| 0 <= i < ms.len() ==> (#[trigger] ms[i]).start_byte <= ms[i].end_byte
}

fn piece(text: String, style: TextStyle) -> (r: TextSpan)
    ensures
        r.text@ == text@,
        r.style == style,
{
    TextSpan { text, style }
}

fn on_line_exec(ms: &Vec<SearchMatch>, idx: usize) -> (r: Vec<SearchMatch>)
    ensures
        r@ == on_line(ms@, idx as int),
        matches_forward(ms@) ==> matches_forward(r@),
{
    let mut r: Vec<SearchMatch> = Vec::new();
    for k in 0..ms.len()
        invariant
            r@ == on_line(ms@.take(k as int), idx as int),
            matches_forward(ms@) ==> matches_forward(r@),
    {
        assert(ms@.take(k + 1).drop_last() =~= ms@.take(k as int));
        if ms[k].line_index == idx {
            r.push(ms[k]);
        }
    }
    assert(ms@.take(ms.len() as int) =~= ms@);
    r
}

fn output_line_exec(line: &Vec<char>, ms: &Vec<SearchMatch>, ok: bool) -> (r: Vec<TextSpan>)
    requires
        matches_forward(ms@),
    ensures
        span_views(r@) == output_line(line@, ms@, ok),
{
    let text_style = TextStyle {
        fg: Some(if ok {
            Tint::PaleGreen
        } else {
            Tint::Salmon
        }),
        bg: None,
        bold: false,
        blink: false,
    };
    if ms.len() == 0 {
        let r = vec![piece(string_of(line), text_style)];
        assert(span_views(r@) =~= output_line(line@, ms@, ok));
        return r;
    }
    let text = string_of(line);
    let segs = highlight_segments(text.as_str(), ms.as_slice());
    let ghost sv = segment_views(segs@);
    let mut r: Vec<TextSpan> = Vec::new();
    for k in 0..segs.len()
        invariant
            sv == segment_views(segs@),
            text_style == output_style(ok),
            r@.len() == k,
            forall|j: int| 0 <= j < k ==> #[trigger] span_views(r@)[j] == styled(sv[j], ok),
    {
        let t = segs[k].0.clone();
        let hl = segs[k].1;
        assert(t@ == segs@[k as int].0@);
        assert(text_style == output_style(ok));
        let ghost before = r@;
        assert(forall|j: int| 0 <= j < k ==> #[trigger] span_views(before)[j] == styled(sv[j], ok));
        let style = if hl {
            TextStyle { fg: Some(Tint::Black), bg: Some(Tint::Amber), bold: true, blink: false }
        } else {
            text_style
        };
        assert(sv[k as int] == (segs@[k as int].0@, segs@[k as int].1));
        r.push(piece(t, style));
        assert(r@[k as int].text@ == sv[k as int].0);
        assert forall|j: int| 0 <= j < k + 1 implies #[trigger] span_views(r@)[j] == styled(sv[j], ok) by {
            if j < k {
                assert(r@[j] == before[j]);
                assert(span_views(before)[j] == styled(sv[j], ok));
            }
        }
    }
    assert(span_views(r@) =~= output_line(line@, ms@, ok));
    r
}

fn exit_text_exec(code: Option<i32>) -> (r: String)
    ensures
        r@ == exit_text(code),
{
    match code {
        Some(c) => i32_string(c),
        None => owned("None"),
    }
}

fn output_page(out: &CommandOutput, executed_at: &str, ms: &Vec<SearchMatch>) -> (r: Vec<Vec<TextSpan>>)
    requires
        matches_forward(ms@),
    ensures
        line_views(r@) == seq![
            seq![("$ "@, tinted_bold(Tint::Prompt)), (out.command@, tinted_bold(Tint::Prompt))],
            seq![
                ("Executed: "@ + executed_at@ + "  |  Exit Code: "@, tinted(Tint::Gray)),
                (exit_text(out.exit_code), tinted(if out.exit_code == Some(0i32) {
                    Tint::Prompt
                } else {
                    Tint::Salmon
                })),
            ],
            Seq::<Piece>::empty(),
        ] + output_lines(lines(out.stdout@ + "\n"@ + out.stderr@), ms@, out.exit_code == Some(0i32)),
{
    let ok = out.exit_code == Some(0i32);
    let prompt = TextStyle { fg: Some(Tint::Prompt), bg: None, bold: true, blink: false };
    let first = vec![piece(owned("$ "), prompt), piece(out.command.clone(), prompt)];
    let mut when = concat2("Executed: ", executed_at);
    push_str(&mut when, "  |  Exit Code: ");
    let second = vec![
        piece(when, TextStyle { fg: Some(Tint::Gray), bg: None, bold: false, blink: false }),
        piece(
            exit_text_exec(out.exit_code),
            TextStyle {
                fg: Some(if ok {
                    Tint::Prompt
                } else {
                    Tint::Salmon
                }),
                bg: None,
                bold: false,
                blink: false,
            },
        ),
    ];
    let third: Vec<TextSpan> = Vec::new();
    assert(span_views(third@) =~= Seq::<Piece>::empty());
    assert(span_views(first@) =~= seq![("$ "@, tinted_bold(Tint::Prompt)), (out.command@, tinted_bold(Tint::Prompt))]);
    assert(span_views(second@) =~= seq![
        ("Executed: "@ + executed_at@ + "  |  Exit Code: "@, tinted(Tint::Gray)),
        (exit_text(out.exit_code), tinted(if ok {
            Tint::Prompt
        } else {
            Tint::Salmon
        })),
    ]);
    let ghost head = seq![span_views(first@), span_views(second@), span_views(third@)];
    let mut r: Vec<Vec<TextSpan>> = vec![first, second, third];
    assert(line_views(r@) =~= head);
    let mut text = concat2(out.stdout.as_str(), "\n");
    push_str(&mut text, out.stderr.as_str());
    let ls = lines_of(&chars_of(text.as_str()));
    let ghost lv = views(ls@);
    for k in 0..ls.len()
        invariant
            lv == views(ls@),
            lv == lines(out.stdout@ + "\n"@ + out.stderr@),
            matches_forward(ms@),
            line_views(r@) == head + output_lines(lv, ms@, ok).take(k as int),
    {
        let on = on_line_exec(ms, k);
        let l = output_line_exec(&ls[k], &on, ok);
        assert(lv[k as int] == ls@[k as int]@);
        let ghost before = line_views(r@);
        r.push(l);
        assert(line_views(r@) =~= before.push(span_views(l@)));
        assert(output_lines(lv, ms@, ok).take(k + 1) =~= output_lines(lv, ms@, ok).take(k as int).push(
            output_line(lv[k as int], on_line(ms@, k as int), ok),
        ));
    }
    assert(output_lines(lv, ms@, ok).take(ls.len() as int) =~= output_lines(lv, ms@, ok));
    r
}

/// The lines of the raw output viewer's page; `executed_at` is the time
/// the selected output was taken, as the front end writes it.
pub fn raw_viewer_lines(app: &App, executed_at: &str) -> (r: Vec<Vec<TextSpan>>)
    requires
        matches_forward(app.raw_viewer.search_matches@),
    ensures
        line_views(r@) == raw_viewer_page(*app, executed_at@),
{
    let rv = &app.raw_viewer;
    let red = TextStyle { fg: Some(Tint::Salmon), bg: None, bold: false, blink: false };
    if rv.selected_index < rv.sources.len() {
        let id = rv.sources[rv.selected_index];
        match app.command_outputs.get(&id) {
            Some(out) => output_page(out, executed_at, &rv.search_matches),
            None => {
                let l = vec![piece(owned("Command execution history not found."), red)];
                assert(span_views(l@) =~= seq![("Command execution history not found."@, tinted(Tint::Salmon))]);
                let r = vec![l];
                assert(line_views(r@) =~= raw_viewer_page(*app, executed_at@));
                r
            },
        }
    } else {
        let l = vec![piece(owned("No source selected."), red)];
        assert(span_views(l@) =~= seq![("No source selected."@, tinted(Tint::Salmon))]);
        let r = vec![l];
        assert(line_views(r@) =~= raw_viewer_page(*app, executed_at@));
        r
    }
}

// ---------------------------------------------------------------------------
// The source tabs and the status line
// ---------------------------------------------------------------------------
/// A tab for each source, separated by bars, the selected one on the
/// prompt's green.
pub open spec fn source_tabs(srcs: Seq<CommandSourceId>, sel: int, os: Seq<char>) -> Seq<Piece>
    decreases srcs.len(),
{
    if srcs.len() == 0 {
        Seq::empty()
    } else {
        let k = srcs.len() - 1;
        source_tabs(srcs.drop_last(), sel, os) + (if k > 0 {
            seq![("  |  "@, tinted(Tint::DarkGray))]
        } else {
            Seq::empty()
        }) + seq![
            (" "@ + srcs.last().label(os) + " "@, if k == sel {
                badge(Tint::Black, Tint::Prompt)
            } else {
                tinted(Tint::PaleGreen)
            }),
        ]
    }
}

/// The top line of the viewer: its sources, on a machine whose operating
/// system is called `os`.
pub open spec fn raw_viewer_tabs_line(app: App, os: Seq<char>) -> Seq<Piece> {
    seq![("Sources: "@, tinted(Tint::DarkGray))] + source_tabs(
        app.raw_viewer.sources@,
        app.raw_viewer.selected_index as int,
        os,
    )
}

pub fn raw_viewer_tabs(app: &App, os: &str) -> (r: Vec<TextSpan>)
    ensures
        span_views(r@) == raw_viewer_tabs_line(*app, os@),
{
    let rv = &app.raw_viewer;
    let mut r: Vec<TextSpan> = vec![piece(owned("Sources: "), TextStyle { fg: Some(Tint::DarkGray), bg: None, bold: false, blink: false })];
    let ghost head = span_views(r@);
    assert(head =~= seq![("Sources: "@, tinted(Tint::DarkGray))]);
    let srcs = &rv.sources;
    for k in 0..srcs.len()
        invariant
            head == seq![("Sources: "@, tinted(Tint::DarkGray))],
            span_views(r@) == head + source_tabs(srcs@.take(k as int), rv.selected_index as int, os@),
    {
        let ghost before = span_views(r@);
        assert(srcs@.take(k + 1).drop_last() =~= srcs@.take(k as int));
        assert(srcs@.take(k + 1).last() == srcs@[k as int]);
        assert(srcs@.take(k + 1).len() == k + 1);
        if k > 0 {
            r.push(piece(owned("  |  "), TextStyle { fg: Some(Tint::DarkGray), bg: None, bold: false, blink: false }));
            assert(span_views(r@) =~= before + seq![("  |  "@, tinted(Tint::DarkGray))]);
        } else {
            assert(span_views(r@) =~= before + Seq::<Piece>::empty());
        }
        let mut label = owned(" ");
        push_str(&mut label, srcs[k].as_str(os));
        push_str(&mut label, " ");
        let style = if k == rv.selected_index {
            TextStyle { fg: Some(Tint::Black), bg: Some(Tint::Prompt), bold: true, blink: false }
        } else {
            TextStyle { fg: Some(Tint::PaleGreen), bg: None, bold: false, blink: false }
        };
        let ghost mid = span_views(r@);
        r.push(piece(label, style));
        assert(span_views(r@) =~= mid.push((label@, style)));
        proof {
            reveal_strlit("");
        }
        assert(span_views(r@) =~= head + source_tabs(srcs@.take(k + 1), rv.selected_index as int, os@));
    }
    assert(srcs@.take(srcs.len() as int) =~= srcs@);
    r
}

/// The bottom line of the viewer: the search being typed; or the search,
/// which match is shown out of how many, and the key hints; or the key
/// hints alone.
pub open spec fn raw_viewer_status_line(app: App) -> Seq<Piece> {
    let rv = app.raw_viewer;
    if rv.search_active {
        seq![
            ("Search: "@, tinted_bold(Tint::Yellow)),
            (rv.search_query@, tinted(Tint::White)),
            ("█"@, tinted(Tint::Yellow)),
        ]
    } else if rv.search_query@.len() > 0 {
        let current: nat = if rv.search_matches@.len() == 0 {
            0
        } else {
            (rv.current_match_index + 1) as nat
        };
        seq![
            ("Search: "@, tinted(Tint::Yellow)),
            (rv.search_query@ + " ("@ + decimal(current) + " / "@ + decimal(rv.search_matches@.len())
                + ")  -  n: Next, N: Prev  |  "@, tinted(Tint::White)),
            ("Esc/q/o: Close | Tab: Next Src | y: Copy Cmd | Y: Copy Output"@, tinted(Tint::LightGray)),
        ]
    } else {
        seq![
            ("Esc/q/o: Close | Tab: Next Src | y: Copy Cmd | Y: Copy Output | /: Search"@, tinted(Tint::Silver)),
        ]
    }
}

pub fn raw_viewer_status(app: &App) -> (r: Vec<TextSpan>)
    ensures
        span_views(r@) == raw_viewer_status_line(*app),
{
    let rv = &app.raw_viewer;
    let white = TextStyle { fg: Some(Tint::White), bg: None, bold: false, blink: false };
    if rv.search_active {
        let r = vec![
            piece(owned("Search: "), TextStyle { fg: Some(Tint::Yellow), bg: None, bold: true, blink: false }),
            piece(rv.search_query.clone(), white),
            piece(owned("█"), TextStyle { fg: Some(Tint::Yellow), bg: None, bold: false, blink: false }),
        ];
        assert(span_views(r@) =~= raw_viewer_status_line(*app));
        r
    } else if !rv.search_query.as_str().is_empty() {
        let total = rv.search_matches.len();
        let current: u128 = if total == 0 {
            0
        } else {
            rv.current_match_index as u128 + 1
        };
        let mut middle = rv.search_query.clone();
        push_str(&mut middle, " (");
        push_str(&mut middle, string_of(&decimal_chars_u128(current)).as_str());
        push_str(&mut middle, " / ");
        push_str(&mut middle, string_of(&decimal_chars_u128(total as u128)).as_str());
        push_str(&mut middle, ")  -  n: Next, N: Prev  |  ");
        let r = vec![
            piece(owned("Search: "), TextStyle { fg: Some(Tint::Yellow), bg: None, bold: false, blink: false }),
            piece(middle, white),
            piece(
                owned("Esc/q/o: Close | Tab: Next Src | y: Copy Cmd | Y: Copy Output"),
                TextStyle { fg: Some(Tint::LightGray), bg: None, bold: false, blink: false },
            ),
        ];
        assert(span_views(r@) =~= raw_viewer_status_line(*app));
        r
    } else {
        let r = vec![
            piece(
                owned("Esc/q/o: Close | Tab: Next Src | y: Copy Cmd | Y: Copy Output | /: Search"),
                TextStyle { fg: Some(Tint::Silver), bg: None, bold: false, blink: false },
            ),
        ];
        assert(span_views(r@) =~= raw_viewer_status_line(*app));
        r
    }
}

} // verus!
