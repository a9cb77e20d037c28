//! Text of the pull request screen.

use vstd::prelude::*;

use crate::app::{App, Pane};
use crate::cli::{pr_display, PrRef};
use crate::github::types::{PrDetail, ReviewThread, ReviewVerdict, ThreadSort, TimelineItem, TimelineKind};
use crate::text::{strip_cr, chars_of, decimal, decimal_string, find_char, is_first, split_once_spec, str_eq, string_of};
use super::{
    bold_look, hunk_line_count, hunk_line_spec, hunk_lines, hunk_start, hunk_tone, look, plain_look,
    age_at, age_text, sanitize_chars, sanitized, span, span_str, spans_view, strong_look, BodyLine,
    Look, Span, Tone,
};
use crate::text::lines_of;

verus! {

/// The first line of `s` as std's `str::lines` yields it (empty for an
/// empty `s`; a `\r` is dropped only before a `\n`).
pub open spec fn first_line_raw(s: Seq<char>) -> Seq<char> {
    match split_once_spec(s, '\n') {
        Some((a, _)) => strip_cr(a),
        None => s,
    }
}

/// `s` has a second line (something follows its first newline).
pub open spec fn has_more_lines(s: Seq<char>) -> bool {
    match split_once_spec(s, '\n') {
        Some((_, b)) => b.len() > 0,
        None => false,
    }
}

/// The list preview of a body: its sanitized first line cut to 80
/// characters, with an ellipsis when something was cut or more lines follow.
pub open spec fn first_line_spec(s: Seq<char>) -> Seq<char> {
    let l = sanitized(first_line_raw(s));
    let out = if l.len() <= 80 {
        l
    } else {
        l.take(80)
    };
    if l.len() > 80 || has_more_lines(s) {
        out.push('…')
    } else {
        out
    }
}

pub fn first_line(s: &str) -> (r: String)
    ensures
        r@ == first_line_spec(s@),
{
    let cs = chars_of(s);
    let (raw, more) = match crate::text::split_once(cs.as_slice(), '\n') {
        Some((a, b)) => {
            let mut a = a;
            if a.len() > 0 && a[a.len() - 1] == '\r' {
                a.pop();
            }
            (a, b.len() > 0)
        },
        None => (cs, false),
    };
    let l = sanitize_chars(raw.as_slice());
    let mut out: Vec<char> = if l.len() <= 80 {
        l.clone()
    } else {
        crate::text::slice_to_vec(l.as_slice(), 0, 80)
    };
    assert(l.len() > 80 ==> out@ =~= l@.take(80));
    if l.len() > 80 || more {
        out.push('…');
    }
    string_of(out.as_slice())
}

/// Terminal rows that a line of `w` cells takes at `width` cells a row (an
/// empty line still takes one).
pub open spec fn line_rows(w: int, width: int) -> int {
    let a = if w < 1 {
        1
    } else {
        w
    };
    a / width + (if a % width == 0 {
        0int
    } else {
        1int
    })
}

/// Rows taken by lines of widths `ws`.
pub open spec fn rows(ws: Seq<usize>, width: int) -> int
    decreases ws.len(),
{
    if ws.len() == 0 {
        0
    } else {
        rows(ws.drop_last(), width) + line_rows(ws.last() as int, width)
    }
}

proof fn lemma_rows_grow(ws: Seq<usize>, width: int, i: int, j: int)
    requires
        width >= 1,
        0 <= i <= j <= ws.len(),
    ensures
        rows(ws.take(i), width) <= rows(ws.take(j), width),
    decreases j - i,
{
    if i < j {
        lemma_rows_grow(ws, width, i, j - 1);
        assert(ws.take(j).drop_last() =~= ws.take(j - 1));
        assert(line_rows(ws[j - 1] as int, width) >= 0) by (nonlinear_arith)
            requires
                width >= 1,
        ;
    }
}

/// The rows before line `idx`, capped at `u16::MAX`.
pub open spec fn visual_row_spec(widths: Seq<usize>, idx: int, width: int) -> int {
    let n = if idx < widths.len() {
        idx
    } else {
        widths.len() as int
    };
    let total = rows(widths.take(n), width);
    if total < 65535 {
        total
    } else {
        65535
    }
}

/// Estimated visual row of logical line `idx` when lines of widths `widths`
/// wrap at `width` cells: the rows of the lines before it, capped at
/// `u16::MAX`. Word-wrapping can occasionally use one more row than this
/// estimate for long lines broken at word boundaries; close enough for
/// scroll targeting.
pub fn visual_row(widths: &[usize], idx: usize, width: u16) -> (r: u16)
    requires
        width >= 1,
    ensures
        r == visual_row_spec(widths@, idx as int, width as int),
{
    let n = if idx < widths.len() {
        idx
    } else {
        widths.len()
    };
    let mut acc: u64 = 0;
    let mut i: usize = 0;
    while i < n
        invariant
            i <= n <= widths.len(),
            n == (if idx < widths.len() {
                idx
            } else {
                widths.len()
            }),
            width >= 1,
            acc == rows(widths@.take(i as int), width as int),
            acc < u16::MAX,
        decreases n - i,
    {
        let w = widths[i];
        let a: usize = if w < 1 {
            1
        } else {
            w
        };
        let wd = width as usize;
        let q = a / wd;
        let extra: usize = if a % wd == 0 {
            0
        } else {
            1
        };
        proof {
            assert(widths@.take(i + 1).drop_last() =~= widths@.take(i as int));
            assert(widths@.take(i + 1).last() == w);
            assert(line_rows(w as int, width as int) == q + extra);
            assert(rows(widths@.take(i + 1), width as int) == acc + q + extra);
        }
        if q >= 65535 || acc + (q as u64) + (extra as u64) >= 65535 {
            proof {
                lemma_rows_grow(widths@, width as int, i + 1, n as int);
                assert(rows(widths@.take(i + 1), width as int) >= 65535);
                assert(rows(widths@.take(n as int), width as int) >= 65535);
            }
            return 65535;
        }
        acc = acc + (q as u64) + (extra as u64);
        i = i + 1;
    }
    acc as u16
}

/// Lines further down never sit higher.
pub proof fn law_visual_row_monotone(widths: Seq<usize>, i: int, j: int, width: int)
    requires
        width >= 1,
        0 <= i <= j,
    ensures
        visual_row_spec(widths, i, width) <= visual_row_spec(widths, j, width),
{
    let ni = if i < widths.len() {
        i
    } else {
        widths.len() as int
    };
    let nj = if j < widths.len() {
        j
    } else {
        widths.len() as int
    };
    lemma_rows_grow(widths, width, ni, nj);
}

/// A preview never exceeds 80 characters and the ellipsis.
pub proof fn law_first_line_short(s: Seq<char>)
    ensures
        first_line_spec(s).len() <= 81,
{
}

/// Where a thread sits: `path:line`, or the path alone.
pub open spec fn location_label(path: Seq<char>, line: Option<u64>) -> Seq<char> {
    match line {
        Some(l) => path + ":"@ + decimal(l as nat),
        None => path,
    }
}

pub fn location(path: &String, line: Option<u64>) -> (r: String)
    ensures
        r@ == location_label(path@, line),
{
    let mut r = path.clone();
    if let Some(l) = line {
        r.append(":");
        let d = decimal_string(l);
        r.append(d.as_str());
    }
    r
}

/// The tag after the title: drafts show `[DRAFT]`, any other state shows
/// as `[STATE]`, in a colour for open, merged and closed.
pub open spec fn state_tag_spec(state: Seq<char>, is_draft: bool) -> (Seq<char>, Tone) {
    if is_draft {
        ("[DRAFT]"@, Tone::Dim)
    } else {
        ("["@ + state + "]"@, if state == "OPEN"@ {
            Tone::Green
        } else if state == "MERGED"@ {
            Tone::Magenta
        } else if state == "CLOSED"@ {
            Tone::Red
        } else {
            Tone::Plain
        })
    }
}

pub fn state_tag(state: &str, is_draft: bool) -> (r: (String, Tone))
    ensures
        (r.0@, r.1) == state_tag_spec(state@, is_draft),
{
    if is_draft {
        return (String::from_str("[DRAFT]"), Tone::Dim);
    }
    let mut t = String::from_str("[");
    t.append(state);
    t.append("]");
    let tone = if str_eq(state, "OPEN") {
        Tone::Green
    } else if str_eq(state, "MERGED") {
        Tone::Magenta
    } else if str_eq(state, "CLOSED") {
        Tone::Red
    } else {
        Tone::Plain
    };
    (t, tone)
}

/// The Conversation tab's label.
pub fn conversation_tab(timeline_len: usize) -> (r: String)
    ensures
        r@ == " [1] Conversation ("@ + decimal(timeline_len as nat) + ") "@,
{
    let mut r = String::from_str(" [1] Conversation (");
    let d = decimal_string(timeline_len as u64);
    r.append(d.as_str());
    r.append(") ");
    r
}

/// The Threads tab's label: open and total counts and the sort order.
pub fn threads_tab(unresolved: usize, threads: usize, sort: ThreadSort) -> (r: String)
    ensures
        r@ == " [2] Threads ("@ + decimal(unresolved as nat) + " open / "@ + decimal(
            threads as nat,
        ) + " · by "@ + (match sort {
            ThreadSort::Position => "file"@,
            ThreadSort::Activity => "recent"@,
        }) + ") "@,
{
    let mut r = String::from_str(" [2] Threads (");
    let u = decimal_string(unresolved as u64);
    r.append(u.as_str());
    r.append(" open / ");
    let t = decimal_string(threads as u64);
    r.append(t.as_str());
    r.append(" · by ");
    match sort {
        ThreadSort::Position => r.append("file"),
        ThreadSort::Activity => r.append("recent"),
    }
    r.append(") ");
    r
}

/// The title of the pull request pane before the pull request has loaded:
/// its reference, if any, between spaces.
pub fn pending_title(current: &Option<PrRef>) -> (r: String)
    ensures
        r@ == " "@ + (match current {
            Some(p) => pr_display(p.owner@, p.repo@, p.number),
            None => Seq::<char>::empty(),
        }) + " "@,
{
    let mut r = String::from_str(" ");
    if let Some(p) = current {
        let t = p.to_string();
        r.append(t.as_str());
    }
    r.append(" ");
    r
}

/// What the body pane of the pull request screen shows.
pub enum BodyPane {
    /// A dimmed note in place of a body.
    Note(&'static str),
    /// The body of timeline entry `i`.
    Timeline(usize),
    /// The body of review thread `i`.
    Thread(usize),
}

/// The body pane's choice: while no pull request is loaded, "loading…" (or
/// nothing once loading has ended); on the Conversation pane the selected
/// timeline entry, else a hint to comment; on the Threads pane the selected
/// thread, else a note that there is none.
pub open spec fn body_pane_spec(app: App, r: BodyPane) -> bool {
    match app.detail {
        None => r matches BodyPane::Note(t) && t@ == (if app.loading {
            "loading…"@
        } else {
            ""@
        }),
        Some(d) => match app.pane {
            Pane::Conversation => match app.timeline_selected {
                Some(i) if i < d.timeline@.len() => r == BodyPane::Timeline(i),
                _ => r matches BodyPane::Note(t) && t@
                    == "no conversation comments yet — press c to add one"@,
            },
            Pane::Threads => match app.thread_selected {
                Some(i) if i < d.threads@.len() => r == BodyPane::Thread(i),
                _ => r matches BodyPane::Note(t) && t@ == "no review threads"@,
            },
        },
    }
}

pub fn body_pane(app: &App) -> (r: BodyPane)
    ensures
        body_pane_spec(*app, r),
{
    match &app.detail {
        None => BodyPane::Note(
            if app.loading {
                "loading…"
            } else {
                ""
            },
        ),
        Some(d) => match app.pane {
            Pane::Conversation => match app.timeline_selected {
                Some(i) => if i < d.timeline.len() {
                    BodyPane::Timeline(i)
                } else {
                    BodyPane::Note("no conversation comments yet — press c to add one")
                },
                None => BodyPane::Note("no conversation comments yet — press c to add one"),
            },
            Pane::Threads => match app.thread_selected {
                Some(i) => if i < d.threads.len() {
                    BodyPane::Thread(i)
                } else {
                    BodyPane::Note("no review threads")
                },
                None => BodyPane::Note("no review threads"),
            },
        },
    }
}

/// The marker of a timeline entry.
pub open spec fn verdict_spec(kind: TimelineKind) -> (Seq<char>, Look) {
    match kind {
        TimelineKind::Comment => ("💬"@, look(Tone::Plain)),
        TimelineKind::Review(ReviewVerdict::Approved) => ("✔ approved"@, look(Tone::Green)),
        TimelineKind::Review(ReviewVerdict::ChangesRequested) => (
            "✖ changes requested"@,
            look(Tone::Red),
        ),
        TimelineKind::Review(ReviewVerdict::Commented) => ("👁 reviewed"@, look(Tone::Yellow)),
        TimelineKind::Review(ReviewVerdict::Dismissed) => ("∅ dismissed"@, look(Tone::Dim)),
        TimelineKind::Review(ReviewVerdict::Other) => ("• review"@, look(Tone::Dim)),
    }
}

pub fn verdict_span(kind: TimelineKind) -> (r: Span)
    ensures
        (r.text@, r.look) == verdict_spec(kind),
{
    match kind {
        TimelineKind::Comment => span_str("💬", plain_look(Tone::Plain)),
        TimelineKind::Review(ReviewVerdict::Approved) => span_str("✔ approved", plain_look(Tone::Green)),
        TimelineKind::Review(ReviewVerdict::ChangesRequested) => span_str(
            "✖ changes requested",
            plain_look(Tone::Red),
        ),
        TimelineKind::Review(ReviewVerdict::Commented) => span_str("👁 reviewed", plain_look(Tone::Yellow)),
        TimelineKind::Review(ReviewVerdict::Dismissed) => span_str("∅ dismissed", plain_look(Tone::Dim)),
        TimelineKind::Review(ReviewVerdict::Other) => span_str("• review", plain_look(Tone::Dim)),
    }
}

/// The title line: number and title in bold, then the state tag.
pub open spec fn title_spec(d: PrDetail) -> Seq<(Seq<char>, Look)> {
    let (tag, tone) = state_tag_spec(d.state@, d.is_draft);
    seq![
        ("#"@ + decimal(d.number as nat) + " "@ + d.title@, bold_look(Tone::Plain)),
        (" "@, look(Tone::Plain)),
        (tag, look(tone)),
    ]
}

pub fn title_spans(d: &PrDetail) -> (r: Vec<Span>)
    ensures
        spans_view(r@) == title_spec(*d),
{
    let mut t = String::from_str("#");
    let n = decimal_string(d.number);
    t.append(n.as_str());
    t.append(" ");
    t.append(d.title.as_str());
    let mut r: Vec<Span> = Vec::new();
    r.push(span(t, strong_look(Tone::Plain)));
    r.push(span_str(" ", plain_look(Tone::Plain)));
    let (tag, tone) = state_tag(d.state.as_str(), d.is_draft);
    r.push(span(tag, plain_look(tone)));
    assert(spans_view(r@) =~= title_spec(*d));
    r
}

/// The line under the title: author and branches, and whether older
/// timeline entries were left out.
pub fn meta_text(d: &PrDetail) -> (r: String)
    ensures
        ({
            let base = "by "@ + d.author@ + " · "@ + d.base_ref@ + " ← "@ + d.head_ref@;
            r@ == if d.timeline_truncated {
                base + " · (older timeline items omitted)"@
            } else {
                base
            }
        }),
{
    let mut r = String::from_str("by ");
    r.append(d.author.as_str());
    r.append(" · ");
    r.append(d.base_ref.as_str());
    r.append(" ← ");
    r.append(d.head_ref.as_str());
    if d.timeline_truncated {
        r.append(" · (older timeline items omitted)");
    }
    r
}

/// The look of the active tab.
pub open spec fn active_look() -> Look {
    Look { tone: Tone::Cyan, bold: true, underlined: true }
}

/// The tab line, the active pane highlighted.
pub fn tabs_spans(
    pane: Pane,
    sort: ThreadSort,
    timeline_len: usize,
    unresolved: usize,
    threads: usize,
) -> (r: Vec<Span>)
    ensures
        r@.len() == 2,
        r@[0].text@ == " [1] Conversation ("@ + decimal(timeline_len as nat) + ") "@,
        r@[1].text@ == " [2] Threads ("@ + decimal(unresolved as nat) + " open / "@ + decimal(
            threads as nat,
        ) + " · by "@ + (match sort {
            ThreadSort::Position => "file"@,
            ThreadSort::Activity => "recent"@,
        }) + ") "@,
        r@[0].look == (if pane == Pane::Conversation {
            active_look()
        } else {
            look(Tone::Dim)
        }),
        r@[1].look == (if pane == Pane::Threads {
            active_look()
        } else {
            look(Tone::Dim)
        }),
{
    let active = Look { tone: Tone::Cyan, bold: true, underlined: true };
    let dim = plain_look(Tone::Dim);
    let conv = conversation_tab(timeline_len);
    let thr = threads_tab(unresolved, threads, sort);
    let mut r: Vec<Span> = Vec::new();
    match pane {
        Pane::Conversation => {
            r.push(span(conv, active));
            r.push(span(thr, dim));
        },
        Pane::Threads => {
            r.push(span(conv, dim));
            r.push(span(thr, active));
        },
    }
    r
}

/// A timeline row: marker, author, age and the body's first line.
pub open spec fn timeline_item_spec(item: TimelineItem, now: Option<i128>) -> Seq<(Seq<char>, Look)> {
    seq![
        verdict_spec(item.kind),
        (" "@, look(Tone::Plain)),
        (item.author@, look(Tone::Cyan)),
        (" · "@ + age_text(now, item.created_at) + " · "@, look(Tone::Dim)),
        (first_line_spec(item.body@), look(Tone::Plain)),
    ]
}

pub fn timeline_item_spans(item: &TimelineItem, now: Option<i128>) -> (r: Vec<Span>)
    ensures
        spans_view(r@) == timeline_item_spec(*item, now),
{
    let mut r: Vec<Span> = Vec::new();
    r.push(verdict_span(item.kind));
    r.push(span_str(" ", plain_look(Tone::Plain)));
    r.push(span(item.author.clone(), plain_look(Tone::Cyan)));
    let mut meta = String::from_str(" · ");
    let age = age_at(now, item.created_at);
    meta.append(age.as_str());
    meta.append(" · ");
    r.push(span(meta, plain_look(Tone::Dim)));
    r.push(span(first_line(item.body.as_str()), plain_look(Tone::Plain)));
    assert(spans_view(r@) =~= timeline_item_spec(*item, now));
    r
}

/// The header of a timeline entry's body.
pub open spec fn timeline_header_spec(item: TimelineItem, now: Option<i128>) -> Seq<(Seq<char>, Look)> {
    seq![
        verdict_spec(item.kind),
        (" "@, look(Tone::Plain)),
        (item.author@, bold_look(Tone::Cyan)),
        (" · "@ + age_text(now, item.created_at), look(Tone::Dim)),
    ]
}

/// A timeline entry's body: header, blank line, then the body (markdown
/// number 0).
pub fn timeline_body_lines(item: &TimelineItem, now: Option<i128>) -> (r: Vec<BodyLine>)
    ensures
        r@.len() == 3,
        r@[0] matches BodyLine::Spans { spans, reversed } && spans_view(spans@)
            == timeline_header_spec(*item, now) && !reversed,
        r@[1] matches BodyLine::Spans { spans, reversed } && spans@.len() == 0 && !reversed,
        r@[2] == BodyLine::Markdown(0),
{
    let mut h: Vec<Span> = Vec::new();
    h.push(verdict_span(item.kind));
    h.push(span_str(" ", plain_look(Tone::Plain)));
    h.push(span(item.author.clone(), strong_look(Tone::Cyan)));
    let mut meta = String::from_str(" · ");
    let age = age_at(now, item.created_at);
    meta.append(age.as_str());
    h.push(span(meta, plain_look(Tone::Dim)));
    assert(spans_view(h@) =~= timeline_header_spec(*item, now));
    let mut r: Vec<BodyLine> = Vec::new();
    r.push(BodyLine::Spans { spans: h, reversed: false });
    r.push(BodyLine::Spans { spans: Vec::new(), reversed: false });
    r.push(BodyLine::Markdown(0));
    r
}

/// The resolution mark of a thread in the list.
pub open spec fn thread_mark_spec(t: ReviewThread) -> (Seq<char>, Look) {
    if t.is_resolved {
        ("✓"@, look(Tone::Green))
    } else {
        ("●"@, look(Tone::Red))
    }
}

/// A thread row: mark, location, then first author, comment count (loaded
/// and not) and age, and whether the thread is outdated.
pub open spec fn thread_item_spec(t: ReviewThread, now: Option<i128>) -> Seq<(Seq<char>, Look)> {
    let first_author = if t.comments@.len() > 0 {
        t.comments@[0].author@
    } else {
        Seq::<char>::empty()
    };
    let row = seq![
        thread_mark_spec(t),
        (" "@, look(Tone::Plain)),
        (location_label(t.path@, t.line), look(Tone::Plain)),
        (" · "@ + first_author + " · 💬"@ + decimal((t.comments@.len() + t.hidden_count) as nat)
            + " · "@ + age_text(now, t.last_activity), look(Tone::Dim)),
    ];
    if t.is_outdated {
        row.push((" (outdated)"@, look(Tone::Dim)))
    } else {
        row
    }
}

pub fn thread_item_spans(t: &ReviewThread, now: Option<i128>) -> (r: Vec<Span>)
    ensures
        spans_view(r@) == thread_item_spec(*t, now),
{
    let mut r: Vec<Span> = Vec::new();
    if t.is_resolved {
        r.push(span_str("✓", plain_look(Tone::Green)));
    } else {
        r.push(span_str("●", plain_look(Tone::Red)));
    }
    r.push(span_str(" ", plain_look(Tone::Plain)));
    r.push(span(location(&t.path, t.line), plain_look(Tone::Plain)));
    let mut meta = String::from_str(" · ");
    if t.comments.len() > 0 {
        meta.append(t.comments[0].author.as_str());
    }
    meta.append(" · 💬");
    let count = crate::text::decimal_string_u128(t.comments.len() as u128 + t.hidden_count as u128);
    meta.append(count.as_str());
    meta.append(" · ");
    let age = age_at(now, t.last_activity);
    meta.append(age.as_str());
    r.push(span(meta, plain_look(Tone::Dim)));
    if t.is_outdated {
        r.push(span_str(" (outdated)", plain_look(Tone::Dim)));
    }
    assert(spans_view(r@) =~= thread_item_spec(*t, now));
    r
}

/// How many diff lines a thread body shows at most.
pub const HUNK_TAIL_LINES: usize = 8;

/// The lines of a thread body before its comments: the title line, the
/// diff hunk's tail (if there is a hunk), and the note on comments not
/// loaded (if any).
pub open spec fn body_prefix(t: ReviewThread) -> int {
    1 + (if t.diff_hunk@.len() > 0 {
        hunk_line_count(t.diff_hunk@, 8)
    } else {
        0
    }) + (if t.hidden_count > 0 {
        1int
    } else {
        0int
    })
}

/// The selected comment, kept within the comments there are.
pub open spec fn clamp_comment(sel: int, n: int) -> int {
    if n == 0 {
        0
    } else if sel < n - 1 {
        sel
    } else {
        n - 1
    }
}

/// Rows taken by the first `k` comments: a blank line, the header, and
/// `md[j]` rows of body each.
pub open spec fn comment_rows(md: Seq<usize>, k: int) -> int
    decreases k,
{
    if k <= 0 {
        0
    } else {
        comment_rows(md, k - 1) + 2 + md[k - 1]
    }
}

proof fn lemma_comment_rows_grow(md: Seq<usize>, i: int, j: int)
    requires
        0 <= i <= j,
    ensures
        comment_rows(md, i) <= comment_rows(md, j),
    decreases j - i,
{
    if i < j {
        lemma_comment_rows_grow(md, i, j - 1);
    }
}

/// The header of comment `i`: a marker when selected, author, age.
pub open spec fn comment_header_spec(t: ReviewThread, i: int, selected: bool, now: Option<i128>) -> Seq<
    (Seq<char>, Look),
> {
    let head = if selected {
        seq![("▶ "@, look(Tone::Plain))]
    } else {
        Seq::empty()
    };
    head + seq![
        (t.comments@[i].author@, bold_look(Tone::Cyan)),
        (" · "@ + age_text(now, t.comments@[i].created_at), look(Tone::Dim)),
    ]
}

/// `l` is an unhighlighted line of the given pieces.
pub open spec fn plain_line(l: BodyLine, pieces: Seq<(Seq<char>, Look)>) -> bool {
    l matches BodyLine::Spans { spans, reversed } && spans_view(spans@) == pieces && !reversed
}

/// Lines `p + 3 * i` to `p + 3 * i + 2` hold comment `i`: a blank line, its
/// header (reversed when it is the selected comment `s`), and its body.
pub open spec fn comment_block(
    l: Seq<BodyLine>,
    p: int,
    t: ReviewThread,
    i: int,
    s: int,
    now: Option<i128>,
) -> bool {
    &&& plain_line(l[p + 3 * i], Seq::empty())
    &&& l[p + 3 * i + 1] matches BodyLine::Spans { spans, reversed } && spans_view(spans@)
        == comment_header_spec(t, i, i == s, now) && reversed == (i == s)
    &&& l[p + 3 * i + 2] == BodyLine::Markdown(i as usize)
}

/// The body of a review thread, `sel` being the selected comment and
/// `md_rows[i]` the rows that comment `i`'s rendered markdown takes.
/// Returns the lines and the row of the selected comment's header (0 when
/// there are no comments).
#[verifier::spinoff_prover]
pub fn thread_body_lines(t: &ReviewThread, sel: usize, now: Option<i128>, md_rows: &[usize]) -> (r: (
    Vec<BodyLine>,
    usize,
))
    requires
        md_rows@.len() == t.comments@.len(),
        body_prefix(*t) + comment_rows(md_rows@, md_rows@.len() as int) <= usize::MAX,
    ensures
        ({
            let n = t.comments@.len() as int;
            let p = body_prefix(*t);
            let s = clamp_comment(sel as int, n);
            let hc = if t.diff_hunk@.len() > 0 {
                hunk_line_count(t.diff_hunk@, 8)
            } else {
                0
            };
            &&& r.0@.len() == p + 3 * n
            &&& plain_line(
                r.0@[0],
                seq![
                    (location_label(t.path@, t.line), bold_look(Tone::Plain)),
                    if t.is_resolved {
                        (" · resolved ✓"@, look(Tone::Green))
                    } else {
                        (" · unresolved ●"@, look(Tone::Red))
                    },
                ],
            )
            &&& forall|k: int|
                0 <= k < hc ==> plain_line(
                    #[trigger] r.0@[1 + k],
                    seq![
                        (hunk_line_spec(t.diff_hunk@, 8, k).1, look(
                            hunk_line_spec(t.diff_hunk@, 8, k).0,
                        )),
                    ],
                )
            &&& t.hidden_count > 0 ==> plain_line(
                r.0@[1 + hc],
                seq![
                    ("(+"@ + decimal(t.hidden_count as nat) + " earlier comments not loaded)"@, look(
                        Tone::Dim,
                    )),
                ],
            )
            &&& forall|i: int| 0 <= i < n ==> #[trigger] comment_block(r.0@, p, *t, i, s, now)
            &&& r.1 == (if n == 0 {
                0
            } else {
                p + comment_rows(md_rows@, s) + 1
            })
        }),
{
    let n = t.comments.len();
    let s: usize = if n == 0 {
        0
    } else if sel < n - 1 {
        sel
    } else {
        n - 1
    };
    let mut lines: Vec<BodyLine> = Vec::new();
    let mut title: Vec<Span> = Vec::new();
    title.push(span(location(&t.path, t.line), strong_look(Tone::Plain)));
    if t.is_resolved {
        title.push(span_str(" · resolved ✓", plain_look(Tone::Green)));
    } else {
        title.push(span_str(" · unresolved ●", plain_look(Tone::Red)));
    }
    assert(spans_view(title@) =~= seq![
        (location_label(t.path@, t.line), bold_look(Tone::Plain)),
        if t.is_resolved {
            (" · resolved ✓"@, look(Tone::Green))
        } else {
            (" · unresolved ●"@, look(Tone::Red))
        },
    ]);
    lines.push(BodyLine::Spans { spans: title, reversed: false });
    let ghost hc: int = if t.diff_hunk@.len() > 0 {
        hunk_line_count(t.diff_hunk@, 8)
    } else {
        0
    };
    if !t.diff_hunk.as_str().is_empty() {
        proof {
            assert(t.diff_hunk@.len() > 0);
        }
        let hl = hunk_lines(t.diff_hunk.as_str(), HUNK_TAIL_LINES);
        let total = hl.len();
        let mut rest = hl;
        let ghost all = rest@;
        let mut k: usize = 0;
        while rest.len() > 0
            invariant
                k + rest@.len() == all.len(),
                all.len() == total,
                all.len() == hc,
                rest@ == all.skip(k as int),
                forall|j: int|
                    0 <= j < all.len() ==> ((#[trigger] all[j]).0, all[j].1@) == hunk_line_spec(
                        t.diff_hunk@,
                        8,
                        j,
                    ),
                lines@.len() == 1 + k,
                plain_line(
                    lines@[0],
                    seq![
                        (location_label(t.path@, t.line), bold_look(Tone::Plain)),
                        if t.is_resolved {
                            (" · resolved ✓"@, look(Tone::Green))
                        } else {
                            (" · unresolved ●"@, look(Tone::Red))
                        },
                    ],
                ),
                forall|j: int|
                    0 <= j < k ==> plain_line(
                        #[trigger] lines@[1 + j],
                        seq![
                            (hunk_line_spec(t.diff_hunk@, 8, j).1, look(
                                hunk_line_spec(t.diff_hunk@, 8, j).0,
                            )),
                        ],
                    ),
            decreases rest.len(),
        {
            let (tone, text) = rest.remove(0);
            assert(rest@ =~= all.skip(k + 1));
            let mut one: Vec<Span> = Vec::new();
            one.push(span(text, plain_look(tone)));
            assert(spans_view(one@) =~= seq![(hunk_line_spec(t.diff_hunk@, 8, k as int).1, look(
                hunk_line_spec(t.diff_hunk@, 8, k as int).0,
            ))]);
            let ghost prev = lines@;
            lines.push(BodyLine::Spans { spans: one, reversed: false });
            proof {
                assert forall|j: int| 0 <= j < k + 1 implies plain_line(
                    #[trigger] lines@[1 + j],
                    seq![
                        (hunk_line_spec(t.diff_hunk@, 8, j).1, look(
                            hunk_line_spec(t.diff_hunk@, 8, j).0,
                        )),
                    ],
                ) by {
                    if j < k {
                        assert(lines@[1 + j] == prev[1 + j]);
                    }
                }
                assert(lines@[0] == prev[0]);
            }
            k = k + 1;
        }
    }
    if t.hidden_count > 0 {
        let mut note = String::from_str("(+");
        let d = decimal_string(t.hidden_count);
        note.append(d.as_str());
        note.append(" earlier comments not loaded)");
        let mut one: Vec<Span> = Vec::new();
        one.push(span(note, plain_look(Tone::Dim)));
        let ghost prev = lines@;
        lines.push(BodyLine::Spans { spans: one, reversed: false });
        proof {
            assert forall|j: int| 0 <= j < hc implies #[trigger] lines@[1 + j] == prev[1 + j] by {}
            assert(lines@[0] == prev[0]);
            assert(spans_view(one@) =~= seq![
                ("(+"@ + decimal(t.hidden_count as nat) + " earlier comments not loaded)"@, look(
                    Tone::Dim,
                )),
            ]);
        }
    }
    let p = lines.len();
    let ghost prefix = lines@;
    let mut header_idx: usize = 0;
    let mut acc: usize = p;
    let mut i: usize = 0;
    proof {
        lemma_comment_rows_grow(md_rows@, 0, n as int);
    }
    while i < n
        invariant
            i <= n == t.comments@.len() == md_rows@.len(),
            p == body_prefix(*t),
            p + comment_rows(md_rows@, n as int) <= usize::MAX,
            s == clamp_comment(sel as int, n as int),
            acc == p + comment_rows(md_rows@, i as int),
            lines@.len() == p + 3 * i,
            lines@.take(p as int) == prefix,
            header_idx == (if i > s {
                p + comment_rows(md_rows@, s as int) + 1
            } else {
                0
            }),
            forall|j: int| 0 <= j < i ==> #[trigger] comment_block(lines@, p as int, *t, j, s as int, now),
        decreases n - i,
    {
        proof {
            lemma_comment_rows_grow(md_rows@, i + 1, n as int);
        }
        let ghost prev = lines@;
        let blank: Vec<Span> = Vec::new();
        assert(spans_view(blank@) =~= Seq::<(Seq<char>, Look)>::empty());
        lines.push(BodyLine::Spans { spans: blank, reversed: false });
        let mut header: Vec<Span> = Vec::new();
        let selected = i == s;
        if selected {
            header_idx = acc + 1;
            header.push(span_str("▶ ", plain_look(Tone::Plain)));
        }
        header.push(span(t.comments[i].author.clone(), strong_look(Tone::Cyan)));
        let mut meta = String::from_str(" · ");
        let age = age_at(now, t.comments[i].created_at);
        meta.append(age.as_str());
        header.push(span(meta, plain_look(Tone::Dim)));
        assert(spans_view(header@) =~= comment_header_spec(*t, i as int, selected, now));
        lines.push(BodyLine::Spans { spans: header, reversed: selected });
        lines.push(BodyLine::Markdown(i));
        acc = acc + 2 + md_rows[i];
        proof {
            assert(plain_line(lines@[p + 3 * i], Seq::empty()));
            assert(lines@[p + 3 * i + 2] == BodyLine::Markdown(i));
            assert(comment_block(lines@, p as int, *t, i as int, s as int, now));
            assert forall|j: int| 0 <= j < i + 1 implies #[trigger] comment_block(
                lines@,
                p as int,
                *t,
                j,
                s as int,
                now,
            ) by {
                if j < i {
                    assert(comment_block(prev, p as int, *t, j, s as int, now));
                    assert(lines@[p + 3 * j] == prev[p + 3 * j]);
                    assert(lines@[p + 3 * j + 1] == prev[p + 3 * j + 1]);
                    assert(lines@[p + 3 * j + 2] == prev[p + 3 * j + 2]);
                }
            }
            assert(lines@.take(p as int) =~= prev.take(p as int));
        }
        i = i + 1;
    }
    proof {
        assert(lines@.take(p as int) == prefix);
        assert(lines@[0] == prefix[0]);
        assert forall|k: int| 0 <= k < hc implies #[trigger] lines@[1 + k] == prefix[1 + k] by {}
        if t.hidden_count > 0 {
            assert(lines@[1 + hc] == prefix[1 + hc]);
        }
    }
    (lines, header_idx)
}

} // verus!
