//! What the screens show, as text: terminal-safe lines and ages.

pub mod compose;
pub mod pr_detail;
pub mod pr_list;

use vstd::prelude::*;

use crate::text::{chars_of, decimal, decimal_string, decimal_string_u128, lines, lines_of, string_of};
use crate::app::{App, Screen};
use crate::time::{as_second, now_nanos, whole_seconds};

verus! {

/// The colour a piece of text is shown in.
#[derive(Debug, Clone, Copy, PartialEq, Eq, Structural)]
pub enum Tone {
    Plain,
    Dim,
    Green,
    Red,
    Yellow,
    Magenta,
    Cyan,
    Blue,
}

/// How a piece of text looks: its colour (or dimmed), and whether it is
/// bold and underlined.
#[derive(Debug, Clone, Copy, PartialEq, Eq, Structural)]
pub struct Look {
    pub tone: Tone,
    pub bold: bool,
    pub underlined: bool,
}

pub open spec fn look(tone: Tone) -> Look {
    Look { tone, bold: false, underlined: false }
}

pub open spec fn bold_look(tone: Tone) -> Look {
    Look { tone, bold: true, underlined: false }
}

pub fn plain_look(tone: Tone) -> (r: Look)
    ensures
        r == look(tone),
{
    Look { tone, bold: false, underlined: false }
}

pub fn strong_look(tone: Tone) -> (r: Look)
    ensures
        r == bold_look(tone),
{
    Look { tone, bold: true, underlined: false }
}

/// A piece of text and its look.
#[derive(Debug)]
pub struct Span {
    pub text: String,
    pub look: Look,
}

/// One line of a body pane: styled pieces (the whole line shown reversed
/// when it is the selected one), or the rendered markdown of body number
/// `n` (which may take several lines).
#[derive(Debug)]
pub enum BodyLine {
    Spans { spans: Vec<Span>, reversed: bool },
    Markdown(usize),
}

/// What a line of spans reads and looks like.
pub open spec fn spans_view(s: Seq<Span>) -> Seq<(Seq<char>, Look)> {
    s.map_values(|x: Span| (x.text@, x.look))
}

pub fn span(text: String, look: Look) -> (r: Span)
    ensures
        r.text == text,
        r.look == look,
{
    Span { text, look }
}

pub fn span_str(text: &str, look: Look) -> (r: Span)
    ensures
        r.text@ == text@,
        r.look == look,
{
    Span { text: String::from_str(text), look }
}

/// Unicode's control characters (general category Cc), as std's
/// `char::is_control`.
pub open spec fn is_control(c: char) -> bool {
    (c as u32) <= 0x1f || (0x7f <= (c as u32) && (c as u32) <= 0x9f)
}

/// A tab becomes four spaces, other control characters vanish.
pub open spec fn sanitize_char(c: char) -> Seq<char> {
    if c == '\t' {
        seq![' ', ' ', ' ', ' ']
    } else if is_control(c) {
        Seq::empty()
    } else {
        seq![c]
    }
}

pub open spec fn sanitized(s: Seq<char>) -> Seq<char>
    decreases s.len(),
{
    if s.len() == 0 {
        Seq::empty()
    } else {
        sanitized(s.drop_last()) + sanitize_char(s.last())
    }
}

fn char_is_control(c: char) -> (r: bool)
    ensures
        r == is_control(c),
{
    (c as u32) <= 0x1f || (0x7f <= (c as u32) && (c as u32) <= 0x9f)
}

/// `s` made safe for terminal cells.
pub fn sanitize_chars(s: &[char]) -> (r: Vec<char>)
    ensures
        r@ == sanitized(s@),
{
    let mut r: Vec<char> = Vec::new();
    let mut i: usize = 0;
    while i < s.len()
        invariant
            i <= s.len(),
            r@ == sanitized(s@.take(i as int)),
        decreases s.len() - i,
    {
        let c = s[i];
        let ghost before = r@;
        if c == '\t' {
            r.push(' ');
            r.push(' ');
            r.push(' ');
            r.push(' ');
        } else if !char_is_control(c) {
            r.push(c);
        }
        assert(s@.take(i + 1).drop_last() =~= s@.take(i as int));
        assert(r@ =~= before + sanitize_char(c));
        i = i + 1;
    }
    assert(s@.take(i as int) =~= s@);
    r
}

/// Make a single line safe for terminal cells: expand tabs (ratatui treats
/// them as zero-width, but the terminal jumps to a tab stop — misaligning the
/// buffer diff and leaving stale cells) and drop other control characters.
pub fn sanitize(line: &str) -> (r: String)
    ensures
        r@ == sanitized(line@),
{
    let cs = chars_of(line);
    let r = sanitize_chars(cs.as_slice());
    string_of(r.as_slice())
}

proof fn lemma_sanitized_clean(s: Seq<char>)
    ensures
        forall|i: int| 0 <= i < sanitized(s).len() ==> !is_control(#[trigger] sanitized(s)[i]),
    decreases s.len(),
{
    if s.len() > 0 {
        lemma_sanitized_clean(s.drop_last());
        let a = sanitized(s.drop_last());
        let b = sanitize_char(s.last());
        assert forall|i: int| 0 <= i < sanitized(s).len() implies !is_control(
            #[trigger] sanitized(s)[i],
        ) by {
            if i < a.len() {
                assert(sanitized(s)[i] == a[i]);
            } else {
                assert(sanitized(s)[i] == b[i - a.len()]);
            }
        }
    }
}

proof fn lemma_sanitized_fixed(s: Seq<char>)
    requires
        forall|i: int| 0 <= i < s.len() ==> !is_control(#[trigger] s[i]),
    ensures
        sanitized(s) == s,
    decreases s.len(),
{
    if s.len() > 0 {
        assert(!is_control(s[s.len() - 1]));
        lemma_sanitized_fixed(s.drop_last());
        assert(s.drop_last().push(s.last()) =~= s);
        assert(sanitize_char(s.last()) =~= seq![s.last()]);
    } else {
        assert(s =~= Seq::<char>::empty());
    }
}

/// A sanitized line holds no control character (so no tab), and
/// sanitizing it again changes nothing.
pub proof fn law_sanitize_clean_and_idempotent(s: Seq<char>)
    ensures
        forall|i: int| 0 <= i < sanitized(s).len() ==> !is_control(#[trigger] sanitized(s)[i]),
        sanitized(sanitized(s)) == sanitized(s),
{
    lemma_sanitized_clean(s);
    lemma_sanitized_fixed(sanitized(s));
}

/// How long ago something happened, `secs` seconds after it.
pub open spec fn age_label(secs: int) -> Seq<char> {
    if secs < 60 {
        "now"@
    } else if secs < 3600 {
        decimal((secs / 60) as nat) + "m"@
    } else if secs < 86400 {
        decimal((secs / 3600) as nat) + "h"@
    } else if secs < 30 * 86400 {
        decimal((secs / 86400) as nat) + "d"@
    } else if secs < 365 * 86400 {
        decimal((secs / 2592000int) as nat) + "mo"@
    } else {
        decimal((secs / 31536000int) as nat) + "y"@
    }
}

/// Whole seconds from `ts` to `now` (none if `ts` is later).
pub open spec fn age_seconds(now: i128, ts: i128) -> int {
    let d = whole_seconds(now as int) - whole_seconds(ts as int);
    if d < 0 {
        0
    } else {
        d
    }
}

/// How long before `now` the instant `ts` was (both in nanoseconds).
pub fn relative_age_at(now: i128, ts: i128) -> (r: String)
    ensures
        r@ == age_label(age_seconds(now, ts)),
        ({
            let secs = age_seconds(now, ts);
            &&& secs < 60 ==> r@ == "now"@
            &&& 60 <= secs < 3600 ==> r@ == decimal((secs / 60) as nat) + "m"@
            &&& 3600 <= secs < 86400 ==> r@ == decimal((secs / 3600) as nat) + "h"@
            &&& 86400 <= secs < 30 * 86400 ==> r@ == decimal((secs / 86400) as nat) + "d"@
            &&& 30 * 86400 <= secs < 365 * 86400 ==> r@ == decimal((secs / 2592000int) as nat)
                + "mo"@
            &&& 365 * 86400 <= secs ==> r@ == decimal((secs / 31536000int) as nat) + "y"@
        }),
        age_seconds(now, ts) >= 60 ==> exists|n: nat, unit: Seq<char>|
            n >= 1 && r@ == decimal(n) + unit && is_age_unit(unit),
{
    let a = as_second(now);
    let b = as_second(ts);
    let d: i128 = a - b;
    let secs: u128 = if d < 0 {
        0
    } else {
        d as u128
    };
    let r = if secs < 60 {
        String::from_str("now")
    } else if secs < 3600 {
        let mut r = decimal_string_u128(secs / 60);
        r.append("m");
        r
    } else if secs < 86400 {
        let mut r = decimal_string_u128(secs / 3600);
        r.append("h");
        r
    } else if secs < 30 * 86400 {
        let mut r = decimal_string_u128(secs / 86400);
        r.append("d");
        r
    } else if secs < 365 * 86400 {
        let mut r = decimal_string_u128(secs / (30 * 86400));
        r.append("mo");
        r
    } else {
        let mut r = decimal_string_u128(secs / (365 * 86400));
        r.append("y");
        r
    };
    proof {
        law_age_reads_whole_units(now, ts, r@);
    }
    r
}

/// The units an age is given in: minutes, hours, days, months, years.
pub open spec fn is_age_unit(u: Seq<char>) -> bool {
    u == "m"@ || u == "h"@ || u == "d"@ || u == "mo"@ || u == "y"@
}

/// An age reads "now" within the first minute; past it, a whole number of
/// the largest unit that fits (minutes below an hour, hours below a day,
/// days below 30 days, 30-day months below 365 days, else 365-day years),
/// and that number is at least 1.
pub proof fn law_age_reads_whole_units(now: i128, ts: i128, r: Seq<char>)
    requires
        r == age_label(age_seconds(now, ts)),
    ensures
        ({
            let secs = age_seconds(now, ts);
            &&& secs < 60 ==> r == "now"@
            &&& 60 <= secs < 3600 ==> r == decimal((secs / 60) as nat) + "m"@
            &&& 3600 <= secs < 86400 ==> r == decimal((secs / 3600) as nat) + "h"@
            &&& 86400 <= secs < 30 * 86400 ==> r == decimal((secs / 86400) as nat) + "d"@
            &&& 30 * 86400 <= secs < 365 * 86400 ==> r == decimal((secs / 2592000int) as nat)
                + "mo"@
            &&& 365 * 86400 <= secs ==> r == decimal((secs / 31536000int) as nat) + "y"@
        }),
        age_seconds(now, ts) >= 60 ==> exists|n: nat, unit: Seq<char>|
            n >= 1 && r == decimal(n) + unit && is_age_unit(unit),
{
    let secs = age_seconds(now, ts);
    if secs >= 60 {
        if secs < 3600 {
            assert(is_age_unit("m"@));
            assert(r == decimal((secs / 60) as nat) + "m"@);
        } else if secs < 86400 {
            assert(is_age_unit("h"@));
            assert(r == decimal((secs / 3600) as nat) + "h"@);
        } else if secs < 30 * 86400 {
            assert(is_age_unit("d"@));
            assert(r == decimal((secs / 86400) as nat) + "d"@);
        } else if secs < 365 * 86400 {
            assert(is_age_unit("mo"@));
            assert(r == decimal((secs / 2592000int) as nat) + "mo"@);
        } else {
            assert(is_age_unit("y"@));
            assert(r == decimal((secs / 31536000int) as nat) + "y"@);
        }
    }
}

/// How long ago `ts` was, given the current time `now` (`None` where the
/// clock could not be read, shown as "?").
pub open spec fn age_text(now: Option<i128>, ts: i128) -> Seq<char> {
    match now {
        Some(n) => age_label(age_seconds(n, ts)),
        None => "?"@,
    }
}

/// The age of `ts` as `age_text` gives it.
pub fn age_at(now: Option<i128>, ts: i128) -> (r: String)
    ensures
        r@ == age_text(now, ts),
{
    match now {
        Some(n) => relative_age_at(n, ts),
        None => String::from_str("?"),
    }
}

/// How long ago `ts` was, by the clock: `age_text` of whatever the clock
/// gave (a reading, or `None` where it could not be read).
pub fn relative_age(ts: i128) -> (r: String)
    ensures
        exists|now: Option<i128>| r@ == age_text(now, ts),
{
    let now = now_nanos();
    age_at(now, ts)
}

/// How a diff line is coloured: hunk headers cyan, additions green,
/// removals red, context dim.
pub open spec fn hunk_tone(l: Seq<char>) -> Tone {
    if l.len() >= 2 && l[0] == '@' && l[1] == '@' {
        Tone::Cyan
    } else if l.len() >= 1 && l[0] == '+' {
        Tone::Green
    } else if l.len() >= 1 && l[0] == '-' {
        Tone::Red
    } else {
        Tone::Dim
    }
}

/// How many leading lines are left out when at most `max` are shown.
pub open spec fn hunk_start(n: int, max: int) -> int {
    if n > max {
        n - max
    } else {
        0
    }
}

fn line_tone(l: &[char]) -> (r: Tone)
    ensures
        r == hunk_tone(l@),
{
    if l.len() >= 2 && l[0] == '@' && l[1] == '@' {
        Tone::Cyan
    } else if l.len() >= 1 && l[0] == '+' {
        Tone::Green
    } else if l.len() >= 1 && l[0] == '-' {
        Tone::Red
    } else {
        Tone::Dim
    }
}

/// How many lines `hunk_lines` gives.
pub open spec fn hunk_line_count(hunk: Seq<char>, max: int) -> int {
    let n = lines_of(hunk).len() as int;
    let start = hunk_start(n, max);
    n - start + (if start > 0 {
        1int
    } else {
        0int
    })
}

/// Line `k` of `hunk_lines`: the note on left-out lines first (if any),
/// then the shown lines, sanitized and toned.
pub open spec fn hunk_line_spec(hunk: Seq<char>, max: int, k: int) -> (Tone, Seq<char>) {
    let ls = lines_of(hunk);
    let start = hunk_start(ls.len() as int, max);
    if start > 0 && k == 0 {
        (Tone::Dim, "  … "@ + decimal(start as nat) + " earlier hunk lines"@)
    } else {
        let i = start + k - (if start > 0 {
            1int
        } else {
            0int
        });
        (hunk_tone(ls[i]), sanitized(ls[i]))
    }
}

/// The tail of a diff hunk: its last `max_lines` lines, sanitized and
/// toned, after a note of how many earlier lines were left out (if any).
pub fn hunk_lines(hunk: &str, max_lines: usize) -> (r: Vec<(Tone, String)>)
    ensures
        r@.len() == hunk_line_count(hunk@, max_lines as int),
        forall|k: int|
            0 <= k < r@.len() ==> ((#[trigger] r@[k]).0, r@[k].1@) == hunk_line_spec(
                hunk@,
                max_lines as int,
                k,
            ),
        shows_hunk_tail(hunk@, max_lines as int, r@.map_values(|x: (Tone, String)| (x.0, x.1@))),
{
    let cs = chars_of(hunk);
    let ls = lines(cs.as_slice());
    let ghost lv = ls@.map_values(|l: Vec<char>| l@);
    let n = ls.len();
    let start: usize = if n > max_lines {
        n - max_lines
    } else {
        0
    };
    let mut out: Vec<(Tone, String)> = Vec::new();
    if start > 0 {
        let mut note = String::from_str("  … ");
        let d = decimal_string(start as u64);
        note.append(d.as_str());
        note.append(" earlier hunk lines");
        out.push((Tone::Dim, note));
    }
    let off: usize = if start > 0 {
        1
    } else {
        0
    };
    let mut i: usize = start;
    while i < n
        invariant
            start <= i <= n == ls@.len(),
            off == (if start > 0 {
                1usize
            } else {
                0usize
            }),
            start == (if n > max_lines {
                n - max_lines
            } else {
                0
            }),
            lv == ls@.map_values(|l: Vec<char>| l@),
            out@.len() == i - start + off,
            start > 0 ==> out@[0].0 == Tone::Dim && out@[0].1@ == "  … "@ + decimal(start as nat)
                + " earlier hunk lines"@,
            forall|k: int|
                0 <= k < i - start ==> (#[trigger] out@[k + off]).0 == hunk_tone(lv[start + k])
                    && out@[k + off].1@ == sanitized(lv[start + k]),
        decreases n - i,
    {
        let l = &ls[i];
        assert(l@ == lv[i as int]);
        let tone = line_tone(l.as_slice());
        let clean = sanitize_chars(l.as_slice());
        let ghost prev = out@;
        out.push((tone, string_of(clean.as_slice())));
        proof {
            if start > 0 {
                assert(out@[0] == prev[0]);
            }
            assert forall|k: int| 0 <= k < i - start implies #[trigger] out@[k + off] == prev[k
                + off] by {}
        }
        i = i + 1;
    }
    proof {
        assert(lv == lines_of(hunk@));
        assert forall|k: int| 0 <= k < out@.len() implies ((#[trigger] out@[k]).0, out@[k].1@)
            == hunk_line_spec(hunk@, max_lines as int, k) by {
            if !(start > 0 && k == 0) {
                let j = k - off;
                assert(out@[j + off] == out@[k]);
            }
        }
        let v = out@.map_values(|x: (Tone, String)| (x.0, x.1@));
        assert forall|k: int| 0 <= k < v.len() implies #[trigger] v[k] == hunk_line_spec(
            hunk@,
            max_lines as int,
            k,
        ) by {
            assert(v[k] == (out@[k].0, out@[k].1@));
        }
        law_hunk_lines_show_tail(hunk@, max_lines as int, v);
    }
    out
}

/// `r` shows the tail of the hunk: when the hunk has more than `max` lines,
/// a note of how many were left out and then its last `max` lines, else all
/// of its lines; each sanitized and coloured by its first characters.
pub open spec fn shows_hunk_tail(hunk: Seq<char>, max: int, r: Seq<(Tone, Seq<char>)>) -> bool {
    let ls = lines_of(hunk);
    let n = ls.len() as int;
    if n > max {
        &&& r.len() == max + 1
        &&& r[0] == (Tone::Dim, "  … "@ + decimal((n - max) as nat) + " earlier hunk lines"@)
        &&& forall|k: int|
            1 <= k <= max ==> #[trigger] r[k] == (hunk_tone(ls[n - max + k - 1]), sanitized(
                ls[n - max + k - 1],
            ))
    } else {
        &&& r.len() == n
        &&& forall|k: int| 0 <= k < n ==> #[trigger] r[k] == (hunk_tone(ls[k]), sanitized(ls[k]))
    }
}

/// The lines `hunk_lines` gives are the tail of the hunk: past `max` lines,
/// the note and then the last `max` lines in order (so the last one shown is
/// the hunk's last line, the one commented on); otherwise every line.
pub proof fn law_hunk_lines_show_tail(hunk: Seq<char>, max: int, r: Seq<(Tone, Seq<char>)>)
    requires
        max >= 0,
        r.len() == hunk_line_count(hunk, max),
        forall|k: int| 0 <= k < r.len() ==> #[trigger] r[k] == hunk_line_spec(hunk, max, k),
    ensures
        shows_hunk_tail(hunk, max, r),
{
    let ls = lines_of(hunk);
    let n = ls.len() as int;
    if n > max {
        assert(r[0] == hunk_line_spec(hunk, max, 0));
        assert forall|k: int| 1 <= k <= max implies #[trigger] r[k] == (hunk_tone(
            ls[n - max + k - 1],
        ), sanitized(ls[n - max + k - 1])) by {
            assert(r[k] == hunk_line_spec(hunk, max, k));
        }
    } else {
        assert forall|k: int| 0 <= k < n implies #[trigger] r[k] == (hunk_tone(ls[k]), sanitized(
            ls[k],
        )) by {
            assert(r[k] == hunk_line_spec(hunk, max, k));
        }
    }
}

/// The spinner's frames, shown one per tick while loading.
pub open spec fn spinner_frame_spec(i: int) -> Seq<char> {
    if i == 0 {
        "⠋"@
    } else if i == 1 {
        "⠙"@
    } else if i == 2 {
        "⠹"@
    } else if i == 3 {
        "⠸"@
    } else if i == 4 {
        "⠼"@
    } else if i == 5 {
        "⠴"@
    } else if i == 6 {
        "⠦"@
    } else if i == 7 {
        "⠧"@
    } else if i == 8 {
        "⠇"@
    } else {
        "⠏"@
    }
}

pub fn spinner_frame(i: usize) -> (r: &'static str)
    ensures
        r@ == spinner_frame_spec((i % 10) as int),
{
    match i % 10 {
        0 => "⠋",
        1 => "⠙",
        2 => "⠹",
        3 => "⠸",
        4 => "⠼",
        5 => "⠴",
        6 => "⠦",
        7 => "⠧",
        8 => "⠇",
        _ => "⠏",
    }
}

/// The header line: name, viewer, spinner while loading, update notice.
pub open spec fn header_spec(app: App) -> Seq<(Seq<char>, Look)> {
    let base = seq![(" ghpr "@, bold_look(Tone::Plain)), ("@"@ + app.viewer@ + " "@, look(Tone::Dim))];
    let loading = if app.loading {
        base.push(
            (spinner_frame_spec((app.spinner % 10) as int) + " loading… "@, look(Tone::Yellow)),
        )
    } else {
        base
    };
    match app.update_available {
        Some(v) => loading.push(
            ("· update available: v"@ + v@ + " — press U to install "@, look(Tone::Yellow)),
        ),
        None => loading,
    }
}

pub fn header_spans(app: &App) -> (r: Vec<Span>)
    ensures
        spans_view(r@) == header_spec(*app),
{
    let mut r: Vec<Span> = Vec::new();
    r.push(span_str(" ghpr ", strong_look(Tone::Plain)));
    let mut v = String::from_str("@");
    v.append(app.viewer.as_str());
    v.append(" ");
    r.push(span(v, plain_look(Tone::Dim)));
    let ghost base = spans_view(r@);
    if app.loading {
        let mut t = String::from_str(spinner_frame(app.spinner));
        t.append(" loading… ");
        r.push(span(t, plain_look(Tone::Yellow)));
    }
    let ghost mid = spans_view(r@);
    if let Some(version) = &app.update_available {
        let mut t = String::from_str("· update available: v");
        t.append(version.as_str());
        t.append(" — press U to install ");
        r.push(span(t, plain_look(Tone::Yellow)));
    }
    proof {
        assert(base =~= seq![(" ghpr "@, bold_look(Tone::Plain)), ("@"@ + app.viewer@ + " "@, look(Tone::Dim))]);
    }
    assert(spans_view(r@) =~= header_spec(*app));
    r
}

/// The key hints for the current screen.
pub open spec fn hints_spec(app: App) -> Seq<char> {
    if app.compose is Some {
        " Ctrl-S send · Esc cancel"@
    } else {
        match app.screen {
            Screen::List => " j/k move · Enter open · r refresh · o browser · q quit"@,
            Screen::Detail => " Tab pane · j/k select · J/K comment · y copy · ]/[ unresolved · s sort · c comment · a reply · x resolve · C-d/u scroll · r refresh · o browser · Esc back"@,
        }
    }
}

/// The footer: the error if any, else the status if any, else key hints.
pub open spec fn footer_spec(app: App) -> (Seq<char>, Look) {
    match app.error {
        Some(e) => (" ✗ "@ + e@, look(Tone::Red)),
        None => match app.status {
            Some(s) => (" "@ + s@, look(Tone::Green)),
            None => (hints_spec(app), look(Tone::Dim)),
        },
    }
}

pub fn footer_span(app: &App) -> (r: Span)
    ensures
        (r.text@, r.look) == footer_spec(*app),
{
    if let Some(err) = &app.error {
        let mut t = String::from_str(" ✗ ");
        t.append(err.as_str());
        return span(t, plain_look(Tone::Red));
    }
    if let Some(status) = &app.status {
        let mut t = String::from_str(" ");
        t.append(status.as_str());
        return span(t, plain_look(Tone::Green));
    }
    let hints = if app.compose.is_some() {
        " Ctrl-S send · Esc cancel"
    } else {
        match app.screen {
            Screen::List => " j/k move · Enter open · r refresh · o browser · q quit",
            Screen::Detail => " Tab pane · j/k select · J/K comment · y copy · ]/[ unresolved · s sort · c comment · a reply · x resolve · C-d/u scroll · r refresh · o browser · Esc back",
        }
    };
    span_str(hints, plain_look(Tone::Dim))
}

// ---- rendered markdown ----

/// A ratatui `Style` as plain values: the foreground, background and
/// underline colours as ratatui writes them (`Color`'s `Display`: a colour
/// name, `#RRGGBB`, or a palette index, which `Color`'s `FromStr` reads
/// back), and the bits of the modifiers added and removed.
#[derive(Debug, Clone)]
pub struct MdStyle {
    pub fg: Option<String>,
    pub bg: Option<String>,
    pub underline: Option<String>,
    pub add_modifier: u16,
    pub sub_modifier: u16,
}

/// A styled piece of rendered markdown.
#[derive(Debug)]
pub struct MdSpan {
    pub text: String,
    pub style: MdStyle,
}

/// A line of rendered markdown: its pieces, its own style, and its
/// alignment (0 left, 1 centre, 2 right) if it sets one.
#[derive(Debug)]
pub struct MdLine {
    pub spans: Vec<MdSpan>,
    pub style: MdStyle,
    pub alignment: Option<u8>,
}

/// What a rendered line holds: its pieces (text and style), its style and
/// its alignment.
pub open spec fn md_line_view(l: MdLine) -> (Seq<(Seq<char>, MdStyle)>, MdStyle, Option<u8>) {
    (l.spans@.map_values(|x: MdSpan| (x.text@, x.style)), l.style, l.alignment)
}

pub open spec fn md_view(ls: Seq<MdLine>) -> Seq<(Seq<(Seq<char>, MdStyle)>, MdStyle, Option<u8>)> {
    ls.map_values(|l: MdLine| md_line_view(l))
}

/// The lines that tui-markdown's `from_str` renders from a comment body.
pub uninterp spec fn markdown_parse(body: Seq<char>) -> Seq<
    (Seq<(Seq<char>, MdStyle)>, MdStyle, Option<u8>),
>;

/// tui-markdown's `from_str`, its ratatui lines converted field by field
/// into plain values. Markdown rendering (with code highlighting) takes
/// pages to state, so the result is named `markdown_parse`.
#[verifier::external_body]
fn parse_markdown(body: &str) -> (r: Vec<MdLine>)
    ensures
        md_view(r@) == markdown_parse(body@),
{
    let style = |s: ratatui::style::Style| MdStyle {
        fg: s.fg.map(|c| c.to_string()),
        bg: s.bg.map(|c| c.to_string()),
        underline: s.underline_color.map(|c| c.to_string()),
        add_modifier: s.add_modifier.bits(),
        sub_modifier: s.sub_modifier.bits(),
    };
    let text = tui_markdown::from_str(body);
    text.lines.into_iter().map(|l| MdLine {
        spans: l.spans.into_iter().map(|x| MdSpan { text: x.content.into_owned(), style: style(x.style) }).collect(),
        style: style(l.style),
        alignment: l.alignment.map(|a| a as u8),
    }).collect()
}

/// A rendered line with every piece's text made safe for terminal cells.
pub open spec fn sanitized_md_line(
    l: (Seq<(Seq<char>, MdStyle)>, MdStyle, Option<u8>),
) -> (Seq<(Seq<char>, MdStyle)>, MdStyle, Option<u8>) {
    (l.0.map_values(|x: (Seq<char>, MdStyle)| (sanitized(x.0), x.1)), l.1, l.2)
}

fn sanitize_md_line(line: MdLine) -> (r: MdLine)
    ensures
        md_line_view(r) == sanitized_md_line(md_line_view(line)),
{
    let ghost src = md_line_view(line).0;
    let n = line.spans.len();
    let mut rest = line.spans;
    let mut out: Vec<MdSpan> = Vec::new();
    let mut i: usize = 0;
    while rest.len() > 0
        invariant
            i + rest@.len() == n,
            src.len() == n,
            forall|k: int|
                0 <= k < rest@.len() ==> ((#[trigger] rest@[k]).text@, rest@[k].style) == src[i
                    + k],
            out@.len() == i,
            forall|k: int|
                0 <= k < i ==> (#[trigger] out@[k]).text@ == sanitized(src[k].0) && out@[k].style
                    == src[k].1,
        decreases rest.len(),
    {
        let ghost before = rest@;
        let x = rest.remove(0);
        proof {
            assert((before[0].text@, before[0].style) == src[i + 0]);
            assert forall|k: int| 0 <= k < rest@.len() implies ((#[trigger] rest@[k]).text@,
                rest@[k].style) == src[i + 1 + k] by {
                assert(rest@[k] == before[k + 1]);
            }
        }
        let text = sanitize(x.text.as_str());
        out.push(MdSpan { text, style: x.style });
        i = i + 1;
    }
    let r = MdLine { spans: out, style: line.style, alignment: line.alignment };
    assert(md_line_view(r).0 =~= sanitized_md_line(md_line_view(line)).0);
    r
}

/// A comment body rendered as markdown, every piece's text made safe for
/// terminal cells.
pub fn markdown_body(body: &str) -> (r: Vec<MdLine>)
    ensures
        md_view(r@) == markdown_parse(body@).map_values(
            |l: (Seq<(Seq<char>, MdStyle)>, MdStyle, Option<u8>)| sanitized_md_line(l),
        ),
{
    let parsed = parse_markdown(body);
    let ghost src = md_view(parsed@);
    let n = parsed.len();
    let mut rest = parsed;
    let mut out: Vec<MdLine> = Vec::new();
    let mut i: usize = 0;
    while rest.len() > 0
        invariant
            i + rest@.len() == n,
            src.len() == n,
            forall|k: int| 0 <= k < rest@.len() ==> md_line_view(#[trigger] rest@[k]) == src[i + k],
            out@.len() == i,
            forall|k: int|
                0 <= k < i ==> md_line_view(#[trigger] out@[k]) == sanitized_md_line(src[k]),
        decreases rest.len(),
    {
        let ghost before = rest@;
        let line = rest.remove(0);
        proof {
            assert(md_line_view(before[0]) == src[i + 0]);
            assert forall|k: int| 0 <= k < rest@.len() implies md_line_view(#[trigger] rest@[k])
                == src[i + 1 + k] by {
                assert(rest@[k] == before[k + 1]);
            }
        }
        let clean = sanitize_md_line(line);
        out.push(clean);
        i = i + 1;
    }
    assert(md_view(out@) =~= markdown_parse(body@).map_values(
        |l: (Seq<(Seq<char>, MdStyle)>, MdStyle, Option<u8>)| sanitized_md_line(l),
    ));
    out
}

} // verus!
