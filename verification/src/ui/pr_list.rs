//! Text of the pull request list.

use vstd::prelude::*;

use crate::app::App;
use crate::github::types::PrSummary;
use crate::text::{chars_of, decimal, decimal_chars, decimal_string, str_eq, string_of};
use super::{age_at, age_text, look, plain_look, span, span_str, spans_view, Look, Span, Tone};

verus! {

/// `repo#number`, padded with spaces to at least 40 characters, as std's
/// `{:<40}` formatting.
pub open spec fn list_label_spec(repo: Seq<char>, number: u64) -> Seq<char> {
    let l = repo + "#"@ + decimal(number as nat);
    if l.len() < 40 {
        l + Seq::new((40 - l.len()) as nat, |i: int| ' ')
    } else {
        l
    }
}

pub fn list_label(repo: &String, number: u64) -> (r: String)
    ensures
        r@ == list_label_spec(repo@, number),
{
    proof {
        reveal_strlit("#");
    }
    let mut cs = chars_of(repo.as_str());
    cs.push('#');
    let d = decimal_chars(number as u128);
    let mut k: usize = 0;
    let ghost base = cs@;
    while k < d.len()
        invariant
            k <= d.len(),
            cs@ == base + d@.take(k as int),
        decreases d.len() - k,
    {
        cs.push(d[k]);
        k = k + 1;
    }
    assert(d@.take(d.len() as int) =~= d@);
    let ghost l = cs@;
    assert(l =~= repo@ + "#"@ + decimal(number as nat));
    while cs.len() < 40
        invariant
            cs@.len() >= l.len(),
            cs@.take(l.len() as int) == l,
            forall|i: int| l.len() <= i < cs@.len() ==> cs@[i] == ' ',
            l.len() < 40 ==> cs@.len() <= 40,
            l.len() >= 40 ==> cs@ == l,
        decreases 40 - cs.len(),
    {
        cs.push(' ');
    }
    proof {
        if l.len() < 40 {
            assert(cs@ =~= l + Seq::new((40 - l.len()) as nat, |i: int| ' '));
        }
    }
    string_of(cs.as_slice())
}

/// The badge for a review decision, if it has one.
pub open spec fn review_badge_spec(decision: Option<Seq<char>>) -> Option<(Seq<char>, Tone)> {
    match decision {
        Some(d) => if d == "APPROVED"@ {
            Some(("✓ approved "@, Tone::Green))
        } else if d == "CHANGES_REQUESTED"@ {
            Some(("± changes "@, Tone::Red))
        } else if d == "REVIEW_REQUIRED"@ {
            Some(("• review "@, Tone::Yellow))
        } else {
            None
        },
        None => None,
    }
}

pub fn review_badge(decision: &Option<String>) -> (r: Option<(String, Tone)>)
    ensures
        match r {
            Some((t, tone)) => review_badge_spec(
                match decision {
                    Some(d) => Some(d@),
                    None => None,
                },
            ) == Some((t@, tone)),
            None => review_badge_spec(
                match decision {
                    Some(d) => Some(d@),
                    None => None,
                },
            ) is None,
        },
{
    match decision {
        None => None,
        Some(d) => if str_eq(d.as_str(), "APPROVED") {
            Some((String::from_str("✓ approved "), Tone::Green))
        } else if str_eq(d.as_str(), "CHANGES_REQUESTED") {
            Some((String::from_str("± changes "), Tone::Red))
        } else if str_eq(d.as_str(), "REVIEW_REQUIRED") {
            Some((String::from_str("• review "), Tone::Yellow))
        } else {
            None
        },
    }
}

/// The list's frame title.
pub fn list_title(app: &App) -> (r: String)
    ensures
        r@ == " open PRs involving @"@ + app.viewer@ + " ("@ + decimal(app.prs@.len() as nat)
            + ") "@,
{
    let mut r = String::from_str(" open PRs involving @");
    r.append(app.viewer.as_str());
    r.append(" (");
    let d = decimal_string(app.prs.len() as u64);
    r.append(d.as_str());
    r.append(") ");
    r
}

/// What an empty list says.
pub fn list_placeholder(app: &App) -> (r: &'static str)
    ensures
        r@ == (if app.loading {
            "fetching PRs…"@
        } else if app.list_loaded {
            "no open PRs involve you — press r to refresh"@
        } else {
            ""@
        }),
{
    if app.loading {
        "fetching PRs…"
    } else if app.list_loaded {
        "no open PRs involve you — press r to refresh"
    } else {
        ""
    }
}

/// One row of the list, `now` being the current time.
pub open spec fn list_item_spec(pr: PrSummary, now: Option<i128>) -> Seq<(Seq<char>, Look)> {
    let head = seq![(list_label_spec(pr.repo@, pr.number), look(Tone::Cyan)), (" "@, look(Tone::Plain))];
    let draft = if pr.is_draft {
        head.push(("[draft] "@, look(Tone::Dim)))
    } else {
        head
    };
    let titled = draft + seq![(pr.title@, look(Tone::Plain)), ("  — "@, look(Tone::Dim))];
    let badged = match review_badge_spec(
        match pr.review_decision {
            Some(d) => Some(d@),
            None => None,
        },
    ) {
        Some((t, tone)) => titled.push((t, look(tone))),
        None => titled,
    };
    badged.push(
        (pr.author@ + " · "@ + age_text(now, pr.updated_at) + " · 💬"@ + decimal(
            pr.comment_count as nat,
        ), look(Tone::Dim)),
    )
}

pub fn list_item(pr: &PrSummary, now: Option<i128>) -> (r: Vec<Span>)
    ensures
        spans_view(r@) == list_item_spec(*pr, now),
{
    let mut r: Vec<Span> = Vec::new();
    r.push(span(list_label(&pr.repo, pr.number), plain_look(Tone::Cyan)));
    r.push(span_str(" ", plain_look(Tone::Plain)));
    if pr.is_draft {
        r.push(span_str("[draft] ", plain_look(Tone::Dim)));
    }
    r.push(span(pr.title.clone(), plain_look(Tone::Plain)));
    r.push(span_str("  — ", plain_look(Tone::Dim)));
    let ghost before_badge = spans_view(r@);
    if let Some((t, tone)) = review_badge(&pr.review_decision) {
        r.push(span(t, plain_look(tone)));
    }
    let mut meta = pr.author.clone();
    meta.append(" · ");
    let age = age_at(now, pr.updated_at);
    meta.append(age.as_str());
    meta.append(" · 💬");
    let c = decimal_string(pr.comment_count);
    meta.append(c.as_str());
    r.push(span(meta, plain_look(Tone::Dim)));
    assert(spans_view(r@) =~= list_item_spec(*pr, now));
    r
}

} // verus!
