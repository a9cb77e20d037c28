//! Clean domain types used by the UI, plus conversions from the raw GraphQL
//! structs in [`super::queries`].
//!
//! Instants are held as nanoseconds since the Unix epoch (`i128`).

use vstd::prelude::*;

use crate::cli::PrRef;
use crate::text::{
    chars_blank, chars_eq, chars_lt, chars_of, is_blank, lemma_seq_lt_total, lemma_seq_lt_trans,
    seq_lt, split_once, split_once_spec, str_blank, str_eq, string_of,
};
use crate::time::{parse_ts, ts_value};

use super::queries::{
    RawActor, RawPrSummary, RawPullRequest, RawThread, RawThreadComment, RawTimelineNode,
};

verus! {

#[derive(Debug, Clone)]
pub struct PrSummary {
    /// "owner/repo"
    pub repo: String,
    pub number: u64,
    pub title: String,
    pub is_draft: bool,
    pub updated_at: i128,
    pub author: String,
    pub review_decision: Option<String>,
    pub comment_count: u64,
}

impl PrSummary {
    /// The reference of this pull request: `repo` split at its first `/`.
    pub fn pr_ref(&self) -> (r: Option<PrRef>)
        ensures
            match split_once_spec(self.repo@, '/') {
                None => r is None,
                Some((owner, repo)) => r matches Some(p) && p.owner@ == owner && p.repo@ == repo
                    && p.number == self.number,
            },
    {
        let cs = chars_of(self.repo.as_str());
        match split_once(cs.as_slice(), '/') {
            None => None,
            Some((owner, repo)) => Some(
                PrRef {
                    owner: string_of(owner.as_slice()),
                    repo: string_of(repo.as_slice()),
                    number: self.number,
                },
            ),
        }
    }
}

#[derive(Debug)]
pub struct PrDetail {
    /// GraphQL node id — the `subjectId` for addComment.
    pub id: String,
    pub number: u64,
    pub title: String,
    pub state: String,
    pub is_draft: bool,
    pub author: String,
    pub base_ref: String,
    pub head_ref: String,
    pub timeline: Vec<TimelineItem>,
    pub timeline_truncated: bool,
    pub threads: Vec<ReviewThread>,
}

/// How review threads are ordered in the Threads pane.
#[derive(Debug, Clone, Copy, PartialEq, Eq, Structural)]
pub enum ThreadSort {
    /// Unresolved first, then by file path and line.
    Position,
    /// Most recent comment first.
    Activity,
}

impl Default for ThreadSort {
    fn default() -> (r: Self)
        ensures
            r == ThreadSort::Position,
    {
        ThreadSort::Position
    }
}

#[derive(Debug)]
pub struct TimelineItem {
    pub author: String,
    pub body: String,
    pub created_at: i128,
    pub kind: TimelineKind,
}

#[derive(Debug, Clone, Copy, PartialEq, Eq, Structural)]
pub enum TimelineKind {
    Comment,
    Review(ReviewVerdict),
}

#[derive(Debug, Clone, Copy, PartialEq, Eq, Structural)]
pub enum ReviewVerdict {
    Approved,
    ChangesRequested,
    Commented,
    Dismissed,
    Other,
}

/// The verdict that a review's `state` names.
pub open spec fn verdict_of(state: Seq<char>) -> ReviewVerdict {
    if state == "APPROVED"@ {
        ReviewVerdict::Approved
    } else if state == "CHANGES_REQUESTED"@ {
        ReviewVerdict::ChangesRequested
    } else if state == "COMMENTED"@ {
        ReviewVerdict::Commented
    } else if state == "DISMISSED"@ {
        ReviewVerdict::Dismissed
    } else {
        ReviewVerdict::Other
    }
}

impl ReviewVerdict {
    pub fn from_state(state: &str) -> (r: Self)
        ensures
            r == verdict_of(state@),
    {
        if str_eq(state, "APPROVED") {
            ReviewVerdict::Approved
        } else if str_eq(state, "CHANGES_REQUESTED") {
            ReviewVerdict::ChangesRequested
        } else if str_eq(state, "COMMENTED") {
            ReviewVerdict::Commented
        } else if str_eq(state, "DISMISSED") {
            ReviewVerdict::Dismissed
        } else {
            ReviewVerdict::Other
        }
    }
}

#[derive(Debug)]
pub struct ReviewThread {
    /// GraphQL node id — the `threadId` for resolve/unresolve.
    pub id: String,
    pub is_resolved: bool,
    pub is_outdated: bool,
    pub path: String,
    pub line: Option<u64>,
    /// REST id of the thread's root comment — reply target.
    pub reply_to_db_id: Option<u64>,
    /// Diff hunk context from the root comment.
    pub diff_hunk: String,
    pub comments: Vec<ThreadComment>,
    /// Comments beyond the first page (rendered as "+N earlier").
    pub hidden_count: u64,
    pub last_activity: i128,
}

#[derive(Debug)]
pub struct ThreadComment {
    pub author: String,
    pub body: String,
    pub created_at: i128,
}

// ---- conversions ----

/// The login of an actor; deleted accounts show as "ghost".
pub open spec fn login_of(actor: Option<RawActor>) -> Seq<char> {
    match actor {
        Some(a) => a.login@,
        None => "ghost"@,
    }
}

/// The login of an actor, or "ghost" for none.
pub fn login(actor: Option<RawActor>) -> (r: String)
    ensures
        r@ == login_of(actor),
{
    match actor {
        Some(a) => a.login,
        None => String::from_str("ghost"),
    }
}

/// The login of a borrowed actor, or "ghost" for none.
pub fn login_ref(actor: &Option<RawActor>) -> (r: String)
    ensures
        r@ == login_of(*actor),
{
    match actor {
        Some(a) => a.login.clone(),
        None => String::from_str("ghost"),
    }
}

/// `s` is the summary that `raw` describes.
pub open spec fn summary_from(s: PrSummary, raw: RawPrSummary) -> bool {
    &&& s.repo == raw.repository.name_with_owner
    &&& s.number == raw.number
    &&& s.title == raw.title
    &&& s.is_draft == raw.is_draft
    &&& s.updated_at == ts_value(raw.updated_at@)
    &&& s.author@ == login_of(raw.author)
    &&& s.review_decision == raw.review_decision
    &&& s.comment_count == raw.comments.total_count
}

impl PrSummary {
    pub fn from_raw(raw: RawPrSummary) -> (r: PrSummary)
        ensures
            summary_from(r, raw),
    {
        let updated_at = parse_ts(raw.updated_at.as_str());
        PrSummary {
            repo: raw.repository.name_with_owner,
            number: raw.number,
            title: raw.title,
            is_draft: raw.is_draft,
            updated_at,
            author: login(raw.author),
            review_decision: raw.review_decision,
            comment_count: raw.comments.total_count,
        }
    }
}

/// `c` is the thread comment that `raw` describes.
pub open spec fn comment_from(c: ThreadComment, raw: RawThreadComment) -> bool {
    &&& c.author@ == login_of(raw.author)
    &&& c.body == raw.body
    &&& c.created_at == ts_value(raw.created_at@)
}

/// `t` is the review thread that `raw` describes: the reply target and the
/// diff hunk come from the first comment, the comments beyond the loaded
/// page are counted, and the last loaded comment dates the thread.
pub open spec fn thread_from(t: ReviewThread, raw: RawThread) -> bool {
    let nodes = raw.comments.nodes@;
    &&& t.id == raw.id
    &&& t.is_resolved == raw.is_resolved
    &&& t.is_outdated == raw.is_outdated
    &&& t.path == raw.path
    &&& t.line == raw.line
    &&& t.reply_to_db_id == (if nodes.len() > 0 {
        nodes[0].database_id
    } else {
        None
    })
    &&& t.diff_hunk@ == (if nodes.len() > 0 {
        nodes[0].diff_hunk@
    } else {
        Seq::<char>::empty()
    })
    &&& t.comments@.len() == nodes.len()
    &&& forall|i: int| 0 <= i < nodes.len() ==> comment_from(#[trigger] t.comments@[i], nodes[i])
    &&& t.hidden_count == (if raw.comments.total_count >= nodes.len() {
        (raw.comments.total_count - nodes.len()) as u64
    } else {
        0u64
    })
    &&& t.last_activity == (if nodes.len() > 0 {
        ts_value(nodes.last().created_at@)
    } else {
        0i128
    })
}

impl ReviewThread {
    pub fn from_raw(raw: RawThread) -> (r: ReviewThread)
        ensures
            thread_from(r, raw),
    {
        let ghost nodes = raw.comments.nodes@;
        let n = raw.comments.nodes.len();
        let hidden_count = raw.comments.total_count.saturating_sub(n as u64);
        let reply_to_db_id = if n > 0 {
            raw.comments.nodes[0].database_id
        } else {
            None
        };
        let diff_hunk = if n > 0 {
            raw.comments.nodes[0].diff_hunk.clone()
        } else {
            String::new()
        };
        let mut rest = raw.comments.nodes;
        let mut comments: Vec<ThreadComment> = Vec::new();
        let mut i: usize = 0;
        while rest.len() > 0
            invariant
                i + rest.len() == n,
                n == nodes.len(),
                rest@ == nodes.skip(i as int),
                comments@.len() == i,
                forall|k: int| 0 <= k < i ==> comment_from(#[trigger] comments@[k], nodes[k]),
            decreases rest.len(),
        {
            let c = rest.remove(0);
            assert(c == nodes[i as int]);
            let created_at = parse_ts(c.created_at.as_str());
            comments.push(ThreadComment { author: login(c.author), body: c.body, created_at });
            assert(rest@ =~= nodes.skip(i + 1));
            i = i + 1;
        }
        let last_activity = if comments.len() > 0 {
            comments[comments.len() - 1].created_at
        } else {
            0
        };
        ReviewThread {
            id: raw.id,
            is_resolved: raw.is_resolved,
            is_outdated: raw.is_outdated,
            path: raw.path,
            line: raw.line,
            reply_to_db_id,
            diff_hunk,
            comments,
            hidden_count,
            last_activity,
        }
    }
}

// ---- thread order ----

pub open spec fn option_lt(a: Option<u64>, b: Option<u64>) -> bool {
    match (a, b) {
        (None, Some(_)) => true,
        (Some(x), Some(y)) => x < y,
        _ => false,
    }
}

/// Position order: unresolved before resolved, then by path, then by line
/// (no line before any line).
pub open spec fn position_before(a: ReviewThread, b: ReviewThread) -> bool {
    ||| (!a.is_resolved && b.is_resolved)
    ||| (a.is_resolved == b.is_resolved && (seq_lt(a.path@, b.path@) || (a.path@ == b.path@
        && option_lt(a.line, b.line))))
}

/// `a` goes strictly before `b` in the given order. Activity order puts the
/// latest activity first.
pub open spec fn thread_before(sort: ThreadSort, a: ReviewThread, b: ReviewThread) -> bool {
    match sort {
        ThreadSort::Position => position_before(a, b),
        ThreadSort::Activity => a.last_activity > b.last_activity,
    }
}

/// Neither thread goes before the other.
pub open spec fn same_rank(sort: ThreadSort, a: ReviewThread, b: ReviewThread) -> bool {
    !thread_before(sort, a, b) && !thread_before(sort, b, a)
}

pub open spec fn sorted_by(sort: ThreadSort, s: Seq<ReviewThread>) -> bool {
    forall|i: int, j: int| 0 <= i < j < s.len() ==> !thread_before(sort, #[trigger] s[j], #[trigger] s[i])
}

/// `p` lists each of `0..n` once.
pub open spec fn is_perm(p: Seq<int>, n: int) -> bool {
    &&& p.len() == n
    &&& forall|k: int| 0 <= k < n ==> 0 <= #[trigger] p[k] < n
    &&& forall|a: int, b: int| 0 <= a < b < n ==> #[trigger] p[a] != #[trigger] p[b]
}

/// Threads of the same rank keep the relative order of their sources `p`.
pub open spec fn keeps_ties(sort: ThreadSort, s: Seq<ReviewThread>, p: Seq<int>) -> bool {
    forall|a: int, b: int|
        0 <= a < b < s.len() && same_rank(sort, #[trigger] s[a], #[trigger] s[b]) ==> p[a] < p[b]
}

/// `new` is `old` sorted by `sort`, ties kept in their old order.
pub open spec fn stable_sort_of(
    sort: ThreadSort,
    new: Seq<ReviewThread>,
    old: Seq<ReviewThread>,
) -> bool {
    &&& new.len() == old.len()
    &&& sorted_by(sort, new)
    &&& exists|p: Seq<int>|
        {
            &&& is_perm(p, old.len() as int)
            &&& (forall|k: int| 0 <= k < new.len() ==> #[trigger] new[k] == old[p[k]])
            &&& keeps_ties(sort, new, p)
        }
}

proof fn lemma_seq_lt_trans_if(a: Seq<char>, b: Seq<char>, c: Seq<char>)
    ensures
        seq_lt(a, b) && seq_lt(b, c) ==> seq_lt(a, c),
{
    if seq_lt(a, b) && seq_lt(b, c) {
        lemma_seq_lt_trans(a, b, c);
    }
}

/// `thread_before` is a strict weak order.
pub proof fn lemma_thread_order(sort: ThreadSort, a: ReviewThread, b: ReviewThread, c: ReviewThread)
    ensures
        !thread_before(sort, a, a),
        thread_before(sort, a, b) && thread_before(sort, b, c) ==> thread_before(sort, a, c),
        thread_before(sort, a, b) ==> !thread_before(sort, b, a),
        thread_before(sort, a, b) ==> thread_before(sort, a, c) || thread_before(sort, c, b),
{
    lemma_seq_lt_total(a.path@, b.path@);
    lemma_seq_lt_total(b.path@, c.path@);
    lemma_seq_lt_total(a.path@, c.path@);
    lemma_seq_lt_total(c.path@, b.path@);
    lemma_seq_lt_trans_if(a.path@, b.path@, c.path@);
    lemma_seq_lt_trans_if(a.path@, c.path@, b.path@);
    lemma_seq_lt_trans_if(c.path@, a.path@, b.path@);
}

/// Whether `a` goes strictly before `b`.
pub fn thread_goes_before(sort: ThreadSort, a: &ReviewThread, b: &ReviewThread) -> (r: bool)
    ensures
        r == thread_before(sort, *a, *b),
{
    match sort {
        ThreadSort::Activity => a.last_activity > b.last_activity,
        ThreadSort::Position => {
            if a.is_resolved != b.is_resolved {
                return !a.is_resolved;
            }
            let pa = chars_of(a.path.as_str());
            let pb = chars_of(b.path.as_str());
            if chars_lt(pa.as_slice(), pb.as_slice()) {
                return true;
            }
            if !chars_eq(pa.as_slice(), pb.as_slice()) {
                return false;
            }
            match (a.line, b.line) {
                (None, Some(_)) => true,
                (Some(x), Some(y)) => x < y,
                _ => false,
            }
        },
    }
}

/// Sorts `threads` by `sort`, keeping ties in their order (an insertion
/// sort, like std's stable sort in its result).
pub fn sort_thread_vec(threads: Vec<ReviewThread>, sort: ThreadSort) -> (r: Vec<ReviewThread>)
    ensures
        stable_sort_of(sort, r@, threads@),
{
    let ghost old = threads@;
    let n = threads.len();
    let mut rest = threads;
    let mut r: Vec<ReviewThread> = Vec::new();
    let ghost mut p: Seq<int> = Seq::empty();
    let mut i: usize = 0;
    while rest.len() > 0
        invariant
            i + rest.len() == n,
            n == old.len(),
            rest@ == old.skip(i as int),
            r@.len() == i,
            sorted_by(sort, r@),
            p.len() == i,
            forall|k: int| 0 <= k < i ==> 0 <= #[trigger] p[k] < i,
            forall|a: int, b: int| 0 <= a < b < i ==> #[trigger] p[a] != #[trigger] p[b],
            forall|k: int| 0 <= k < i ==> #[trigger] r@[k] == old[p[k]],
            keeps_ties(sort, r@, p),
        decreases rest.len(),
    {
        let x = rest.remove(0);
        assert(x == old[i as int]);
        assert(rest@ =~= old.skip(i + 1));
        let mut pos: usize = 0;
        while pos < r.len()
            invariant
                pos <= r.len(),
                forall|m: int| 0 <= m < pos ==> !thread_before(sort, x, #[trigger] r@[m]),
            ensures
                pos <= r.len(),
                forall|m: int| 0 <= m < pos ==> !thread_before(sort, x, #[trigger] r@[m]),
                pos < r.len() ==> thread_before(sort, x, r@[pos as int]),
            decreases r.len() - pos,
        {
            if thread_goes_before(sort, &x, &r[pos]) {
                break;
            }
            pos = pos + 1;
        }
        let ghost before = r@;
        let ghost before_p = p;
        proof {
            // Everything from `pos` on comes strictly after `x`.
            assert forall|m: int| pos <= m < before.len() implies thread_before(
                sort,
                x,
                #[trigger] before[m],
            ) by {
                lemma_thread_order(sort, x, before[pos as int], before[m]);
                lemma_thread_order(sort, before[m], before[pos as int], x);
                if m > pos {
                    assert(!thread_before(sort, before[m], before[pos as int]));
                }
            }
        }
        r.insert(pos, x);
        proof {
            p = before_p.insert(pos as int, i as int);
            let s = r@;
            assert(s =~= before.insert(pos as int, x));
            assert forall|a: int, b: int| 0 <= a < b < s.len() implies !thread_before(
                sort,
                #[trigger] s[b],
                #[trigger] s[a],
            ) by {
                if b < pos {
                    assert(s[a] == before[a] && s[b] == before[b]);
                } else if b == pos {
                    assert(s[a] == before[a]);
                } else if a == pos {
                    assert(s[b] == before[b - 1]);
                    lemma_thread_order(sort, x, before[b - 1], x);
                } else if a < pos {
                    assert(s[a] == before[a] && s[b] == before[b - 1]);
                } else {
                    assert(s[a] == before[a - 1] && s[b] == before[b - 1]);
                }
            }
            assert forall|k: int| 0 <= k < i + 1 implies 0 <= #[trigger] p[k] < i + 1 by {
                if k < pos {
                    assert(p[k] == before_p[k]);
                } else if k > pos {
                    assert(p[k] == before_p[k - 1]);
                }
            }
            assert forall|a: int, b: int| 0 <= a < b < i + 1 implies #[trigger] p[a]
                != #[trigger] p[b] by {
                if b < pos {
                    assert(p[a] == before_p[a] && p[b] == before_p[b]);
                } else if b == pos {
                    assert(p[a] == before_p[a]);
                } else if a == pos {
                    assert(p[b] == before_p[b - 1]);
                } else if a < pos {
                    assert(p[a] == before_p[a] && p[b] == before_p[b - 1]);
                } else {
                    assert(p[a] == before_p[a - 1] && p[b] == before_p[b - 1]);
                }
            }
            assert forall|k: int| 0 <= k < i + 1 implies #[trigger] s[k] == old[p[k]] by {
                if k < pos {
                    assert(s[k] == before[k] && p[k] == before_p[k]);
                } else if k > pos {
                    assert(s[k] == before[k - 1] && p[k] == before_p[k - 1]);
                }
            }
            assert forall|a: int, b: int|
                0 <= a < b < s.len() && same_rank(sort, #[trigger] s[a], #[trigger] s[b]) implies p[a]
                < p[b] by {
                if b < pos {
                    assert(s[a] == before[a] && s[b] == before[b]);
                    assert(p[a] == before_p[a] && p[b] == before_p[b]);
                } else if b == pos {
                    assert(p[a] == before_p[a]);
                } else if a == pos {
                    assert(s[b] == before[b - 1]);
                } else if a < pos {
                    assert(s[a] == before[a] && s[b] == before[b - 1]);
                    assert(p[a] == before_p[a] && p[b] == before_p[b - 1]);
                } else {
                    assert(s[a] == before[a - 1] && s[b] == before[b - 1]);
                    assert(p[a] == before_p[a - 1] && p[b] == before_p[b - 1]);
                }
            }
        }
        i = i + 1;
    }
    proof {
        assert(is_perm(p, old.len() as int));
        assert(forall|k: int| 0 <= k < r@.len() ==> #[trigger] r@[k] == old[p[k]]);
    }
    r
}

impl PrDetail {
    pub fn unresolved_count(&self) -> (r: usize)
        ensures
            r == count_unresolved(self.threads@),
    {
        let mut c: usize = 0;
        let mut i: usize = 0;
        while i < self.threads.len()
            invariant
                i <= self.threads.len(),
                c == count_unresolved(self.threads@.take(i as int)),
                c <= i,
            decreases self.threads.len() - i,
        {
            proof {
                reveal(Seq::filter);
                assert(self.threads@.take(i + 1).drop_last() =~= self.threads@.take(i as int));
            }
            if !self.threads[i].is_resolved {
                c = c + 1;
            }
            i = i + 1;
        }
        assert(self.threads@.take(i as int) =~= self.threads@);
        c
    }

    /// Reorders the threads; nothing else changes.
    pub fn sort_threads(&mut self, sort: ThreadSort)
        ensures
            stable_sort_of(sort, final(self).threads@, old(self).threads@),
            final(self).id == old(self).id,
            final(self).number == old(self).number,
            final(self).title == old(self).title,
            final(self).state == old(self).state,
            final(self).is_draft == old(self).is_draft,
            final(self).author == old(self).author,
            final(self).base_ref == old(self).base_ref,
            final(self).head_ref == old(self).head_ref,
            final(self).timeline == old(self).timeline,
            final(self).timeline_truncated == old(self).timeline_truncated,
    {
        let mut ts: Vec<ReviewThread> = Vec::new();
        std::mem::swap(&mut ts, &mut self.threads);
        self.threads = sort_thread_vec(ts, sort);
    }
}

/// The number of unresolved threads.
pub open spec fn count_unresolved(s: Seq<ReviewThread>) -> nat {
    s.filter(|t: ReviewThread| !t.is_resolved).len()
}

// ---- the timeline ----

/// Whether a raw timeline entry shows: comments do, reviews do unless they
/// are empty-body COMMENTED stubs (which only carry inline comments), other
/// entries do not.
pub open spec fn node_kept(n: RawTimelineNode) -> bool {
    match n {
        RawTimelineNode::IssueComment(_) => true,
        RawTimelineNode::PullRequestReview(r) => !(is_blank(r.body@) && verdict_of(r.state@)
            == ReviewVerdict::Commented),
        RawTimelineNode::Other => false,
    }
}

/// `item` is the timeline item that the raw entry `n` describes.
pub open spec fn item_from_node(item: TimelineItem, n: RawTimelineNode) -> bool {
    match n {
        RawTimelineNode::IssueComment(c) => {
            &&& item.author@ == login_of(c.author)
            &&& item.body == c.body
            &&& item.created_at == ts_value(c.created_at@)
            &&& item.kind == TimelineKind::Comment
        },
        RawTimelineNode::PullRequestReview(r) => {
            &&& item.author@ == login_of(r.author)
            &&& item.body == r.body
            &&& item.created_at == ts_value(r.created_at@)
            &&& item.kind == TimelineKind::Review(verdict_of(r.state@))
        },
        RawTimelineNode::Other => false,
    }
}

pub open spec fn kept_nodes(nodes: Seq<RawTimelineNode>) -> Seq<RawTimelineNode> {
    nodes.filter(|n: RawTimelineNode| node_kept(n))
}

/// The item that opens the conversation: the description, or
/// "(no description)" where it is blank.
pub open spec fn description_from(item: TimelineItem, raw: RawPullRequest) -> bool {
    &&& item.author@ == login_of(raw.author)
    &&& item.body@ == (if is_blank(raw.body@) {
        "(no description)"@
    } else {
        raw.body@
    })
    &&& item.created_at == ts_value(raw.created_at@)
    &&& item.kind == TimelineKind::Comment
}

/// `timeline` is the description followed by the kept raw entries.
pub open spec fn timeline_from(timeline: Seq<TimelineItem>, raw: RawPullRequest) -> bool {
    let kept = kept_nodes(raw.timeline_items.nodes@);
    &&& timeline.len() == kept.len() + 1
    &&& description_from(timeline[0], raw)
    &&& forall|k: int| 0 <= k < kept.len() ==> item_from_node(#[trigger] timeline[k + 1], kept[k])
}

/// `threads` are the raw threads converted and sorted in position order,
/// ties in their raw order.
pub open spec fn threads_from(threads: Seq<ReviewThread>, raw: Seq<RawThread>) -> bool {
    &&& threads.len() == raw.len()
    &&& sorted_by(ThreadSort::Position, threads)
    &&& exists|p: Seq<int>|
        {
            &&& is_perm(p, raw.len() as int)
            &&& (forall|k: int| 0 <= k < threads.len() ==> thread_from(#[trigger] threads[k], raw[p[k]]))
            &&& keeps_ties(ThreadSort::Position, threads, p)
        }
}

/// `d` is the pull request that `raw` describes, with review threads
/// `raw_threads`.
pub open spec fn detail_from(d: PrDetail, raw: RawPullRequest, raw_threads: Seq<RawThread>) -> bool {
    &&& d.id == raw.id
    &&& d.number == raw.number
    &&& d.title == raw.title
    &&& d.state == raw.state
    &&& d.is_draft == raw.is_draft
    &&& d.author@ == login_of(raw.author)
    &&& d.base_ref == raw.base_ref_name
    &&& d.head_ref == raw.head_ref_name
    &&& d.timeline_truncated == raw.timeline_items.page_info.has_next_page
    &&& timeline_from(d.timeline@, raw)
    &&& threads_from(d.threads@, raw_threads)
}

fn item_from(node: RawTimelineNode) -> (r: Option<TimelineItem>)
    ensures
        match r {
            Some(item) => node_kept(node) && item_from_node(item, node),
            None => !node_kept(node),
        },
{
    match node {
        RawTimelineNode::IssueComment(c) => {
            let created_at = parse_ts(c.created_at.as_str());
            Some(
                TimelineItem {
                    author: login(c.author),
                    body: c.body,
                    created_at,
                    kind: TimelineKind::Comment,
                },
            )
        },
        RawTimelineNode::PullRequestReview(r) => {
            let verdict = ReviewVerdict::from_state(r.state.as_str());
            if str_blank(r.body.as_str()) && verdict == ReviewVerdict::Commented {
                return None;
            }
            let created_at = parse_ts(r.created_at.as_str());
            Some(
                TimelineItem {
                    author: login(r.author),
                    body: r.body,
                    created_at,
                    kind: TimelineKind::Review(verdict),
                },
            )
        },
        RawTimelineNode::Other => None,
    }
}

impl PrDetail {
    /// Build the domain view: filter noise out of the timeline (empty-body
    /// COMMENTED review stubs that only carry inline comments) and sort
    /// threads unresolved-first, then by file position.
    pub fn from_raw(raw: RawPullRequest, raw_threads: Vec<RawThread>) -> (r: Self)
        ensures
            detail_from(r, raw, raw_threads@),
    {
        let ghost raw0 = raw;
        let timeline_truncated = raw.timeline_items.page_info.has_next_page;
        let body = if str_blank(raw.body.as_str()) {
            String::from_str("(no description)")
        } else {
            raw.body.clone()
        };
        let description = TimelineItem {
            author: login_ref(&raw.author),
            body,
            created_at: parse_ts(raw.created_at.as_str()),
            kind: TimelineKind::Comment,
        };
        let mut timeline: Vec<TimelineItem> = Vec::new();
        timeline.push(description);
        let ghost nodes = raw.timeline_items.nodes@;
        let n = raw.timeline_items.nodes.len();
        let mut rest = raw.timeline_items.nodes;
        let mut i: usize = 0;
        while rest.len() > 0
            invariant
                i + rest.len() == n,
                n == nodes.len(),
                rest@ == nodes.skip(i as int),
                timeline@.len() == kept_nodes(nodes.take(i as int)).len() + 1,
                description_from(timeline@[0], raw0),
                forall|k: int|
                    0 <= k < kept_nodes(nodes.take(i as int)).len() ==> item_from_node(
                        #[trigger] timeline@[k + 1],
                        kept_nodes(nodes.take(i as int))[k],
                    ),
            decreases rest.len(),
        {
            let node = rest.remove(0);
            assert(node == nodes[i as int]);
            assert(rest@ =~= nodes.skip(i + 1));
            let ghost prev = kept_nodes(nodes.take(i as int));
            proof {
                reveal(Seq::filter);
                assert(nodes.take(i + 1).drop_last() =~= nodes.take(i as int));
                assert(nodes.take(i + 1).last() == node);
            }
            match item_from(node) {
                Some(item) => {
                    timeline.push(item);
                    assert(kept_nodes(nodes.take(i + 1)) == prev.push(node));
                    assert forall|k: int|
                        0 <= k < kept_nodes(nodes.take(i + 1)).len() implies item_from_node(
                        #[trigger] timeline@[k + 1],
                        kept_nodes(nodes.take(i + 1))[k],
                    ) by {
                        if k < prev.len() {
                            assert(kept_nodes(nodes.take(i + 1))[k] == prev[k]);
                        }
                    }
                },
                None => {
                    assert(kept_nodes(nodes.take(i + 1)) == prev);
                },
            }
            i = i + 1;
        }
        assert(nodes.take(n as int) =~= nodes);

        let ghost rthreads = raw_threads@;
        let tn = raw_threads.len();
        let mut trest = raw_threads;
        let mut converted: Vec<ReviewThread> = Vec::new();
        let mut j: usize = 0;
        while trest.len() > 0
            invariant
                j + trest.len() == tn,
                tn == rthreads.len(),
                trest@ == rthreads.skip(j as int),
                converted@.len() == j,
                forall|k: int| 0 <= k < j ==> thread_from(#[trigger] converted@[k], rthreads[k]),
            decreases trest.len(),
        {
            let t = trest.remove(0);
            assert(t == rthreads[j as int]);
            assert(trest@ =~= rthreads.skip(j + 1));
            converted.push(ReviewThread::from_raw(t));
            j = j + 1;
        }
        let ghost conv = converted@;
        let threads = sort_thread_vec(converted, ThreadSort::Position);
        proof {
            let p = choose|p: Seq<int>|
                {
                    &&& is_perm(p, conv.len() as int)
                    &&& (forall|k: int| 0 <= k < threads@.len() ==> #[trigger] threads@[k] == conv[p[k]])
                    &&& keeps_ties(ThreadSort::Position, threads@, p)
                };
            assert forall|k: int| 0 <= k < threads@.len() implies thread_from(
                #[trigger] threads@[k],
                rthreads[p[k]],
            ) by {
                assert(threads@[k] == conv[p[k]]);
                assert(0 <= p[k] < conv.len());
            }
        }
        PrDetail {
            id: raw.id,
            number: raw.number,
            title: raw.title,
            state: raw.state,
            is_draft: raw.is_draft,
            author: login(raw.author),
            base_ref: raw.base_ref_name,
            head_ref: raw.head_ref_name,
            timeline,
            timeline_truncated,
            threads,
        }
    }
}

// ---- laws of the thread order ----

/// The positions in `s` whose item satisfies `pred`.
pub open spec fn index_set<A>(s: Seq<A>, pred: spec_fn(A) -> bool) -> Set<int> {
    Set::new(|i: int| 0 <= i < s.len() && pred(s[i]))
}

proof fn lemma_filter_len_is_index_set<A>(s: Seq<A>, pred: spec_fn(A) -> bool)
    ensures
        index_set(s, pred).finite(),
        s.filter(pred).len() == index_set(s, pred).len(),
    decreases s.len(),
{
    reveal(Seq::filter);
    if s.len() == 0 {
        assert(index_set(s, pred) =~= Set::<int>::empty());
    } else {
        let d = s.drop_last();
        lemma_filter_len_is_index_set(d, pred);
        let n = s.len() - 1;
        if pred(s.last()) {
            assert(index_set(s, pred) =~= index_set(d, pred).insert(n));
            assert(!index_set(d, pred).contains(n));
        } else {
            assert(index_set(s, pred) =~= index_set(d, pred));
        }
    }
}

/// Some entry of `p` is `i`.
pub open spec fn reached(p: Seq<int>, i: int) -> bool {
    exists|k: int| 0 <= k < p.len() && p[k] == i
}

/// A permutation of `0..n` reaches every position.
proof fn lemma_perm_onto(p: Seq<int>, n: int)
    requires
        is_perm(p, n),
        n >= 0,
    ensures
        forall|i: int| 0 <= i < n ==> #[trigger] reached(p, i),
{
    let r = vstd::set_lib::set_int_range(0, n);
    vstd::set_lib::lemma_int_range(0, n);
    let f = |k: int| p[k];
    let img = r.map(f);
    assert(vstd::relations::injective_on(f, r)) by {
        assert forall|x: int, y: int| r.contains(x) && r.contains(y) && #[trigger] f(x) == #[trigger] f(y) implies x == y by {
            if x < y {
                assert(p[x] != p[y]);
            } else if y < x {
                assert(p[y] != p[x]);
            }
        }
    }
    vstd::set_lib::lemma_map_size(r, img, f);
    assert(img.subset_of(r)) by {
        assert forall|i: int| img.contains(i) implies r.contains(i) by {
            let k = choose|k: int| r.contains(k) && f(k) == i;
            assert(0 <= p[k] < n);
        }
    }
    vstd::set_lib::lemma_subset_equality(img, r);
    assert forall|i: int| 0 <= i < n implies #[trigger] reached(p, i) by {
        assert(r.contains(i));
        assert(img.contains(i));
        let k = choose|k: int| r.contains(k) && f(k) == i;
        assert(0 <= k < p.len() && p[k] == i);
    }
}

/// Two sequences matched up by a permutation, with matched items agreeing
/// on the predicate, hold equally many items that satisfy it.
proof fn lemma_perm_count<A, B>(
    a: Seq<A>,
    pa: spec_fn(A) -> bool,
    b: Seq<B>,
    pb: spec_fn(B) -> bool,
    p: Seq<int>,
)
    requires
        a.len() == b.len(),
        is_perm(p, b.len() as int),
        forall|k: int| 0 <= k < a.len() ==> pa(#[trigger] a[k]) == pb(b[p[k]]),
    ensures
        a.filter(pa).len() == b.filter(pb).len(),
{
    let n = a.len() as int;
    lemma_filter_len_is_index_set(a, pa);
    lemma_filter_len_is_index_set(b, pb);
    lemma_perm_onto(p, n);
    let x = index_set(a, pa);
    let y = index_set(b, pb);
    let f = |k: int| p[k];
    assert(vstd::relations::injective_on(f, x)) by {
        assert forall|u: int, v: int| x.contains(u) && x.contains(v) && #[trigger] f(u) == #[trigger] f(v) implies u == v by {
            if u < v {
                assert(p[u] != p[v]);
            } else if v < u {
                assert(p[v] != p[u]);
            }
        }
    }
    assert(x.map(f) =~= y) by {
        assert forall|i: int| y.contains(i) implies x.map(f).contains(i) by {
            assert(reached(p, i));
            let k = choose|k: int| 0 <= k < p.len() && p[k] == i;
            assert(pa(a[k]) == pb(b[p[k]]));
            assert(x.contains(k));
            assert(f(k) == i);
        }
        assert forall|i: int| x.map(f).contains(i) implies y.contains(i) by {
            let k = choose|k: int| x.contains(k) && f(k) == i;
            assert(pa(a[k]) == pb(b[p[k]]));
        }
    }
    vstd::set_lib::lemma_map_size(x, y, f);
}

/// Sorting keeps the number of unresolved threads.
pub proof fn law_sort_keeps_unresolved_count(
    sort: ThreadSort,
    new: Seq<ReviewThread>,
    old: Seq<ReviewThread>,
)
    requires
        stable_sort_of(sort, new, old),
    ensures
        count_unresolved(new) == count_unresolved(old),
{
    let p = choose|p: Seq<int>|
        {
            &&& is_perm(p, old.len() as int)
            &&& (forall|k: int| 0 <= k < new.len() ==> #[trigger] new[k] == old[p[k]])
            &&& keeps_ties(sort, new, p)
        };
    let pred = |t: ReviewThread| !t.is_resolved;
    assert forall|k: int| 0 <= k < new.len() implies pred(#[trigger] new[k]) == pred(old[p[k]]) by {
        assert(new[k] == old[p[k]]);
    }
    lemma_perm_count(new, pred, old, pred, p);
}

/// A pull request shows as many unresolved threads as the raw threads it
/// was built from hold.
pub proof fn law_detail_unresolved_count(d: PrDetail, raw: RawPullRequest, raw_threads: Seq<RawThread>)
    requires
        detail_from(d, raw, raw_threads),
    ensures
        count_unresolved(d.threads@) == raw_threads.filter(|t: RawThread| !t.is_resolved).len(),
{
    let new = d.threads@;
    let p = choose|p: Seq<int>|
        {
            &&& is_perm(p, raw_threads.len() as int)
            &&& (forall|k: int| 0 <= k < new.len() ==> thread_from(#[trigger] new[k], raw_threads[p[k]]))
            &&& keeps_ties(ThreadSort::Position, new, p)
        };
    let pa = |t: ReviewThread| !t.is_resolved;
    let pb = |t: RawThread| !t.is_resolved;
    assert forall|k: int| 0 <= k < new.len() implies pa(#[trigger] new[k]) == pb(raw_threads[p[k]]) by {
        assert(thread_from(new[k], raw_threads[p[k]]));
    }
    lemma_perm_count(new, pa, raw_threads, pb, p);
}

/// In position order every unresolved thread comes before every resolved
/// one.
pub proof fn law_position_order_unresolved_first(s: Seq<ReviewThread>)
    requires
        sorted_by(ThreadSort::Position, s),
    ensures
        forall|i: int, j: int| 0 <= i < j < s.len() && !s[j].is_resolved ==> !s[i].is_resolved,
{
    assert forall|i: int, j: int| 0 <= i < j < s.len() && !s[j].is_resolved implies !s[i].is_resolved by {
        assert(!thread_before(ThreadSort::Position, s[j], s[i]));
    }
}

/// In activity order the latest activity comes first.
pub proof fn law_activity_order_newest_first(s: Seq<ReviewThread>)
    requires
        sorted_by(ThreadSort::Activity, s),
    ensures
        forall|i: int, j: int| 0 <= i < j < s.len() ==> s[i].last_activity >= s[j].last_activity,
{
    assert forall|i: int, j: int| 0 <= i < j < s.len() implies s[i].last_activity >= s[j].last_activity by {
        assert(!thread_before(ThreadSort::Activity, s[j], s[i]));
    }
}

/// In position order (what `sort_threads(ThreadSort::Position)` and
/// `from_raw` give), threads of the same state and file go by ascending
/// line.
pub proof fn law_position_lines_ascend(s: Seq<ReviewThread>)
    requires
        sorted_by(ThreadSort::Position, s),
    ensures
        forall|i: int, j: int, x: u64, y: u64|
            0 <= i < j < s.len() && s[i].is_resolved == s[j].is_resolved && s[i].path@
                == s[j].path@ && s[i].line == Some(x) && s[j].line == Some(y) ==> x <= y,
{
    assert forall|i: int, j: int, x: u64, y: u64|
        0 <= i < j < s.len() && s[i].is_resolved == s[j].is_resolved && s[i].path@ == s[j].path@
            && s[i].line == Some(x) && s[j].line == Some(y) implies x <= y by {
        assert(!thread_before(ThreadSort::Position, s[j], s[i]));
        lemma_seq_lt_total(s[j].path@, s[i].path@);
    }
}

/// Every review whose state is not "COMMENTED" shows in the conversation,
/// whatever its body: some timeline entry after the description is that
/// review, with its author, body, time and verdict.
pub proof fn law_reviews_with_verdict_shown(
    d: PrDetail,
    raw: RawPullRequest,
    raw_threads: Seq<RawThread>,
    k: int,
)
    requires
        detail_from(d, raw, raw_threads),
        0 <= k < raw.timeline_items.nodes@.len(),
        raw.timeline_items.nodes@[k] matches RawTimelineNode::PullRequestReview(r) && r.state@
            != "COMMENTED"@,
    ensures
        raw.timeline_items.nodes@[k] matches RawTimelineNode::PullRequestReview(r) && exists|m: int|
            1 <= m < d.timeline@.len() && d.timeline@[m].author@ == login_of(r.author)
                && d.timeline@[m].body == r.body && d.timeline@[m].created_at == ts_value(
                r.created_at@,
            ) && d.timeline@[m].kind == TimelineKind::Review(verdict_of(r.state@)),
{
    let nodes = raw.timeline_items.nodes@;
    let node = nodes[k];
    let r = node->PullRequestReview_0;
    reveal_strlit("COMMENTED");
    assert(verdict_of(r.state@) != ReviewVerdict::Commented);
    let pred = |n: RawTimelineNode| node_kept(n);
    assert(pred(nodes[k]));
    nodes.lemma_filter_contains(pred, k);
    let kept = kept_nodes(nodes);
    assert(kept.contains(node));
    let m = choose|m: int| 0 <= m < kept.len() && kept[m] == node;
    assert(item_from_node(d.timeline@[m + 1], kept[m]));
}

} // verus!
