//! The application's state and how each event changes it.
//!
//! `App` holds everything the screens show. `handle_event` is the whole of
//! the application's behaviour: it takes one event (a key press, a clock
//! tick, an API result, a clipboard outcome), updates the state, and queues
//! in `actions` the outside work that the event asks for (API calls, opening
//! a browser, the clipboard, the text editor). The caller performs the queued
//! actions and feeds their results back as events. `event_step` states the
//! whole behaviour as a relation between the state before and after.

use vstd::prelude::*;

use crate::cli::{pr_url, PrRef};
use crate::event::{ApiEvent, ApiResult, AppEvent, ClipboardOutcome, KeyCode, KeyInput};
use crate::github::types::{
    stable_sort_of, PrDetail, PrSummary, ReviewThread, ThreadSort,
};
use crate::github::{gh_error_text, GhError};
use crate::text::{chars_blank, is_blank, join, join_chars, split_once_spec, string_of, trim, trim_chars};

verus! {

#[derive(Debug, Clone, Copy, PartialEq, Eq, Structural)]
pub enum Screen {
    List,
    Detail,
}

#[derive(Debug, Clone, Copy, PartialEq, Eq, Structural)]
pub enum Pane {
    Conversation,
    Threads,
}

pub enum ComposeTarget {
    Conversation,
    ThreadReply { comment_db_id: u64, path: String },
}

/// The comment being written: where it goes, the editor's lines, whether it
/// is being sent, and whether one more Esc discards unsaved text.
pub struct Compose {
    pub target: ComposeTarget,
    pub lines: Vec<String>,
    pub sending: bool,
    pub confirm_discard: bool,
}

/// Outside work that an event asks for.
pub enum Action {
    /// Fetch the involved pull requests; answer with request id `req`.
    FetchList { req: u64 },
    /// Fetch one pull request; answer with request id `req`.
    FetchPr { pr: PrRef, req: u64 },
    /// Look for a newer release.
    CheckUpdate,
    /// Post a conversation comment on the pull request with node id
    /// `subject_id`.
    AddComment { subject_id: String, body: String },
    /// Reply to the review thread whose root comment is `comment_db_id`.
    Reply { pr: PrRef, comment_db_id: u64, body: String },
    /// Resolve or unresolve a review thread.
    SetResolved { thread_id: String, resolved: bool },
    /// Open an address in the browser.
    OpenUrl(String),
    /// Put a comment's text on the clipboard.
    Copy { body: String, author: String },
    /// Hand the key just received to the compose editor.
    EditCompose,
}

pub struct App {
    pub viewer: String,
    pub screen: Screen,
    pub prs: Vec<PrSummary>,
    pub list_loaded: bool,
    pub list_selected: Option<usize>,
    pub current_pr: Option<PrRef>,
    pub detail: Option<PrDetail>,
    pub pane: Pane,
    pub timeline_selected: Option<usize>,
    pub thread_selected: Option<usize>,
    pub thread_sort: ThreadSort,
    pub body_scroll: u16,
    pub comment_sel: usize,
    pub scroll_to_comment: bool,
    pub compose: Option<Compose>,
    pub loading: bool,
    pub spinner: usize,
    pub error: Option<String>,
    pub status: Option<String>,
    pub update_available: Option<String>,
    pub update_requested: bool,
    /// The id of the latest fetch; results of older fetches are dropped.
    pub req_seq: u64,
    /// Opened directly on one pull request (leaving it quits).
    pub direct: bool,
    pub should_quit: bool,
    /// Outside work queued for the caller, oldest first.
    pub actions: Vec<Action>,
}

// ---- small specs ----

pub open spec fn has_text(o: Option<String>, t: Seq<char>) -> bool {
    o matches Some(s) && s@ == t
}

/// `new` is `old` with one more action at the end.
pub open spec fn appended(old: Seq<Action>, new: Seq<Action>) -> bool {
    new == old.push(new.last())
}

pub open spec fn next_id(n: u64) -> u64 {
    if n == u64::MAX {
        0
    } else {
        (n + 1) as u64
    }
}

/// A selection kept within `len` items (none when there are none).
pub open spec fn clamped(sel: Option<usize>, len: int) -> Option<usize> {
    if len == 0 {
        None
    } else {
        let cur: int = match sel {
            Some(i) => i as int,
            None => 0,
        };
        Some((if cur < len - 1 {
            cur
        } else {
            len - 1
        }) as usize)
    }
}

/// A selection moved by `delta` and kept within `len` items.
pub open spec fn moved(sel: Option<usize>, len: int, delta: int) -> Option<usize> {
    if len == 0 {
        None
    } else {
        let t: int = match sel {
            Some(i) => i + delta,
            None => delta,
        };
        Some((if t < 0 {
            0
        } else if t > len - 1 {
            len - 1
        } else {
            t
        }) as usize)
    }
}

pub open spec fn flipped(s: ThreadSort) -> ThreadSort {
    match s {
        ThreadSort::Position => ThreadSort::Activity,
        ThreadSort::Activity => ThreadSort::Position,
    }
}

/// The thread under the Threads cursor.
pub open spec fn selected_thread_of(a: App) -> Option<ReviewThread> {
    match a.detail {
        Some(d) => match a.thread_selected {
            Some(i) => if i < d.threads@.len() {
                Some(d.threads@[i as int])
            } else {
                None
            },
            None => None,
        },
        None => None,
    }
}

/// The parts of the reference of the pull request under the list cursor.
pub open spec fn selected_pr_parts(a: App) -> Option<(Seq<char>, Seq<char>, u64)> {
    match a.list_selected {
        Some(i) => if i < a.prs@.len() {
            match split_once_spec(a.prs@[i as int].repo@, '/') {
                Some((o, r)) => Some((o, r, a.prs@[i as int].number)),
                None => None,
            }
        } else {
            None
        },
        None => None,
    }
}

pub open spec fn ref_parts(p: PrRef) -> (Seq<char>, Seq<char>, u64) {
    (p.owner@, p.repo@, p.number)
}

/// The selections stay within what they select from.
pub open spec fn sel_within(sel: Option<usize>, len: int) -> bool {
    sel matches Some(i) ==> i < len
}

impl App {
    /// Every selection points at an existing item; with no pull request
    /// loaded there is none in the detail panes; the pull request screen
    /// always has a pull request to show.
    pub open spec fn wf(self) -> bool {
        &&& sel_within(self.list_selected, self.prs@.len() as int)
        &&& (self.screen == Screen::Detail ==> self.current_pr is Some)
        &&& match self.detail {
            Some(d) => sel_within(self.timeline_selected, d.timeline@.len() as int)
                && sel_within(self.thread_selected, d.threads@.len() as int),
            None => self.timeline_selected is None && self.thread_selected is None,
        }
    }
}

/// The selections of `a` are in range: the list's always, the detail panes'
/// whenever a pull request is loaded; and the pull request screen has a
/// pull request to show. (`wf` asks in addition that no detail selection is
/// left over while nothing is loaded.)
pub open spec fn selections_within(a: App) -> bool {
    &&& sel_within(a.list_selected, a.prs@.len() as int)
    &&& (a.screen == Screen::Detail ==> a.current_pr is Some)
    &&& match a.detail {
        Some(d) => sel_within(a.timeline_selected, d.timeline@.len() as int) && sel_within(
            a.thread_selected,
            d.threads@.len() as int,
        ),
        None => true,
    }
}

// ---- step specs: what each operation does ----

/// A list fetch was started.
pub open spec fn listed(old: App, new: App) -> bool {
    let req = next_id(old.req_seq);
    &&& new == (App { req_seq: req, loading: true, error: None, actions: new.actions, ..old })
    &&& appended(old.actions@, new.actions@)
    &&& new.actions@.last() == (Action::FetchList { req })
}

/// The current pull request is being fetched again (nothing happens when
/// there is none).
pub open spec fn refreshed(old: App, new: App) -> bool {
    match old.current_pr {
        None => new == old,
        Some(pr) => {
            let req = next_id(old.req_seq);
            &&& new == (App { req_seq: req, loading: true, error: None, actions: new.actions, ..old })
            &&& appended(old.actions@, new.actions@)
            &&& new.actions@.last() == (Action::FetchPr { pr, req })
        },
    }
}

/// The body view is back at its top.
pub open spec fn view_reset(a: App) -> App {
    App { body_scroll: 0, comment_sel: 0, scroll_to_comment: false, ..a }
}

/// `new.current_pr` was opened: detail screen, nothing loaded yet, fetch
/// started.
pub open spec fn opened(old: App, new: App) -> bool {
    &&& new.current_pr is Some
    &&& refreshed(
        view_reset(
            App {
                screen: Screen::Detail,
                detail: None,
                pane: Pane::Conversation,
                timeline_selected: None,
                thread_selected: None,
                current_pr: new.current_pr,
                ..old
            },
        ),
        new,
    )
}

/// One more action, and nothing else changed.
pub open spec fn queued(old: App, new: App) -> bool {
    &&& new == (App { actions: new.actions, ..old })
    &&& appended(old.actions@, new.actions@)
}

pub open spec fn list_key_step(old: App, k: KeyInput, new: App) -> bool {
    let len = old.prs@.len() as int;
    match k.code {
        KeyCode::Char('q') | KeyCode::Esc => new == (App { should_quit: true, ..old }),
        KeyCode::Char('j') | KeyCode::Down => new == (App {
            list_selected: moved(old.list_selected, len, 1),
            ..old
        }),
        KeyCode::Char('k') | KeyCode::Up => new == (App {
            list_selected: moved(old.list_selected, len, -1),
            ..old
        }),
        KeyCode::Char('g') | KeyCode::Home => new == (App {
            list_selected: moved(old.list_selected, len, i64::MIN / 2),
            ..old
        }),
        KeyCode::Char('G') | KeyCode::End => new == (App {
            list_selected: moved(old.list_selected, len, i64::MAX / 2),
            ..old
        }),
        KeyCode::Enter => match selected_pr_parts(old) {
            Some(parts) => opened(old, new) && ref_parts(new.current_pr->0) == parts,
            None => new == old,
        },
        KeyCode::Char('r') => listed(old, new),
        KeyCode::Char('o') => match selected_pr_parts(old) {
            Some((o, r, n)) => queued(old, new) && (new.actions@.last() matches Action::OpenUrl(u)
                && u@ == pr_url(o, r, n)),
            None => new == old,
        },
        _ => new == old,
    }
}

pub open spec fn detail_sel_moved(old: App, delta: int, new: App) -> bool {
    match old.detail {
        None => new == old,
        Some(d) => match old.pane {
            Pane::Conversation => new == view_reset(
                App {
                    timeline_selected: moved(old.timeline_selected, d.timeline@.len() as int, delta),
                    ..old
                },
            ),
            Pane::Threads => new == view_reset(
                App {
                    thread_selected: moved(old.thread_selected, d.threads@.len() as int, delta),
                    ..old
                },
            ),
        },
    }
}

pub open spec fn comment_sel_moved(old: App, delta: int, new: App) -> bool {
    let a = App { pane: Pane::Threads, ..old };
    match selected_thread_of(a) {
        None => new == a,
        Some(t) => {
            let len = t.comments@.len() as int;
            if len == 0 {
                new == a
            } else {
                let cur = if old.comment_sel < len - 1 {
                    old.comment_sel as int
                } else {
                    len - 1
                };
                let t2 = cur + delta;
                let next = if t2 < 0 {
                    0
                } else if t2 > len - 1 {
                    len - 1
                } else {
                    t2
                };
                new == (App { comment_sel: next as usize, scroll_to_comment: true, ..a })
            }
        },
    }
}

pub open spec fn copy_step(old: App, new: App) -> bool {
    let a = App { pane: Pane::Threads, ..old };
    match selected_thread_of(a) {
        None => new == (App { status: new.status, ..a }) && has_text(
            new.status,
            "no thread selected"@,
        ),
        Some(t) => {
            let len = t.comments@.len() as int;
            if len == 0 {
                new == a
            } else {
                let i = if old.comment_sel < len - 1 {
                    old.comment_sel as int
                } else {
                    len - 1
                };
                &&& queued(a, new)
                &&& new.actions@.last() matches Action::Copy { body, author }
                &&& body == t.comments@[i].body && author == t.comments@[i].author
            }
        },
    }
}

pub open spec fn sort_toggled(old: App, new: App) -> bool {
    let s = flipped(old.thread_sort);
    let a = view_reset(App { thread_sort: s, pane: Pane::Threads, ..old });
    &&& new == (App { detail: new.detail, thread_selected: new.thread_selected, status: new.status, ..a })
    &&& match old.detail {
        None => new.detail is None && new.thread_selected == old.thread_selected,
        Some(d) => new.detail matches Some(nd) && nd == (PrDetail { threads: nd.threads, ..d })
            && stable_sort_of(s, nd.threads@, d.threads@) && new.thread_selected == (if d.threads@.len()
            == 0 {
            None::<usize>
        } else {
            Some(0usize)
        }),
    }
    &&& has_text(
        new.status,
        match s {
            ThreadSort::Position => "threads sorted by file (unresolved first)"@,
            ThreadSort::Activity => "threads sorted by latest comment"@,
        },
    )
}

pub open spec fn unresolved_at(t: Seq<ReviewThread>, i: int) -> bool {
    0 <= i < t.len() && !t[i].is_resolved
}

/// `i` is where `]` (forward) or `[` (backward) lands from `cur`: the next
/// unresolved thread in that direction, wrapping around to the first (or
/// last) unresolved thread.
pub open spec fn jump_target(t: Seq<ReviewThread>, cur: int, forward: bool, i: int) -> bool {
    if forward {
        if exists|j: int| j > cur && unresolved_at(t, j) {
            unresolved_at(t, i) && i > cur && forall|j: int| cur < j < i ==> !unresolved_at(t, j)
        } else {
            unresolved_at(t, i) && forall|j: int| 0 <= j < i ==> !unresolved_at(t, j)
        }
    } else {
        if exists|j: int| j < cur && unresolved_at(t, j) {
            unresolved_at(t, i) && i < cur && forall|j: int| i < j < cur ==> !unresolved_at(t, j)
        } else {
            unresolved_at(t, i) && forall|j: int| i < j < t.len() ==> !unresolved_at(t, j)
        }
    }
}

pub open spec fn jumped(old: App, forward: bool, new: App) -> bool {
    match old.detail {
        None => new == old,
        Some(d) => {
            let t = d.threads@;
            if forall|j: int| !unresolved_at(t, j) {
                new == (App { status: new.status, ..old }) && has_text(
                    new.status,
                    "no unresolved threads"@,
                )
            } else {
                let cur: int = match old.thread_selected {
                    Some(c) => c as int,
                    None => 0,
                };
                &&& new == view_reset(
                    App { pane: Pane::Threads, thread_selected: new.thread_selected, ..old },
                )
                &&& new.thread_selected matches Some(i) && jump_target(t, cur, forward, i as int)
            }
        },
    }
}

pub open spec fn compose_started(old: App, new: App) -> bool {
    match old.detail {
        None => new == old,
        Some(_) => {
            &&& new == (App { compose: new.compose, ..old })
            &&& new.compose matches Some(c) && c.target is Conversation && c.lines@.len() == 0
                && !c.sending && !c.confirm_discard
        },
    }
}

pub open spec fn reply_started(old: App, new: App) -> bool {
    let a = App { pane: Pane::Threads, ..old };
    match selected_thread_of(a) {
        None => new == (App { status: new.status, ..a }) && has_text(
            new.status,
            "no thread selected"@,
        ),
        Some(t) => match t.reply_to_db_id {
            None => new == (App { error: new.error, ..a }) && has_text(
                new.error,
                "cannot reply: thread has no root comment id"@,
            ),
            Some(id) => {
                &&& new == (App { compose: new.compose, ..a })
                &&& new.compose matches Some(c) && c.target matches ComposeTarget::ThreadReply {
                    comment_db_id,
                    path,
                } && comment_db_id == id && path == t.path && c.lines@.len() == 0 && !c.sending
                    && !c.confirm_discard
            },
        },
    }
}

pub open spec fn resolve_toggled(old: App, new: App) -> bool {
    let a = App { pane: Pane::Threads, ..old };
    match selected_thread_of(a) {
        None => new == a,
        Some(t) => {
            &&& queued(a, new)
            &&& new.actions@.last() matches Action::SetResolved { thread_id, resolved }
            &&& thread_id == t.id && resolved == !t.is_resolved
        },
    }
}

pub open spec fn detail_key_step(old: App, k: KeyInput, new: App) -> bool {
    match k.code {
        KeyCode::Esc | KeyCode::Char('q') => if old.direct {
            new == (App { should_quit: true, ..old })
        } else if old.list_loaded {
            new == (App { screen: Screen::List, ..old })
        } else {
            listed(App { screen: Screen::List, ..old }, new)
        },
        KeyCode::Tab => new == view_reset(
            App {
                pane: match old.pane {
                    Pane::Conversation => Pane::Threads,
                    Pane::Threads => Pane::Conversation,
                },
                ..old
            },
        ),
        KeyCode::Char('1') => new == view_reset(App { pane: Pane::Conversation, ..old }),
        KeyCode::Char('2') => new == view_reset(App { pane: Pane::Threads, ..old }),
        KeyCode::Char('j') | KeyCode::Down => detail_sel_moved(old, 1, new),
        KeyCode::Char('k') | KeyCode::Up => detail_sel_moved(old, -1, new),
        KeyCode::Char('g') | KeyCode::Home => detail_sel_moved(old, i64::MIN / 2, new),
        KeyCode::Char('G') | KeyCode::End => detail_sel_moved(old, i64::MAX / 2, new),
        KeyCode::Char('d') if k.ctrl => new == (App {
            body_scroll: if old.body_scroll + 5 > u16::MAX {
                u16::MAX
            } else {
                (old.body_scroll + 5) as u16
            },
            ..old
        }),
        KeyCode::Char('u') if k.ctrl => new == (App {
            body_scroll: if old.body_scroll < 5 {
                0u16
            } else {
                (old.body_scroll - 5) as u16
            },
            ..old
        }),
        KeyCode::PageDown => new == (App {
            body_scroll: if old.body_scroll + 5 > u16::MAX {
                u16::MAX
            } else {
                (old.body_scroll + 5) as u16
            },
            ..old
        }),
        KeyCode::PageUp => new == (App {
            body_scroll: if old.body_scroll < 5 {
                0u16
            } else {
                (old.body_scroll - 5) as u16
            },
            ..old
        }),
        KeyCode::Char('J') => comment_sel_moved(old, 1, new),
        KeyCode::Char('K') => comment_sel_moved(old, -1, new),
        KeyCode::Char('y') => copy_step(old, new),
        KeyCode::Char('s') => sort_toggled(old, new),
        KeyCode::Char(']') => jumped(old, true, new),
        KeyCode::Char('[') => jumped(old, false, new),
        KeyCode::Char('c') => compose_started(old, new),
        KeyCode::Char('a') => reply_started(old, new),
        KeyCode::Char('x') => resolve_toggled(old, new),
        KeyCode::Char('r') => refreshed(old, new),
        KeyCode::Char('o') => match old.current_pr {
            Some(p) => queued(old, new) && (new.actions@.last() matches Action::OpenUrl(u) && u@
                == pr_url(p.owner@, p.repo@, p.number)),
            None => new == old,
        },
        _ => new == old,
    }
}

/// The text of the compose editor, lines joined with `sep`.
pub open spec fn compose_text(c: Compose, sep: Seq<char>) -> Seq<char> {
    join(c.lines@.map_values(|l: String| l@), sep)
}

/// Ctrl-S in the compose editor: the trimmed text is sent, unless it is
/// empty or no pull request is loaded.
pub open spec fn submitted(old: App, new: App) -> bool {
    match (old.detail, old.compose) {
        (Some(d), Some(c)) => {
            let body = trim(compose_text(c, "\n"@));
            if body.len() == 0 {
                new == old
            } else {
                &&& new.compose matches Some(nc) && nc == (Compose { sending: true, ..c })
                &&& match c.target {
                    ComposeTarget::Conversation => {
                        &&& queued(App { compose: new.compose, ..old }, new)
                        &&& new.actions@.last() matches Action::AddComment { subject_id, body: b }
                        &&& subject_id == d.id && b@ == body
                    },
                    ComposeTarget::ThreadReply { comment_db_id, .. } => match old.current_pr {
                        None => new == (App { compose: new.compose, ..old }),
                        Some(pr) => {
                            &&& queued(App { compose: new.compose, ..old }, new)
                            &&& new.actions@.last() matches Action::Reply {
                                pr: p,
                                comment_db_id: id,
                                body: b,
                            }
                            &&& p == pr && id == comment_db_id && b@ == body
                        },
                    },
                }
            }
        },
        _ => new == old,
    }
}

pub open spec fn compose_key_step(old: App, k: KeyInput, new: App) -> bool {
    match old.compose {
        None => new == old,
        Some(c) => if c.sending {
            new == old
        } else {
            match k.code {
                KeyCode::Char('s') if k.ctrl => submitted(old, new),
                KeyCode::Esc => if is_blank(compose_text(c, ""@)) || c.confirm_discard {
                    new == (App { compose: None, ..old })
                } else {
                    new == (App { compose: new.compose, ..old }) && (new.compose matches Some(nc)
                        && nc == (Compose { confirm_discard: true, ..c }))
                },
                _ => {
                    &&& new == (App { compose: new.compose, actions: new.actions, ..old })
                    &&& new.compose matches Some(nc) && nc == (Compose { confirm_discard: false, ..c })
                    &&& appended(old.actions@, new.actions@)
                    &&& new.actions@.last() is EditCompose
                },
            }
        },
    }
}

pub open spec fn key_step(old: App, k: KeyInput, new: App) -> bool {
    let a = App { error: None, status: None, ..old };
    if k.code == KeyCode::Char('c') && k.ctrl {
        new == (App { should_quit: true, ..a })
    } else if a.compose is Some {
        compose_key_step(a, k, new)
    } else if k.code == KeyCode::Char('U') && a.update_available is Some {
        new == (App { update_requested: true, should_quit: true, ..a })
    } else {
        match a.screen {
            Screen::List => list_key_step(a, k, new),
            Screen::Detail => detail_key_step(a, k, new),
        }
    }
}

/// The first thread whose id is `id`.
pub open spec fn first_with_id(t: Seq<ReviewThread>, id: Seq<char>, i: int) -> bool {
    0 <= i < t.len() && t[i].id@ == id && forall|j: int| 0 <= j < i ==> t[j].id@ != id
}

pub open spec fn api_step(old: App, msg: ApiEvent, new: App) -> bool {
    if msg.req matches Some(r) && r != old.req_seq {
        // A stale fetch, superseded by a newer request.
        new == old
    } else {
        match msg.payload {
            ApiResult::PrList(Ok(prs)) => new == (App {
                loading: false,
                list_loaded: true,
                list_selected: clamped(old.list_selected, prs@.len() as int),
                prs,
                ..old
            }),
            ApiResult::PrList(Err(e)) => new == (App { loading: false, error: new.error, ..old })
                && has_text(new.error, gh_error_text(e)),
            ApiResult::PrDetail(Ok(d)) => {
                &&& new == (App {
                    loading: false,
                    detail: new.detail,
                    timeline_selected: clamped(old.timeline_selected, d.timeline@.len() as int),
                    thread_selected: clamped(old.thread_selected, d.threads@.len() as int),
                    ..old
                })
                &&& new.detail matches Some(nd) && nd == (PrDetail { threads: nd.threads, ..d })
                    && stable_sort_of(old.thread_sort, nd.threads@, d.threads@)
            },
            ApiResult::PrDetail(Err(e)) => new == (App { loading: false, error: new.error, ..old })
                && has_text(new.error, gh_error_text(e)),
            ApiResult::Posted(Ok(())) => {
                let a = App { compose: None, status: new.status, ..old };
                has_text(new.status, "posted ✓"@) && refreshed(a, new)
            },
            ApiResult::Posted(Err(e)) => {
                &&& new == (App { compose: new.compose, error: new.error, ..old })
                &&& has_text(new.error, gh_error_text(e))
                &&& match old.compose {
                    None => new.compose is None,
                    Some(c) => new.compose == Some(Compose { sending: false, ..c }),
                }
            },
            ApiResult::ThreadResolved(Ok((id, resolved))) => {
                &&& new == (App { detail: new.detail, status: new.status, ..old })
                &&& has_text(
                    new.status,
                    if resolved {
                        "thread resolved ✓"@
                    } else {
                        "thread unresolved"@
                    },
                )
                &&& match old.detail {
                    None => new.detail is None,
                    Some(d) => new.detail matches Some(nd) && nd == (PrDetail {
                        threads: nd.threads,
                        ..d
                    }) && if exists|i: int| first_with_id(d.threads@, id@, i) {
                        exists|i: int|
                            first_with_id(d.threads@, id@, i) && nd.threads@ == d.threads@.update(
                                i,
                                ReviewThread { is_resolved: resolved, ..d.threads@[i] },
                            )
                    } else {
                        nd.threads@ == d.threads@
                    },
                }
            },
            ApiResult::ThreadResolved(Err(e)) => new == (App { error: new.error, ..old })
                && has_text(new.error, gh_error_text(e)),
            ApiResult::UpdateAvailable(v) => new == (App { update_available: Some(v), ..old }),
        }
    }
}

pub open spec fn clipboard_step(old: App, o: ClipboardOutcome, new: App) -> bool {
    match o {
        ClipboardOutcome::Copied { author } => new == (App { status: new.status, ..old })
            && has_text(new.status, "copied comment by "@ + author@ + " ✓"@),
        ClipboardOutcome::Unavailable(e) => new == (App { error: new.error, ..old }) && has_text(
            new.error,
            "clipboard unavailable: "@ + e@,
        ),
        ClipboardOutcome::Failed(e) => new == (App { error: new.error, ..old }) && has_text(
            new.error,
            "copy failed: "@ + e@,
        ),
    }
}

/// The whole behaviour: how one event takes the state `old` to `new`.
pub open spec fn event_step(old: App, ev: AppEvent, new: App) -> bool {
    match ev {
        AppEvent::Tick => new == (App {
            spinner: if old.spinner == usize::MAX {
                0usize
            } else {
                (old.spinner + 1) as usize
            },
            ..old
        }),
        AppEvent::Api(msg) => api_step(old, msg, new),
        AppEvent::Key(k) => if k.press {
            key_step(old, k, new)
        } else {
            new == old
        },
        AppEvent::Clipboard(o) => clipboard_step(old, o, new),
        AppEvent::Other => new == old,
    }
}

// ---- the operations ----

fn move_sel(sel: Option<usize>, len: usize, delta: i64) -> (r: Option<usize>)
    ensures
        r == moved(sel, len as int, delta as int),
{
    if len == 0 {
        return None;
    }
    let cur: i128 = match sel {
        Some(i) => i as i128,
        None => 0,
    };
    let t: i128 = cur + delta as i128;
    let hi: i128 = (len - 1) as i128;
    let v: i128 = if t < 0 {
        0
    } else if t > hi {
        hi
    } else {
        t
    };
    Some(v as usize)
}

fn clamp(sel: Option<usize>, len: usize) -> (r: Option<usize>)
    ensures
        r == clamped(sel, len as int),
{
    if len == 0 {
        None
    } else {
        let cur: usize = match sel {
            Some(i) => i,
            None => 0,
        };
        Some(if cur < len - 1 {
            cur
        } else {
            len - 1
        })
    }
}

impl App {
    /// The state at start-up: opening `direct` if given, else the list; a
    /// release check is queued as well.
    pub fn new(viewer: String, direct: Option<PrRef>) -> (r: App)
        ensures
            r.wf(),
            r.viewer == viewer,
            r.prs@.len() == 0,
            !r.list_loaded,
            r.list_selected is None,
            r.detail is None,
            r.pane == Pane::Conversation,
            r.timeline_selected is None,
            r.thread_selected is None,
            r.thread_sort == ThreadSort::Activity,
            r.body_scroll == 0,
            r.comment_sel == 0,
            !r.scroll_to_comment,
            r.compose is None,
            r.loading,
            r.spinner == 0,
            r.error is None,
            r.status is None,
            r.update_available is None,
            !r.update_requested,
            r.req_seq == 1,
            !r.should_quit,
            r.direct == direct is Some,
            r.current_pr == direct,
            match direct {
                Some(pr) => r.screen == Screen::Detail && r.actions@ == seq![
                    Action::FetchPr { pr, req: 1 },
                    Action::CheckUpdate,
                ],
                None => r.screen == Screen::List && r.actions@ == seq![
                    Action::FetchList { req: 1 },
                    Action::CheckUpdate,
                ],
            },
    {
        let is_direct = match &direct {
            Some(_) => true,
            None => false,
        };
        let mut app = App {
            viewer,
            screen: Screen::List,
            prs: Vec::new(),
            list_loaded: false,
            list_selected: None,
            current_pr: None,
            detail: None,
            pane: Pane::Conversation,
            timeline_selected: None,
            thread_selected: None,
            // Threads show latest comment first until `s` switches the order.
            thread_sort: ThreadSort::Activity,
            body_scroll: 0,
            comment_sel: 0,
            scroll_to_comment: false,
            compose: None,
            loading: false,
            spinner: 0,
            error: None,
            status: None,
            update_available: None,
            update_requested: false,
            req_seq: 0,
            direct: is_direct,
            should_quit: false,
            actions: Vec::new(),
        };
        match direct {
            Some(pr) => app.open_pr(pr),
            None => app.load_list(),
        }
        app.actions.push(Action::CheckUpdate);
        proof {
            assert(app.actions@ =~= seq![app.actions@[0], Action::CheckUpdate]);
        }
        app
    }

    /// Takes the queued actions, oldest first.
    pub fn take_actions(&mut self) -> (r: Vec<Action>)
        ensures
            r@ == old(self).actions@,
            *final(self) == (App { actions: final(self).actions, ..*old(self) }),
            final(self).actions@.len() == 0,
    {
        let mut r: Vec<Action> = Vec::new();
        std::mem::swap(&mut r, &mut self.actions);
        r
    }

    fn next_req(&mut self) -> (r: u64)
        ensures
            r == next_id(old(self).req_seq),
            *final(self) == (App { req_seq: r, ..*old(self) }),
    {
        self.req_seq = if self.req_seq == u64::MAX {
            0
        } else {
            self.req_seq + 1
        };
        self.req_seq
    }

    pub fn load_list(&mut self)
        ensures
            listed(*old(self), *final(self)),
    {
        let req = self.next_req();
        self.loading = true;
        self.error = None;
        self.actions.push(Action::FetchList { req });
    }

    pub fn open_pr(&mut self, pr: PrRef)
        ensures
            opened(*old(self), *final(self)),
            final(self).current_pr == Some(pr),
    {
        self.screen = Screen::Detail;
        self.detail = None;
        self.pane = Pane::Conversation;
        self.timeline_selected = None;
        self.thread_selected = None;
        self.reset_body_view();
        self.current_pr = Some(pr);
        self.refresh_detail();
    }

    pub fn refresh_detail(&mut self)
        ensures
            refreshed(*old(self), *final(self)),
    {
        let pr = match &self.current_pr {
            Some(p) => p.clone(),
            None => {
                return;
            },
        };
        let req = self.next_req();
        self.loading = true;
        self.error = None;
        self.actions.push(Action::FetchPr { pr, req });
    }

    /// Takes one event.
    pub fn handle_event(&mut self, ev: AppEvent)
        ensures
            event_step(*old(self), ev, *final(self)),
            old(self).wf() ==> final(self).wf(),
            selections_within(*old(self)) ==> selections_within(*final(self)),
    {
        let ghost ev0 = ev;
        match ev {
            AppEvent::Tick => {
                self.spinner = if self.spinner == usize::MAX {
                    0
                } else {
                    self.spinner + 1
                };
            },
            AppEvent::Api(msg) => self.handle_api(msg),
            AppEvent::Key(key) => {
                if key.press {
                    self.handle_key(key);
                }
            },
            AppEvent::Clipboard(o) => self.handle_clipboard(o),
            AppEvent::Other => {},
        }
        proof {
            if old(self).wf() {
                law_event_keeps_wf(*old(self), ev0, *self);
            }
            if selections_within(*old(self)) {
                law_selections_stay_within(*old(self), ev0, *self);
            }
        }
    }

    fn handle_clipboard(&mut self, o: ClipboardOutcome)
        ensures
            clipboard_step(*old(self), o, *final(self)),
    {
        match o {
            ClipboardOutcome::Copied { author } => {
                let mut m = String::from_str("copied comment by ");
                m.append(author.as_str());
                m.append(" ✓");
                self.status = Some(m);
            },
            ClipboardOutcome::Unavailable(e) => {
                let mut m = String::from_str("clipboard unavailable: ");
                m.append(e.as_str());
                self.error = Some(m);
            },
            ClipboardOutcome::Failed(e) => {
                let mut m = String::from_str("copy failed: ");
                m.append(e.as_str());
                self.error = Some(m);
            },
        }
    }

    #[verifier::rlimit(60)]
    #[verifier::spinoff_prover]
    fn handle_api(&mut self, msg: ApiEvent)
        ensures
            api_step(*old(self), msg, *final(self)),
    {
        if let Some(req) = msg.req {
            if req != self.req_seq {
                return;
            }
        }
        match msg.payload {
            ApiResult::PrList(Ok(prs)) => {
                self.loading = false;
                self.list_loaded = true;
                self.list_selected = clamp(self.list_selected, prs.len());
                self.prs = prs;
            },
            ApiResult::PrList(Err(e)) => {
                self.loading = false;
                self.error = Some(e.message());
            },
            ApiResult::PrDetail(Ok(detail)) => {
                let mut detail = detail;
                self.loading = false;
                detail.sort_threads(self.thread_sort);
                self.timeline_selected = clamp(self.timeline_selected, detail.timeline.len());
                self.thread_selected = clamp(self.thread_selected, detail.threads.len());
                self.detail = Some(detail);
            },
            ApiResult::PrDetail(Err(e)) => {
                self.loading = false;
                self.error = Some(e.message());
            },
            ApiResult::Posted(Ok(())) => {
                self.compose = None;
                self.status = Some(String::from_str("posted ✓"));
                self.refresh_detail();
            },
            ApiResult::Posted(Err(e)) => {
                let mut c: Option<Compose> = None;
                std::mem::swap(&mut c, &mut self.compose);
                match c {
                    Some(mut comp) => {
                        comp.sending = false;
                        self.compose = Some(comp);
                    },
                    None => {},
                }
                self.error = Some(e.message());
            },
            ApiResult::ThreadResolved(Ok((id, resolved))) => {
                let mut d: Option<PrDetail> = None;
                std::mem::swap(&mut d, &mut self.detail);
                match d {
                    Some(mut det) => {
                        set_resolved_by_id(&mut det.threads, &id, resolved);
                        self.detail = Some(det);
                    },
                    None => {},
                }
                self.status = Some(
                    if resolved {
                        String::from_str("thread resolved ✓")
                    } else {
                        String::from_str("thread unresolved")
                    },
                );
            },
            ApiResult::ThreadResolved(Err(e)) => {
                self.error = Some(e.message());
            },
            ApiResult::UpdateAvailable(version) => {
                self.update_available = Some(version);
            },
        }
    }

    /// Once the body pane is laid out: where a jump to the selected comment
    /// was asked for, the body scrolls to that comment's row (`row`, when a
    /// thread is shown) and the request is done.
    pub fn settle_comment_scroll(&mut self, row: Option<u16>)
        ensures
            *final(self) == (if old(self).scroll_to_comment {
                match row {
                    Some(r) => App { scroll_to_comment: false, body_scroll: r, ..*old(self) },
                    None => App { scroll_to_comment: false, ..*old(self) },
                }
            } else {
                *old(self)
            }),
    {
        if self.scroll_to_comment {
            self.scroll_to_comment = false;
            if let Some(r) = row {
                self.body_scroll = r;
            }
        }
    }

    /// The thread under the Threads cursor.
    pub fn selected_thread(&self) -> (r: Option<&ReviewThread>)
        ensures
            match r {
                Some(t) => selected_thread_of(*self) == Some(*t),
                None => selected_thread_of(*self) is None,
            },
    {
        match &self.detail {
            None => None,
            Some(d) => match self.thread_selected {
                None => None,
                Some(i) => if i < d.threads.len() {
                    Some(&d.threads[i])
                } else {
                    None
                },
            },
        }
    }

    fn reset_body_view(&mut self)
        ensures
            *final(self) == view_reset(*old(self)),
    {
        self.body_scroll = 0;
        self.comment_sel = 0;
        self.scroll_to_comment = false;
    }

    fn handle_key(&mut self, key: KeyInput)
        ensures
            key_step(*old(self), key, *final(self)),
    {
        // Any keypress dismisses transient messages.
        self.error = None;
        self.status = None;
        if key.code == KeyCode::Char('c') && key.ctrl {
            self.should_quit = true;
            return;
        }
        if self.compose.is_some() {
            self.handle_key_compose(key);
            return;
        }
        if key.code == KeyCode::Char('U') && self.update_available.is_some() {
            self.update_requested = true;
            self.should_quit = true;
            return;
        }
        match self.screen {
            Screen::List => self.handle_key_list(key),
            Screen::Detail => self.handle_key_detail(key),
        }
    }

    fn selected_pr_ref(&self) -> (r: Option<PrRef>)
        ensures
            match selected_pr_parts(*self) {
                Some(parts) => r matches Some(p) && ref_parts(p) == parts,
                None => r is None,
            },
    {
        match self.list_selected {
            None => None,
            Some(i) => if i < self.prs.len() {
                self.prs[i].pr_ref()
            } else {
                None
            },
        }
    }

    fn handle_key_list(&mut self, key: KeyInput)
        ensures
            list_key_step(*old(self), key, *final(self)),
    {
        let len = self.prs.len();
        match key.code {
            KeyCode::Char('q') | KeyCode::Esc => self.should_quit = true,
            KeyCode::Char('j') | KeyCode::Down => self.list_selected = move_sel(
                self.list_selected,
                len,
                1,
            ),
            KeyCode::Char('k') | KeyCode::Up => self.list_selected = move_sel(
                self.list_selected,
                len,
                -1,
            ),
            KeyCode::Char('g') | KeyCode::Home => self.list_selected = move_sel(
                self.list_selected,
                len,
                i64::MIN / 2,
            ),
            KeyCode::Char('G') | KeyCode::End => self.list_selected = move_sel(
                self.list_selected,
                len,
                i64::MAX / 2,
            ),
            KeyCode::Enter => {
                if let Some(pr) = self.selected_pr_ref() {
                    self.open_pr(pr);
                }
            },
            KeyCode::Char('r') => self.load_list(),
            KeyCode::Char('o') => {
                if let Some(pr) = self.selected_pr_ref() {
                    let url = pr.url();
                    self.actions.push(Action::OpenUrl(url));
                }
            },
            _ => {},
        }
    }

    fn handle_key_detail(&mut self, key: KeyInput)
        ensures
            detail_key_step(*old(self), key, *final(self)),
    {
        match key.code {
            KeyCode::Esc | KeyCode::Char('q') => {
                if self.direct {
                    self.should_quit = true;
                } else {
                    self.screen = Screen::List;
                    if !self.list_loaded {
                        self.load_list();
                    }
                }
            },
            KeyCode::Tab => {
                self.pane = match self.pane {
                    Pane::Conversation => Pane::Threads,
                    Pane::Threads => Pane::Conversation,
                };
                self.reset_body_view();
            },
            KeyCode::Char('1') => {
                self.pane = Pane::Conversation;
                self.reset_body_view();
            },
            KeyCode::Char('2') => {
                self.pane = Pane::Threads;
                self.reset_body_view();
            },
            KeyCode::Char('j') | KeyCode::Down => self.move_detail_sel(1),
            KeyCode::Char('k') | KeyCode::Up => self.move_detail_sel(-1),
            KeyCode::Char('g') | KeyCode::Home => self.move_detail_sel(i64::MIN / 2),
            KeyCode::Char('G') | KeyCode::End => self.move_detail_sel(i64::MAX / 2),
            KeyCode::Char('d') if key.ctrl => {
                self.body_scroll = self.body_scroll.saturating_add(5);
            },
            KeyCode::Char('u') if key.ctrl => {
                self.body_scroll = self.body_scroll.saturating_sub(5);
            },
            KeyCode::PageDown => self.body_scroll = self.body_scroll.saturating_add(5),
            KeyCode::PageUp => self.body_scroll = self.body_scroll.saturating_sub(5),
            KeyCode::Char('J') => self.move_comment_sel(1),
            KeyCode::Char('K') => self.move_comment_sel(-1),
            KeyCode::Char('y') => self.copy_selected_comment(),
            KeyCode::Char('s') => self.toggle_thread_sort(),
            KeyCode::Char(']') => self.jump_unresolved(1),
            KeyCode::Char('[') => self.jump_unresolved(-1),
            KeyCode::Char('c') => self.start_compose_conversation(),
            KeyCode::Char('a') => self.start_compose_reply(),
            KeyCode::Char('x') => self.toggle_resolve(),
            KeyCode::Char('r') => self.refresh_detail(),
            KeyCode::Char('o') => {
                let url = match &self.current_pr {
                    Some(pr) => Some(pr.url()),
                    None => None,
                };
                if let Some(u) = url {
                    self.actions.push(Action::OpenUrl(u));
                }
            },
            _ => {},
        }
    }

    fn move_detail_sel(&mut self, delta: i64)
        ensures
            detail_sel_moved(*old(self), delta as int, *final(self)),
    {
        let (tl, th) = match &self.detail {
            None => {
                return;
            },
            Some(d) => (d.timeline.len(), d.threads.len()),
        };
        match self.pane {
            Pane::Conversation => self.timeline_selected = move_sel(
                self.timeline_selected,
                tl,
                delta,
            ),
            Pane::Threads => self.thread_selected = move_sel(self.thread_selected, th, delta),
        }
        self.reset_body_view();
    }

    fn move_comment_sel(&mut self, delta: i64)
        ensures
            comment_sel_moved(*old(self), delta as int, *final(self)),
    {
        self.pane = Pane::Threads;
        let len = match self.selected_thread() {
            None => {
                return;
            },
            Some(t) => t.comments.len(),
        };
        if len == 0 {
            return;
        }
        let cur: i128 = if self.comment_sel < len - 1 {
            self.comment_sel as i128
        } else {
            (len - 1) as i128
        };
        let t: i128 = cur + delta as i128;
        let hi: i128 = (len - 1) as i128;
        let next: i128 = if t < 0 {
            0
        } else if t > hi {
            hi
        } else {
            t
        };
        self.comment_sel = next as usize;
        self.scroll_to_comment = true;
    }

    fn copy_selected_comment(&mut self)
        ensures
            copy_step(*old(self), *final(self)),
    {
        self.pane = Pane::Threads;
        let picked = match self.selected_thread() {
            None => None,
            Some(t) => {
                let len = t.comments.len();
                if len == 0 {
                    Some(None)
                } else {
                    let i = if self.comment_sel < len - 1 {
                        self.comment_sel
                    } else {
                        len - 1
                    };
                    Some(Some((t.comments[i].body.clone(), t.comments[i].author.clone())))
                }
            },
        };
        match picked {
            None => {
                self.status = Some(String::from_str("no thread selected"));
            },
            Some(None) => {},
            Some(Some((body, author))) => {
                self.actions.push(Action::Copy { body, author });
            },
        }
    }

    fn toggle_thread_sort(&mut self)
        ensures
            sort_toggled(*old(self), *final(self)),
    {
        self.thread_sort = match self.thread_sort {
            ThreadSort::Position => ThreadSort::Activity,
            ThreadSort::Activity => ThreadSort::Position,
        };
        self.pane = Pane::Threads;
        self.reset_body_view();
        let mut d: Option<PrDetail> = None;
        std::mem::swap(&mut d, &mut self.detail);
        match d {
            Some(mut det) => {
                det.sort_threads(self.thread_sort);
                self.thread_selected = if det.threads.len() == 0 {
                    None
                } else {
                    Some(0)
                };
                self.detail = Some(det);
            },
            None => {},
        }
        self.status = Some(
            match self.thread_sort {
                ThreadSort::Position => String::from_str("threads sorted by file (unresolved first)"),
                ThreadSort::Activity => String::from_str("threads sorted by latest comment"),
            },
        );
    }

    fn jump_unresolved(&mut self, dir: i64)
        ensures
            jumped(*old(self), dir > 0, *final(self)),
    {
        let next = match &self.detail {
            None => {
                return;
            },
            Some(d) => {
                let cur: usize = match self.thread_selected {
                    Some(c) => c,
                    None => 0,
                };
                find_jump(&d.threads, cur, dir > 0)
            },
        };
        match next {
            None => {
                self.status = Some(String::from_str("no unresolved threads"));
            },
            Some(i) => {
                self.pane = Pane::Threads;
                self.thread_selected = Some(i);
                self.reset_body_view();
            },
        }
    }

    fn start_compose_conversation(&mut self)
        ensures
            compose_started(*old(self), *final(self)),
    {
        if self.detail.is_none() {
            return;
        }
        self.compose = Some(
            Compose {
                target: ComposeTarget::Conversation,
                lines: Vec::new(),
                sending: false,
                confirm_discard: false,
            },
        );
    }

    fn start_compose_reply(&mut self)
        ensures
            reply_started(*old(self), *final(self)),
    {
        self.pane = Pane::Threads;
        let found = match self.selected_thread() {
            None => None,
            Some(t) => Some((t.reply_to_db_id, t.path.clone())),
        };
        match found {
            None => {
                self.status = Some(String::from_str("no thread selected"));
            },
            Some((None, _)) => {
                self.error = Some(String::from_str("cannot reply: thread has no root comment id"));
            },
            Some((Some(comment_db_id), path)) => {
                self.compose = Some(
                    Compose {
                        target: ComposeTarget::ThreadReply { comment_db_id, path },
                        lines: Vec::new(),
                        sending: false,
                        confirm_discard: false,
                    },
                );
            },
        }
    }

    fn toggle_resolve(&mut self)
        ensures
            resolve_toggled(*old(self), *final(self)),
    {
        self.pane = Pane::Threads;
        let found = match self.selected_thread() {
            None => None,
            Some(t) => Some((t.id.clone(), !t.is_resolved)),
        };
        if let Some((thread_id, resolved)) = found {
            self.actions.push(Action::SetResolved { thread_id, resolved });
        }
    }

    fn handle_key_compose(&mut self, key: KeyInput)
        ensures
            compose_key_step(*old(self), key, *final(self)),
    {
        let (sending, confirm) = match &self.compose {
            None => {
                return;
            },
            Some(c) => (c.sending, c.confirm_discard),
        };
        if sending {
            return;
        }
        match key.code {
            KeyCode::Char('s') if key.ctrl => {
                self.submit_compose();
            },
            KeyCode::Esc => {
                let empty = match &self.compose {
                    Some(c) => {
                        let text = join_chars(&c.lines, "");
                        chars_blank(text.as_slice())
                    },
                    None => true,
                };
                if empty || confirm {
                    self.compose = None;
                } else {
                    let mut c: Option<Compose> = None;
                    std::mem::swap(&mut c, &mut self.compose);
                    if let Some(mut comp) = c {
                        comp.confirm_discard = true;
                        self.compose = Some(comp);
                    }
                }
            },
            _ => {
                let mut c: Option<Compose> = None;
                std::mem::swap(&mut c, &mut self.compose);
                if let Some(mut comp) = c {
                    comp.confirm_discard = false;
                    self.compose = Some(comp);
                }
                self.actions.push(Action::EditCompose);
            },
        }
    }

    fn submit_compose(&mut self)
        ensures
            submitted(*old(self), *final(self)),
    {
        let pr_id = match &self.detail {
            None => {
                return;
            },
            Some(d) => d.id.clone(),
        };
        let body = match &self.compose {
            None => {
                return;
            },
            Some(c) => {
                let text = join_chars(&c.lines, "\n");
                trim_chars(text.as_slice())
            },
        };
        if body.len() == 0 {
            return;
        }
        let body = string_of(body.as_slice());
        let mut c: Option<Compose> = None;
        std::mem::swap(&mut c, &mut self.compose);
        let comp = match c {
            Some(comp) => comp,
            None => {
                return;
            },
        };
        let reply_to: Option<u64> = match &comp.target {
            ComposeTarget::Conversation => None,
            ComposeTarget::ThreadReply { comment_db_id, .. } => Some(*comment_db_id),
        };
        let mut comp = comp;
        comp.sending = true;
        self.compose = Some(comp);
        match reply_to {
            None => {
                self.actions.push(Action::AddComment { subject_id: pr_id, body });
            },
            Some(comment_db_id) => {
                let pr = match &self.current_pr {
                    Some(p) => p.clone(),
                    None => {
                        return;
                    },
                };
                self.actions.push(Action::Reply { pr, comment_db_id, body });
            },
        }
    }
}

/// The thread to jump to from `cur`, or none when no thread is unresolved.
fn find_jump(t: &Vec<ReviewThread>, cur: usize, forward: bool) -> (r: Option<usize>)
    ensures
        match r {
            None => forall|j: int| !unresolved_at(t@, j),
            Some(i) => jump_target(t@, cur as int, forward, i as int),
        },
{
    let n = t.len();
    // first unresolved overall, first after cur, last overall, last before cur
    let mut first: Option<usize> = None;
    let mut after: Option<usize> = None;
    let mut last: Option<usize> = None;
    let mut before: Option<usize> = None;
    let mut i: usize = 0;
    while i < n
        invariant
            i <= n == t@.len(),
            match first {
                None => forall|j: int| 0 <= j < i ==> !unresolved_at(t@, j),
                Some(f) => f < i && unresolved_at(t@, f as int) && forall|j: int|
                    0 <= j < f ==> !unresolved_at(t@, j),
            },
            match after {
                None => forall|j: int| cur < j < i ==> !unresolved_at(t@, j),
                Some(a) => cur < a < i && unresolved_at(t@, a as int) && forall|j: int|
                    cur < j < a ==> !unresolved_at(t@, j),
            },
            match last {
                None => forall|j: int| 0 <= j < i ==> !unresolved_at(t@, j),
                Some(l) => l < i && unresolved_at(t@, l as int) && forall|j: int|
                    l < j < i ==> !unresolved_at(t@, j),
            },
            match before {
                None => forall|j: int| 0 <= j < i && j < cur ==> !unresolved_at(t@, j),
                Some(b) => b < i && b < cur && unresolved_at(t@, b as int) && forall|j: int|
                    b < j < i && j < cur ==> !unresolved_at(t@, j),
            },
        decreases n - i,
    {
        if !t[i].is_resolved {
            if first.is_none() {
                first = Some(i);
            }
            if i > cur && after.is_none() {
                after = Some(i);
            }
            last = Some(i);
            if i < cur {
                before = Some(i);
            }
        }
        i = i + 1;
    }
    if first.is_none() {
        return None;
    }
    if forward {
        match after {
            Some(a) => Some(a),
            None => first,
        }
    } else {
        match before {
            Some(b) => Some(b),
            None => last,
        }
    }
}

/// Marks the first thread with id `id` resolved or unresolved.
fn set_resolved_by_id(threads: &mut Vec<ReviewThread>, id: &String, resolved: bool)
    ensures
        if exists|i: int| first_with_id(old(threads)@, id@, i) {
            exists|i: int|
                first_with_id(old(threads)@, id@, i) && final(threads)@ == old(threads)@.update(
                    i,
                    ReviewThread { is_resolved: resolved, ..old(threads)@[i] },
                )
        } else {
            final(threads)@ == old(threads)@
        },
{
    let mut i: usize = 0;
    while i < threads.len()
        invariant
            i <= threads.len(),
            threads@ == old(threads)@,
            forall|j: int| 0 <= j < i ==> threads@[j].id@ != id@,
        decreases threads.len() - i,
    {
        if threads[i].id == *id {
            let mut t = threads.remove(i);
            t.is_resolved = resolved;
            threads.insert(i, t);
            proof {
                assert(first_with_id(old(threads)@, id@, i as int));
                assert(threads@ =~= old(threads)@.update(
                    i as int,
                    ReviewThread { is_resolved: resolved, ..old(threads)@[i as int] },
                ));
            }
            return;
        }
        i = i + 1;
    }
    proof {
        assert forall|k: int| !first_with_id(old(threads)@, id@, k) by {}
    }
}

proof fn lemma_api_keeps_wf(old: App, msg: ApiEvent, new: App)
    requires
        old.wf(),
        api_step(old, msg, new),
    ensures
        new.wf(),
{
}

proof fn lemma_list_key_keeps_wf(old: App, k: KeyInput, new: App)
    requires
        old.wf(),
        list_key_step(old, k, new),
    ensures
        new.wf(),
{
}

#[verifier::rlimit(60)]
#[verifier::spinoff_prover]
proof fn lemma_detail_key_keeps_wf(old: App, k: KeyInput, new: App)
    requires
        old.wf(),
        detail_key_step(old, k, new),
    ensures
        new.wf(),
{
    if k.code == KeyCode::Char(']') || k.code == KeyCode::Char('[') {
        assert(new.wf());
    }
}

proof fn lemma_compose_key_keeps_wf(old: App, k: KeyInput, new: App)
    requires
        old.wf(),
        compose_key_step(old, k, new),
    ensures
        new.wf(),
{
}

/// Every event keeps the selections within what they select from, and the
/// pull request screen on a pull request.
pub proof fn law_event_keeps_wf(old: App, ev: AppEvent, new: App)
    requires
        old.wf(),
        event_step(old, ev, new),
    ensures
        new.wf(),
{
    match ev {
        AppEvent::Api(msg) => lemma_api_keeps_wf(old, msg, new),
        AppEvent::Key(k) => {
            if k.press {
                let a = App { error: None, status: None, ..old };
                if k.code == KeyCode::Char('c') && k.ctrl {
                } else if a.compose is Some {
                    lemma_compose_key_keeps_wf(a, k, new);
                } else if k.code == KeyCode::Char('U') && a.update_available is Some {
                } else {
                    match a.screen {
                        Screen::List => lemma_list_key_keeps_wf(a, k, new),
                        Screen::Detail => lemma_detail_key_keeps_wf(a, k, new),
                    }
                }
            }
        },
        _ => {},
    }
}

/// A fetch result whose request was superseded by a newer one changes
/// nothing.
pub proof fn law_stale_fetch_ignored(old: App, msg: ApiEvent, new: App)
    requires
        api_step(old, msg, new),
        msg.req matches Some(r) && r != old.req_seq,
    ensures
        new == old,
{
}

pub open spec fn esc() -> KeyInput {
    KeyInput { code: KeyCode::Esc, ctrl: false, press: true }
}

/// Two presses of Esc always close the compose editor unless it is sending:
/// the first closes an empty one or asks to confirm, the second discards.
pub proof fn law_two_escapes_close_compose(old: App, mid: App, new: App)
    requires
        old.compose matches Some(c) && !c.sending,
        event_step(old, AppEvent::Key(esc()), mid),
        event_step(mid, AppEvent::Key(esc()), new),
    ensures
        new.compose is None,
{
    let a = App { error: None, status: None, ..old };
    assert(compose_key_step(a, esc(), mid));
    if mid.compose is Some {
        let b = App { error: None, status: None, ..mid };
        assert(compose_key_step(b, esc(), new));
    }
}

pub open spec fn plain_key(c: char) -> KeyInput {
    KeyInput { code: KeyCode::Char(c), ctrl: false, press: true }
}

/// Pressing `s` twice on the pull request screen gives back the thread
/// order it started with.
pub proof fn law_sort_toggle_twice(old: App, mid: App, new: App)
    requires
        old.screen == Screen::Detail,
        old.compose is None,
        event_step(old, AppEvent::Key(plain_key('s')), mid),
        event_step(mid, AppEvent::Key(plain_key('s')), new),
    ensures
        new.thread_sort == old.thread_sort,
        mid.thread_sort != old.thread_sort,
{
    let a = App { error: None, status: None, ..old };
    assert(detail_key_step(a, plain_key('s'), mid));
    let b = App { error: None, status: None, ..mid };
    assert(detail_key_step(b, plain_key('s'), new));
}

/// `]` and `[` always land on an unresolved thread when there is one.
pub proof fn law_jump_lands_on_unresolved(old: App, forward: bool, new: App)
    requires
        jumped(old, forward, new),
        old.detail matches Some(d) && exists|j: int| unresolved_at(d.threads@, j),
    ensures
        new.thread_selected matches Some(i) && unresolved_at(old.detail->0.threads@, i as int),
{
}

/// A loaded pull request shows its threads in the order chosen at the time.
pub proof fn law_loaded_threads_follow_sort(old: App, msg: ApiEvent, new: App)
    requires
        api_step(old, msg, new),
        msg.req is None || msg.req == Some(old.req_seq),
        msg.payload matches ApiResult::PrDetail(Ok(_)),
    ensures
        new.detail matches Some(d) && crate::github::types::sorted_by(old.thread_sort, d.threads@),
{
}

/// Any key press dismisses the messages shown; a key that nothing is bound
/// to does only that.
pub proof fn law_unbound_key_only_dismisses(old: App, ctrl: bool, new: App)
    requires
        old.compose is None,
        event_step(old, AppEvent::Key(KeyInput { code: KeyCode::Other, ctrl, press: true }), new),
    ensures
        new == (App { error: None, status: None, ..old }),
{
}

/// A resolve or unresolve that went through shows on the thread it was made
/// on, whatever fetches have happened since.
pub proof fn law_resolution_applies(old: App, id: String, resolved: bool, new: App)
    requires
        api_step(
            old,
            ApiEvent { req: None, payload: ApiResult::ThreadResolved(Ok((id, resolved))) },
            new,
        ),
        old.detail matches Some(d) && exists|i: int| first_with_id(d.threads@, id@, i),
    ensures
        new.detail matches Some(nd) && exists|i: int|
            0 <= i < nd.threads@.len() && #[trigger] nd.threads@[i].id@ == id@
                && nd.threads@[i].is_resolved == resolved,
{
    let msg = ApiEvent { req: None, payload: ApiResult::ThreadResolved(Ok((id, resolved))) };
    assert(msg.payload matches ApiResult::ThreadResolved(Ok((id2, r2))) && id2 == id && r2
        == resolved);
    let d = old.detail->0;
    let w = choose|i: int| first_with_id(d.threads@, id@, i);
    assert(first_with_id(d.threads@, id@, w));
    assert(new.detail matches Some(nd) && exists|i: int|
        first_with_id(d.threads@, id@, i) && nd.threads@ == d.threads@.update(
            i,
            ReviewThread { is_resolved: resolved, ..d.threads@[i] },
        ));
    let nd = new.detail->0;
    let i = choose|i: int|
        first_with_id(d.threads@, id@, i) && nd.threads@ == d.threads@.update(
            i,
            ReviewThread { is_resolved: resolved, ..d.threads@[i] },
        );
    assert(nd.threads@[i].id@ == id@);
}

/// With an update on offer and no comment being written, `U` quits so that
/// the update can be installed.
pub proof fn law_update_key_installs(old: App, new: App)
    requires
        old.update_available is Some,
        old.compose is None,
        event_step(old, AppEvent::Key(plain_key('U')), new),
    ensures
        new.update_requested,
        new.should_quit,
        new.update_available == old.update_available,
{
}

/// `g` and `G` select the first and the last pull request of the list.
pub proof fn law_list_top_bottom(old: App, top: App, bottom: App)
    requires
        old.wf(),
        old.screen == Screen::List,
        old.compose is None,
        0 < old.prs@.len() <= i64::MAX / 2,
        event_step(old, AppEvent::Key(plain_key('g')), top),
        event_step(old, AppEvent::Key(plain_key('G')), bottom),
    ensures
        top.list_selected == Some(0usize),
        bottom.list_selected == Some((old.prs@.len() - 1) as usize),
{
}

proof fn lemma_api_keeps_within(old: App, msg: ApiEvent, new: App)
    requires
        selections_within(old),
        api_step(old, msg, new),
    ensures
        selections_within(new),
{
}

proof fn lemma_list_key_keeps_within(old: App, k: KeyInput, new: App)
    requires
        selections_within(old),
        list_key_step(old, k, new),
    ensures
        selections_within(new),
{
}

#[verifier::rlimit(60)]
#[verifier::spinoff_prover]
proof fn lemma_detail_key_keeps_within(old: App, k: KeyInput, new: App)
    requires
        selections_within(old),
        detail_key_step(old, k, new),
    ensures
        selections_within(new),
{
    if k.code == KeyCode::Char(']') || k.code == KeyCode::Char('[') {
        assert(selections_within(new));
    }
}

proof fn lemma_compose_key_keeps_within(old: App, k: KeyInput, new: App)
    requires
        selections_within(old),
        compose_key_step(old, k, new),
    ensures
        selections_within(new),
{
}

/// Every event keeps the selections in range (the list's always, the
/// detail panes' while a pull request is loaded) and the pull request
/// screen on a pull request.
pub proof fn law_selections_stay_within(old: App, ev: AppEvent, new: App)
    requires
        selections_within(old),
        event_step(old, ev, new),
    ensures
        selections_within(new),
{
    match ev {
        AppEvent::Api(msg) => lemma_api_keeps_within(old, msg, new),
        AppEvent::Key(k) => {
            if k.press {
                let a = App { error: None, status: None, ..old };
                if k.code == KeyCode::Char('c') && k.ctrl {
                } else if a.compose is Some {
                    lemma_compose_key_keeps_within(a, k, new);
                } else if k.code == KeyCode::Char('U') && a.update_available is Some {
                } else {
                    match a.screen {
                        Screen::List => lemma_list_key_keeps_within(a, k, new),
                        Screen::Detail => lemma_detail_key_keeps_within(a, k, new),
                    }
                }
            }
        },
        _ => {},
    }
}

/// On the pull request screen, `x` with thread `t` selected asks to set that
/// thread's state to the opposite of what it is: a resolved thread gets
/// unresolved, an unresolved one resolved.
pub proof fn law_x_flips_resolution(old: App, t: ReviewThread, new: App)
    requires
        old.screen == Screen::Detail,
        old.compose is None,
        selected_thread_of(old) == Some(t),
        event_step(old, AppEvent::Key(plain_key('x')), new),
    ensures
        new.actions@.len() == old.actions@.len() + 1,
        new.actions@.last() matches Action::SetResolved { thread_id, resolved } && thread_id == t.id
            && resolved == !t.is_resolved,
{
    let a = App { error: None, status: None, ..old };
    assert(detail_key_step(a, plain_key('x'), new));
    assert(selected_thread_of(App { pane: Pane::Threads, ..a }) == Some(t));
}

} // verus!
