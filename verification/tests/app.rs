use ghpr::app::{Action, App, ComposeTarget, Pane, Screen};
use ghpr::ui::pr_detail::{body_pane, BodyPane};
use ghpr::cli::PrRef;
use ghpr::event::{ApiEvent, ApiResult, AppEvent, ClipboardOutcome, KeyCode, KeyInput};
use ghpr::github::types::{PrDetail, PrSummary, ReviewThread, ThreadComment, ThreadSort};
use ghpr::github::GhError;

fn key(c: char) -> AppEvent {
    AppEvent::Key(KeyInput { code: KeyCode::Char(c), ctrl: false, press: true })
}

fn ctrl(c: char) -> AppEvent {
    AppEvent::Key(KeyInput { code: KeyCode::Char(c), ctrl: true, press: true })
}

fn special(code: KeyCode) -> AppEvent {
    AppEvent::Key(KeyInput { code, ctrl: false, press: true })
}

fn summary(repo: &str, number: u64) -> PrSummary {
    PrSummary {
        repo: repo.to_string(),
        number,
        title: format!("PR {number}"),
        is_draft: false,
        updated_at: 0,
        author: "a".to_string(),
        review_decision: None,
        comment_count: 0,
    }
}

fn thread(id: &str, resolved: bool, comments: usize, db: Option<u64>) -> ReviewThread {
    ReviewThread {
        id: id.to_string(),
        is_resolved: resolved,
        is_outdated: false,
        path: format!("src/{id}.rs"),
        line: Some(1),
        reply_to_db_id: db,
        diff_hunk: String::new(),
        comments: (0..comments)
            .map(|i| ThreadComment {
                author: format!("user{i}"),
                body: format!("comment {i}"),
                created_at: 0,
            })
            .collect(),
        hidden_count: 0,
        last_activity: 0,
    }
}

fn detail(threads: Vec<ReviewThread>) -> PrDetail {
    PrDetail {
        id: "PR_1".to_string(),
        number: 1,
        title: "t".to_string(),
        state: "OPEN".to_string(),
        is_draft: false,
        author: "me".to_string(),
        base_ref: "main".to_string(),
        head_ref: "f".to_string(),
        timeline: Vec::new(),
        timeline_truncated: false,
        threads,
    }
}

fn api(req: Option<u64>, payload: ApiResult) -> AppEvent {
    AppEvent::Api(ApiEvent { req, payload })
}

/// An app showing a loaded pull request with the given threads.
fn app_with_detail(threads: Vec<ReviewThread>) -> App {
    let pr = PrRef { owner: "o".to_string(), repo: "r".to_string(), number: 1 };
    let mut app = App::new("me".to_string(), Some(pr));
    app.take_actions();
    let req = app.req_seq;
    app.handle_event(api(Some(req), ApiResult::PrDetail(Ok(detail(threads)))));
    app
}

#[test]
fn starts_by_fetching_the_list_and_checking_for_updates() {
    let mut app = App::new("me".to_string(), None);
    assert_eq!(app.screen, Screen::List);
    assert!(app.loading);
    let actions = app.take_actions();
    assert_eq!(actions.len(), 2);
    assert!(matches!(actions[0], Action::FetchList { req: 1 }));
    assert!(matches!(actions[1], Action::CheckUpdate));
    assert!(app.actions.is_empty());
}

#[test]
fn direct_start_opens_the_pull_request() {
    let pr = PrRef { owner: "o".to_string(), repo: "r".to_string(), number: 5 };
    let mut app = App::new("me".to_string(), Some(pr));
    assert_eq!(app.screen, Screen::Detail);
    assert!(app.direct);
    let actions = app.take_actions();
    match &actions[0] {
        Action::FetchPr { pr, req } => {
            assert_eq!(pr.to_string(), "o/r#5");
            assert_eq!(*req, 1);
        },
        _ => panic!("expected a pull request fetch"),
    }
    // Leaving a directly opened pull request quits.
    app.handle_event(key('q'));
    assert!(app.should_quit);
}

#[test]
fn stale_fetch_results_are_dropped() {
    let mut app = App::new("me".to_string(), None);
    app.handle_event(key('r')); // a second list fetch supersedes the first
    assert_eq!(app.req_seq, 2);
    app.handle_event(api(Some(1), ApiResult::PrList(Ok(vec![summary("o/r", 1)]))));
    assert!(app.prs.is_empty());
    assert!(!app.list_loaded);
    app.handle_event(api(Some(2), ApiResult::PrList(Ok(vec![summary("o/r", 1)]))));
    assert_eq!(app.prs.len(), 1);
    assert!(app.list_loaded);
    assert!(!app.loading);
    assert_eq!(app.list_selected, Some(0));
}

#[test]
fn list_navigation_clamps_and_opens() {
    let mut app = App::new("me".to_string(), None);
    let prs = vec![summary("o/a", 1), summary("o/b", 2), summary("o/c", 3)];
    app.handle_event(api(Some(1), ApiResult::PrList(Ok(prs))));
    app.handle_event(key('j'));
    app.handle_event(key('j'));
    app.handle_event(key('j'));
    assert_eq!(app.list_selected, Some(2));
    app.handle_event(key('g'));
    assert_eq!(app.list_selected, Some(0));
    app.handle_event(special(KeyCode::End));
    assert_eq!(app.list_selected, Some(2));
    app.handle_event(key('k'));
    app.take_actions();
    app.handle_event(key('o'));
    let actions = app.take_actions();
    assert!(matches!(&actions[0], Action::OpenUrl(u) if u == "https://github.com/o/b/pull/2"));
    app.handle_event(special(KeyCode::Enter));
    assert_eq!(app.screen, Screen::Detail);
    assert_eq!(app.current_pr.as_ref().unwrap().to_string(), "o/b#2");
    let actions = app.take_actions();
    assert!(matches!(&actions[0], Action::FetchPr { req: 2, .. }));
    // Back to the list, which is already loaded.
    app.handle_event(special(KeyCode::Esc));
    assert_eq!(app.screen, Screen::List);
    assert!(app.take_actions().is_empty());
}

#[test]
fn errors_show_and_keys_dismiss_them() {
    let mut app = App::new("me".to_string(), None);
    app.handle_event(api(Some(1), ApiResult::PrList(Err(GhError::Api("boom".to_string())))));
    assert_eq!(app.error.as_deref(), Some("GitHub: boom"));
    assert!(!app.loading);
    app.handle_event(key('x'));
    assert_eq!(app.error, None);
}

#[test]
fn released_keys_are_ignored_and_ticks_spin() {
    let mut app = App::new("me".to_string(), None);
    app.handle_event(AppEvent::Key(KeyInput { code: KeyCode::Char('q'), ctrl: false, press: false }));
    assert!(!app.should_quit);
    app.handle_event(AppEvent::Tick);
    app.handle_event(AppEvent::Tick);
    assert_eq!(app.spinner, 2);
    app.handle_event(ctrl('c'));
    assert!(app.should_quit);
}

#[test]
fn update_key_requests_install() {
    let mut app = App::new("me".to_string(), None);
    app.handle_event(key('U'));
    assert!(!app.should_quit);
    app.handle_event(api(None, ApiResult::UpdateAvailable("0.2.0".to_string())));
    assert_eq!(app.update_available.as_deref(), Some("0.2.0"));
    app.handle_event(key('U'));
    assert!(app.update_requested);
    assert!(app.should_quit);
}

#[test]
fn jumping_between_unresolved_threads_wraps() {
    let mut app = app_with_detail(vec![
        thread("a", true, 1, Some(1)),
        thread("b", false, 1, Some(2)),
        thread("c", true, 1, Some(3)),
        thread("d", false, 1, Some(4)),
    ]);
    // Activity order with equal activity keeps the given order: a, b, c, d.
    let ids: Vec<String> = app.detail.as_ref().unwrap().threads.iter().map(|t| t.id.clone()).collect();
    assert_eq!(ids, vec!["a", "b", "c", "d"]);
    assert_eq!(app.thread_selected, Some(0));
    app.handle_event(key(']'));
    assert_eq!(app.pane, Pane::Threads);
    assert_eq!(app.thread_selected, Some(1));
    app.handle_event(key(']'));
    assert_eq!(app.thread_selected, Some(3));
    app.handle_event(key(']'));
    assert_eq!(app.thread_selected, Some(1));
    app.handle_event(key('['));
    assert_eq!(app.thread_selected, Some(3));
    app.handle_event(key('['));
    assert_eq!(app.thread_selected, Some(1));
}

#[test]
fn no_unresolved_threads_says_so() {
    let mut app = app_with_detail(vec![thread("a", true, 1, Some(1))]);
    app.handle_event(key(']'));
    assert_eq!(app.status.as_deref(), Some("no unresolved threads"));
}

#[test]
fn toggling_sort_twice_restores_it() {
    let mut app = app_with_detail(vec![thread("a", false, 1, Some(1))]);
    assert_eq!(app.thread_sort, ThreadSort::Activity);
    app.handle_event(key('s'));
    assert_eq!(app.thread_sort, ThreadSort::Position);
    assert_eq!(app.status.as_deref(), Some("threads sorted by file (unresolved first)"));
    assert_eq!(app.thread_selected, Some(0));
    app.handle_event(key('s'));
    assert_eq!(app.thread_sort, ThreadSort::Activity);
    assert_eq!(app.status.as_deref(), Some("threads sorted by latest comment"));
}

#[test]
fn comment_selection_and_copy() {
    let mut app = app_with_detail(vec![thread("a", false, 3, Some(1))]);
    app.handle_event(key('2'));
    app.handle_event(key('j'));
    assert_eq!(app.thread_selected, Some(0));
    app.handle_event(key('J'));
    app.handle_event(key('J'));
    app.handle_event(key('J'));
    assert_eq!(app.comment_sel, 2);
    assert!(app.scroll_to_comment);
    app.take_actions();
    app.handle_event(key('y'));
    let actions = app.take_actions();
    match &actions[0] {
        Action::Copy { body, author } => {
            assert_eq!(body, "comment 2");
            assert_eq!(author, "user2");
        },
        _ => panic!("expected a copy"),
    }
    app.handle_event(AppEvent::Clipboard(ClipboardOutcome::Copied { author: "user2".to_string() }));
    assert_eq!(app.status.as_deref(), Some("copied comment by user2 ✓"));
    app.handle_event(AppEvent::Clipboard(ClipboardOutcome::Failed("nope".to_string())));
    assert_eq!(app.error.as_deref(), Some("copy failed: nope"));
}

#[test]
fn compose_discard_needs_two_escapes_when_text_was_typed() {
    let mut app = app_with_detail(vec![thread("a", false, 1, Some(9))]);
    app.handle_event(key('c'));
    assert!(app.compose.is_some());
    // An empty editor closes at once.
    app.handle_event(special(KeyCode::Esc));
    assert!(app.compose.is_none());

    app.handle_event(key('c'));
    app.handle_event(key('h'));
    assert!(matches!(app.take_actions().last(), Some(Action::EditCompose)));
    app.compose.as_mut().unwrap().lines = vec!["hello".to_string()];
    app.handle_event(special(KeyCode::Esc));
    assert!(app.compose.as_ref().unwrap().confirm_discard);
    app.handle_event(special(KeyCode::Esc));
    assert!(app.compose.is_none());
}

#[test]
fn submitting_posts_the_trimmed_text() {
    let mut app = app_with_detail(vec![thread("a", false, 1, Some(9))]);
    app.handle_event(key('c'));
    app.compose.as_mut().unwrap().lines = vec!["  hi".to_string(), "there  ".to_string(), "".to_string()];
    app.take_actions();
    app.handle_event(ctrl('s'));
    assert!(app.compose.as_ref().unwrap().sending);
    let actions = app.take_actions();
    match &actions[0] {
        Action::AddComment { subject_id, body } => {
            assert_eq!(subject_id, "PR_1");
            assert_eq!(body, "hi\nthere");
        },
        _ => panic!("expected a comment"),
    }
    // Keys are ignored while sending.
    app.handle_event(special(KeyCode::Esc));
    assert!(app.compose.is_some());
    app.handle_event(api(None, ApiResult::Posted(Ok(()))));
    assert!(app.compose.is_none());
    assert_eq!(app.status.as_deref(), Some("posted ✓"));
    assert!(matches!(app.take_actions()[0], Action::FetchPr { .. }));
}

#[test]
fn replying_targets_the_root_comment() {
    let mut app = app_with_detail(vec![thread("a", false, 1, Some(9)), thread("b", false, 1, None)]);
    app.handle_event(key('2'));
    assert_eq!(app.thread_selected, Some(0));
    app.handle_event(key('a'));
    match &app.compose.as_ref().unwrap().target {
        ComposeTarget::ThreadReply { comment_db_id, path } => {
            assert_eq!(*comment_db_id, 9);
            assert_eq!(path, "src/a.rs");
        },
        _ => panic!("expected a reply"),
    }
    app.compose.as_mut().unwrap().lines = vec!["ok".to_string()];
    app.take_actions();
    app.handle_event(ctrl('s'));
    let actions = app.take_actions();
    assert!(matches!(&actions[0], Action::Reply { comment_db_id: 9, body, .. } if body == "ok"));
    app.handle_event(api(None, ApiResult::Posted(Err(GhError::Http("down".to_string())))));
    assert!(!app.compose.as_ref().unwrap().sending);
    assert_eq!(app.error.as_deref(), Some("network: down"));
    app.compose = None;

    app.handle_event(key('j'));
    app.handle_event(key('a'));
    assert_eq!(app.error.as_deref(), Some("cannot reply: thread has no root comment id"));
}

#[test]
fn resolving_a_thread_updates_it() {
    let mut app = app_with_detail(vec![thread("a", false, 1, Some(1))]);
    app.handle_event(key('j'));
    app.handle_event(key('2'));
    app.handle_event(key('j'));
    app.take_actions();
    app.handle_event(key('x'));
    let actions = app.take_actions();
    assert!(matches!(&actions[0], Action::SetResolved { thread_id, resolved: true } if thread_id == "a"));
    app.handle_event(api(None, ApiResult::ThreadResolved(Ok(("a".to_string(), true)))));
    assert!(app.detail.as_ref().unwrap().threads[0].is_resolved);
    assert_eq!(app.status.as_deref(), Some("thread resolved ✓"));
}

#[test]
fn body_scroll_saturates() {
    let mut app = app_with_detail(Vec::new());
    app.handle_event(ctrl('u'));
    assert_eq!(app.body_scroll, 0);
    app.handle_event(special(KeyCode::PageDown));
    app.handle_event(ctrl('d'));
    assert_eq!(app.body_scroll, 10);
    app.body_scroll = u16::MAX - 2;
    app.handle_event(special(KeyCode::PageDown));
    assert_eq!(app.body_scroll, u16::MAX);
}

#[test]
fn comment_jump_scrolls_once() {
    let mut app = app_with_detail(vec![thread("a", false, 3, Some(1))]);
    app.handle_event(key('J'));
    assert!(app.scroll_to_comment);
    app.settle_comment_scroll(Some(7));
    assert_eq!(app.body_scroll, 7);
    assert!(!app.scroll_to_comment);
    // Nothing more is asked for: the scroll stays where the user puts it.
    app.settle_comment_scroll(Some(2));
    assert_eq!(app.body_scroll, 7);
}

#[test]
fn unbound_keys_only_dismiss_messages() {
    let mut app = app_with_detail(vec![thread("a", false, 1, Some(1))]);
    app.handle_event(api(None, ApiResult::ThreadResolved(Err(GhError::Http("down".to_string())))));
    assert_eq!(app.error.as_deref(), Some("network: down"));
    let before_scroll = app.body_scroll;
    let before_sel = app.thread_selected;
    app.handle_event(special(KeyCode::Other));
    assert_eq!(app.error, None);
    assert_eq!(app.status, None);
    assert_eq!(app.body_scroll, before_scroll);
    assert_eq!(app.thread_selected, before_sel);
    assert_eq!(app.screen, Screen::Detail);
}

#[test]
fn resolution_applies_after_a_refresh_started() {
    let mut app = app_with_detail(vec![thread("a", false, 1, Some(1)), thread("b", false, 1, Some(2))]);
    // A refresh is under way; the resolution result still applies.
    app.handle_event(key('r'));
    app.handle_event(api(None, ApiResult::ThreadResolved(Ok(("b".to_string(), true)))));
    let d = app.detail.as_ref().unwrap();
    let b = d.threads.iter().find(|t| t.id == "b").unwrap();
    assert!(b.is_resolved);
    let a = d.threads.iter().find(|t| t.id == "a").unwrap();
    assert!(!a.is_resolved);
}

#[test]
fn body_pane_follows_pane_and_selection() {
    let pr = PrRef { owner: "o".to_string(), repo: "r".to_string(), number: 1 };
    let app = App::new("me".to_string(), Some(pr));
    assert!(matches!(body_pane(&app), BodyPane::Note("loading…")));

    let mut app = app_with_detail(vec![thread("a", false, 1, Some(1))]);
    assert!(matches!(body_pane(&app), BodyPane::Note("no conversation comments yet — press c to add one")));
    app.handle_event(key('2'));
    assert!(matches!(body_pane(&app), BodyPane::Thread(0)));
    app.thread_selected = None;
    assert!(matches!(body_pane(&app), BodyPane::Note("no review threads")));
}
