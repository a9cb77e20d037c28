use ghpr::github::queries::{
    PageInfo, RawActor, RawCount, RawIssueComment, RawPrSummary, RawPullRequest, RawRepo,
    RawReview, RawThread, RawThreadComment, RawThreadComments, RawThreads, RawTimeline,
    RawTimelineNode,
};
use ghpr::github::types::{
    PrDetail, PrSummary, ReviewThread, ReviewVerdict, ThreadSort, TimelineKind,
};

fn actor(login: &str) -> Option<RawActor> {
    Some(RawActor { login: login.to_string() })
}

fn page(has_next_page: bool) -> PageInfo {
    PageInfo { has_next_page, end_cursor: None }
}

fn raw_comment(db: Option<u64>, who: &str, when: &str, hunk: &str) -> RawThreadComment {
    RawThreadComment {
        database_id: db,
        author: actor(who),
        body: format!("comment by {who}"),
        created_at: when.to_string(),
        diff_hunk: hunk.to_string(),
    }
}

fn raw_thread(id: &str, resolved: bool, path: &str, line: Option<u64>, when: &str) -> RawThread {
    RawThread {
        id: id.to_string(),
        is_resolved: resolved,
        is_outdated: false,
        path: path.to_string(),
        line,
        comments: RawThreadComments {
            total_count: 1,
            nodes: vec![raw_comment(Some(100), "rev", when, "@@ -1 +1 @@")],
        },
    }
}

fn raw_pr(body: &str, nodes: Vec<RawTimelineNode>) -> RawPullRequest {
    RawPullRequest {
        id: "PR_node".to_string(),
        number: 2424,
        title: "Add a widget".to_string(),
        body: body.to_string(),
        state: "OPEN".to_string(),
        is_draft: false,
        base_ref_name: "main".to_string(),
        head_ref_name: "feature".to_string(),
        created_at: "2024-05-01T10:00:00Z".to_string(),
        author: actor("author"),
        timeline_items: RawTimeline { page_info: page(false), nodes },
        review_threads: RawThreads { page_info: page(false), nodes: Vec::new() },
    }
}

fn timeline_nodes() -> Vec<RawTimelineNode> {
    vec![
        RawTimelineNode::IssueComment(RawIssueComment {
            author: actor("alice"),
            body: "looks good".to_string(),
            created_at: "2024-05-01T11:00:00Z".to_string(),
        }),
        RawTimelineNode::PullRequestReview(RawReview {
            author: actor("bob"),
            body: "  \n ".to_string(),
            state: "COMMENTED".to_string(),
            created_at: "2024-05-01T12:00:00Z".to_string(),
        }),
        RawTimelineNode::PullRequestReview(RawReview {
            author: None,
            body: "".to_string(),
            state: "APPROVED".to_string(),
            created_at: "2024-05-01T13:00:00Z".to_string(),
        }),
        RawTimelineNode::PullRequestReview(RawReview {
            author: actor("carol"),
            body: "please fix".to_string(),
            state: "COMMENTED".to_string(),
            created_at: "2024-05-01T14:00:00Z".to_string(),
        }),
        RawTimelineNode::Other,
    ]
}

/// 16 threads, 3 of them unresolved, in no particular order.
fn sixteen_threads() -> Vec<RawThread> {
    let mut v = Vec::new();
    for i in 0..16u64 {
        let resolved = !(i == 2 || i == 7 || i == 11);
        let path = format!("src/file{}.rs", 15 - i);
        let when = format!("2024-05-{:02}T10:00:00Z", 1 + (i * 7) % 16);
        v.push(raw_thread(&format!("T{i}"), resolved, &path, Some(i), &when));
    }
    v
}

#[test]
fn deserializes_search_fixture() {
    let raw = RawPrSummary {
        number: 1600,
        title: "feat: new widget".to_string(),
        is_draft: false,
        updated_at: "2024-09-01T08:30:00Z".to_string(),
        review_decision: Some("APPROVED".to_string()),
        author: actor("someone"),
        repository: RawRepo { name_with_owner: "ratatui/ratatui".to_string() },
        comments: RawCount { total_count: 4 },
    };
    let prs: Vec<PrSummary> = vec![PrSummary::from_raw(raw)];
    assert!(!prs.is_empty());
    let first = &prs[0];
    assert_eq!(first.repo, "ratatui/ratatui");
    assert!(first.number > 0);
    assert!(!first.title.is_empty());
    assert!(first.updated_at > 0);
    let pr_ref = first.pr_ref().unwrap();
    assert_eq!(pr_ref.owner, "ratatui");
    assert_eq!(pr_ref.repo, "ratatui");
}

#[test]
fn converts_pr_detail_fixture() {
    let raw = raw_pr("The description", timeline_nodes());
    let detail = PrDetail::from_raw(raw, sixteen_threads());

    assert_eq!(detail.number, 2424);
    assert_eq!(detail.threads.len(), 16);
    assert_eq!(detail.unresolved_count(), 3);

    // Threads sort unresolved-first.
    let first_resolved = detail.threads.iter().position(|t| t.is_resolved).unwrap();
    assert!(
        detail.threads[..first_resolved].iter().all(|t| !t.is_resolved),
        "unresolved threads must sort before resolved ones"
    );
    assert!(detail.threads[first_resolved..].iter().all(|t| t.is_resolved));

    // Every thread carries a reply target and comments.
    for t in &detail.threads {
        assert!(t.reply_to_db_id.is_some(), "thread {} missing databaseId", t.id);
        assert!(!t.comments.is_empty());
        assert!(t.last_activity > 0);
    }

    // PR description leads the timeline.
    let first = &detail.timeline[0];
    assert_eq!(first.kind, TimelineKind::Comment);
    assert_eq!(first.author, detail.author);

    // Empty-body COMMENTED review stubs are filtered out.
    assert!(detail.timeline.iter().all(|item| {
        item.kind != TimelineKind::Review(ReviewVerdict::Commented) || !item.body.trim().is_empty()
    }));
}

#[test]
fn sorts_threads_by_activity() {
    let raw = raw_pr("body", Vec::new());
    let mut detail = PrDetail::from_raw(raw, sixteen_threads());

    detail.sort_threads(ThreadSort::Activity);
    assert!(
        detail.threads.windows(2).all(|w| w[0].last_activity >= w[1].last_activity),
        "activity sort must be newest-first"
    );

    detail.sort_threads(ThreadSort::Position);
    let first_resolved = detail.threads.iter().position(|t| t.is_resolved).unwrap();
    assert!(detail.threads[..first_resolved].iter().all(|t| !t.is_resolved));
}

#[test]
fn timeline_keeps_comments_and_real_reviews() {
    let detail = PrDetail::from_raw(raw_pr("   ", timeline_nodes()), Vec::new());
    // description + comment + approved review + commented review with a body
    assert_eq!(detail.timeline.len(), 4);
    assert_eq!(detail.timeline[0].body, "(no description)");
    assert_eq!(detail.timeline[0].author, "author");
    assert_eq!(detail.timeline[1].author, "alice");
    assert_eq!(detail.timeline[2].author, "ghost");
    assert_eq!(detail.timeline[2].kind, TimelineKind::Review(ReviewVerdict::Approved));
    assert_eq!(detail.timeline[3].body, "please fix");
    // 2024-05-01T10:00:00Z
    assert_eq!(detail.timeline[0].created_at, 1_714_557_600_000_000_000);
}

#[test]
fn unreadable_timestamp_is_the_epoch() {
    let mut raw = raw_pr("x", Vec::new());
    raw.created_at = "yesterday".to_string();
    let detail = PrDetail::from_raw(raw, Vec::new());
    assert_eq!(detail.timeline[0].created_at, 0);
}

#[test]
fn verdicts_read_from_state() {
    assert_eq!(ReviewVerdict::from_state("APPROVED"), ReviewVerdict::Approved);
    assert_eq!(ReviewVerdict::from_state("CHANGES_REQUESTED"), ReviewVerdict::ChangesRequested);
    assert_eq!(ReviewVerdict::from_state("COMMENTED"), ReviewVerdict::Commented);
    assert_eq!(ReviewVerdict::from_state("DISMISSED"), ReviewVerdict::Dismissed);
    assert_eq!(ReviewVerdict::from_state("PENDING"), ReviewVerdict::Other);
    assert_eq!(ReviewVerdict::from_state("approved"), ReviewVerdict::Other);
}

#[test]
fn thread_conversion_counts_hidden_and_takes_root_comment() {
    let raw = RawThread {
        id: "T".to_string(),
        is_resolved: false,
        is_outdated: true,
        path: "a.rs".to_string(),
        line: None,
        comments: RawThreadComments {
            total_count: 5,
            nodes: vec![
                raw_comment(Some(7), "x", "2024-01-01T00:00:00Z", "@@ hunk"),
                raw_comment(Some(8), "y", "2024-01-02T00:00:00Z", "other"),
            ],
        },
    };
    let t = ReviewThread::from_raw(raw);
    assert_eq!(t.hidden_count, 3);
    assert_eq!(t.reply_to_db_id, Some(7));
    assert_eq!(t.diff_hunk, "@@ hunk");
    assert_eq!(t.comments.len(), 2);
    assert_eq!(t.comments[1].author, "y");
    assert_eq!(t.last_activity, 1_704_153_600_000_000_000);

    let empty = RawThread {
        id: "E".to_string(),
        is_resolved: true,
        is_outdated: false,
        path: "b.rs".to_string(),
        line: Some(3),
        comments: RawThreadComments { total_count: 0, nodes: Vec::new() },
    };
    let e = ReviewThread::from_raw(empty);
    assert_eq!(e.hidden_count, 0);
    assert_eq!(e.reply_to_db_id, None);
    assert_eq!(e.diff_hunk, "");
    assert_eq!(e.last_activity, 0);
}

#[test]
fn position_sort_orders_by_path_then_line_and_is_stable() {
    let mut threads = vec![
        raw_thread("a", false, "src/b.rs", Some(10), "2024-01-01T00:00:00Z"),
        raw_thread("b", false, "src/a.rs", Some(3), "2024-01-01T00:00:00Z"),
        raw_thread("c", false, "src/a.rs", None, "2024-01-01T00:00:00Z"),
        raw_thread("d", true, "src/a.rs", Some(1), "2024-01-01T00:00:00Z"),
        raw_thread("e", false, "src/b.rs", Some(10), "2024-01-01T00:00:00Z"),
    ];
    threads.push(raw_thread("f", false, "src/B.rs", Some(1), "2024-01-01T00:00:00Z"));
    let detail = PrDetail::from_raw(raw_pr("x", Vec::new()), threads);
    let ids: Vec<&str> = detail.threads.iter().map(|t| t.id.as_str()).collect();
    assert_eq!(ids, vec!["f", "c", "b", "a", "e", "d"]);
}

#[test]
fn activity_sort_keeps_ties_in_order() {
    let threads = vec![
        raw_thread("old", false, "x", None, "2024-01-01T00:00:00Z"),
        raw_thread("new1", false, "y", None, "2024-03-01T00:00:00Z"),
        raw_thread("new2", false, "a", None, "2024-03-01T00:00:00Z"),
    ];
    let mut detail = PrDetail::from_raw(raw_pr("x", Vec::new()), threads);
    detail.sort_threads(ThreadSort::Activity);
    let ids: Vec<&str> = detail.threads.iter().map(|t| t.id.as_str()).collect();
    // Position order first put "new2" (path a) before "new1" (path y).
    assert_eq!(ids, vec!["new2", "new1", "old"]);
    assert_eq!(detail.unresolved_count(), 3);
}
