use ghpr::cli::PrRef;
use ghpr::github::queries::{
    PageInfo, PrDetailData, RawPullRequest, RawRepository, RawThread, RawThreadComments,
    RawThreads, RawTimeline,
};
use ghpr::auth::choose_token;
use ghpr::github::{
    classify_status, envelope_result, latest_release_url, reply_url, status_error, GhError, PageStep,
    PrPager, StatusClass,
};
use ghpr::update::{newer_version, offered_version};
use ghpr::time::{instant_or_epoch, parse_ts};

fn pr() -> PrRef {
    PrRef { owner: "o".to_string(), repo: "r".to_string(), number: 7 }
}

fn thread(id: &str) -> RawThread {
    RawThread {
        id: id.to_string(),
        is_resolved: false,
        is_outdated: false,
        path: "p".to_string(),
        line: None,
        comments: RawThreadComments { total_count: 0, nodes: Vec::new() },
    }
}

fn page(title: &str, threads: Vec<RawThread>, next: Option<&str>) -> PrDetailData {
    PrDetailData {
        repository: Some(RawRepository {
            pull_request: Some(RawPullRequest {
                id: "id".to_string(),
                number: 7,
                title: title.to_string(),
                body: "b".to_string(),
                state: "OPEN".to_string(),
                is_draft: false,
                base_ref_name: "main".to_string(),
                head_ref_name: "x".to_string(),
                created_at: "2024-01-01T00:00:00Z".to_string(),
                author: None,
                timeline_items: RawTimeline {
                    page_info: PageInfo { has_next_page: false, end_cursor: None },
                    nodes: Vec::new(),
                },
                review_threads: RawThreads {
                    page_info: PageInfo {
                        has_next_page: next.is_some(),
                        end_cursor: next.map(|s| s.to_string()),
                    },
                    nodes: threads,
                },
            }),
        }),
    }
}

#[test]
fn pager_collects_threads_across_pages() {
    let mut pager = PrPager::new();
    match pager.accept_page(&pr(), page("first", vec![thread("a"), thread("b")], Some("c1"))) {
        PageStep::Next(c) => assert_eq!(c, "c1"),
        _ => panic!("expected another page"),
    }
    match pager.accept_page(&pr(), page("second", vec![thread("c")], None)) {
        PageStep::Done(d) => {
            assert_eq!(d.title, "first");
            assert_eq!(d.threads.len(), 3);
            assert_eq!(d.threads[0].id, "a");
            assert_eq!(d.threads[2].id, "c");
            assert_eq!(d.author, "ghost");
        },
        _ => panic!("expected the pull request"),
    }
    assert!(pager.base.is_none());
}

#[test]
fn pager_reports_missing_pull_request() {
    let mut pager = PrPager::new();
    let missing = PrDetailData { repository: Some(RawRepository { pull_request: None }) };
    match pager.accept_page(&pr(), missing) {
        PageStep::Failed(GhError::Api(m)) => assert_eq!(m, "o/r#7 not found"),
        _ => panic!("expected a failure"),
    }
    match pager.accept_page(&pr(), PrDetailData { repository: None }) {
        PageStep::Failed(e) => assert_eq!(e.message(), "GitHub: o/r#7 not found"),
        _ => panic!("expected a failure"),
    }
}

#[test]
fn a_next_page_flag_without_cursor_ends_paging() {
    let mut pager = PrPager::new();
    let mut data = page("t", vec![thread("a")], Some("c"));
    data.repository.as_mut().unwrap().pull_request.as_mut().unwrap().review_threads.page_info.end_cursor = None;
    assert!(matches!(pager.accept_page(&pr(), data), PageStep::Done(_)));
}

#[test]
fn envelopes() {
    let ok: Result<u8, GhError> = envelope_result(Some(3), None);
    assert!(matches!(ok, Ok(3)));
    let ok2: Result<u8, GhError> = envelope_result(Some(3), Some(Vec::new()));
    assert!(matches!(ok2, Ok(3)));
    let errs: Result<u8, GhError> =
        envelope_result(Some(3), Some(vec!["bad".to_string(), "worse".to_string()]));
    match errs {
        Err(e) => assert_eq!(e.message(), "GitHub: bad; worse"),
        _ => panic!("expected errors"),
    }
    let empty: Result<u8, GhError> = envelope_result(None, None);
    match empty {
        Err(e) => assert_eq!(e.message(), "GitHub: empty response"),
        _ => panic!("expected an error"),
    }
}

#[test]
fn addresses() {
    assert_eq!(
        reply_url(&pr(), 99),
        "https://api.github.com/repos/o/r/pulls/7/comments/99/replies"
    );
    assert_eq!(
        latest_release_url("planted-sam", "ghpr"),
        "https://api.github.com/repos/planted-sam/ghpr/releases/latest"
    );
}

#[test]
fn update_offers_only_greater_versions() {
    assert_eq!(newer_version("0.1.0", Some("v0.2.0".to_string())), Some("0.2.0".to_string()));
    assert_eq!(newer_version("0.1.0", Some("vv1.0.0".to_string())), Some("1.0.0".to_string()));
    assert_eq!(newer_version("0.2.0", Some("v0.2.0".to_string())), None);
    assert_eq!(newer_version("0.3.0", Some("v0.2.0".to_string())), None);
    assert_eq!(newer_version("0.1.0", Some("latest".to_string())), None);
    assert_eq!(newer_version("0.1.0", None), None);
}

#[test]
fn token_prefers_gh_then_environment() {
    assert_eq!(choose_token(Some("gho_abc\n"), Some("env")), Ok("gho_abc".to_string()));
    assert_eq!(choose_token(Some("  \n"), Some(" env_tok ")), Ok("env_tok".to_string()));
    assert_eq!(choose_token(None, Some("env_tok")), Ok("env_tok".to_string()));
    assert_eq!(
        choose_token(None, Some("\t")),
        Err("no GitHub token found: run `gh auth login` or set GITHUB_TOKEN".to_string())
    );
    assert!(choose_token(None, None).is_err());
}

#[test]
fn statuses_classify_and_read() {
    assert_eq!(classify_status(200), StatusClass::Success);
    assert_eq!(classify_status(204), StatusClass::Success);
    assert_eq!(classify_status(404), StatusClass::NotFound);
    assert_eq!(classify_status(401), StatusClass::Failure);
    assert_eq!(classify_status(302), StatusClass::Failure);
    match status_error("502 Bad Gateway", "oops") {
        GhError::Api(m) => assert_eq!(m, "502 Bad Gateway: oops"),
        GhError::Http(_) => panic!("expected an API error"),
    }
}

#[test]
fn offered_version_follows_the_comparison() {
    assert_eq!(offered_version("0.3.0".to_string(), Some(true)), Some("0.3.0".to_string()));
    assert_eq!(offered_version("0.3.0".to_string(), Some(false)), None);
    assert_eq!(offered_version("x".to_string(), None), None);
}

#[test]
fn instants_read_as_nanoseconds() {
    assert_eq!(instant_or_epoch(Some(5)), 5);
    assert_eq!(instant_or_epoch(None), 0);
    assert_eq!(parse_ts("1970-01-01T00:00:01Z"), 1_000_000_000);
    assert_eq!(parse_ts("2024-01-01T00:00:00Z"), 1_704_067_200 * 1_000_000_000);
    assert_eq!(parse_ts("not a time"), 0);
}
