//! The shapes of GitHub's GraphQL responses, as plain data. Reading the JSON
//! into these is the caller's part; the conversions into domain types live in
//! [`super::types`].

use vstd::prelude::*;

verus! {

#[derive(Debug, Clone)]
pub struct PageInfo {
    pub has_next_page: bool,
    pub end_cursor: Option<String>,
}

#[derive(Debug)]
pub struct RawActor {
    pub login: String,
}

// ---- SearchInvolvedPrs ----

#[derive(Debug)]
pub struct SearchData {
    pub search: RawSearch,
}

#[derive(Debug)]
pub struct RawSearch {
    pub nodes: Vec<RawPrSummary>,
}

#[derive(Debug)]
pub struct RawPrSummary {
    pub number: u64,
    pub title: String,
    pub is_draft: bool,
    pub updated_at: String,
    pub review_decision: Option<String>,
    pub author: Option<RawActor>,
    pub repository: RawRepo,
    pub comments: RawCount,
}

#[derive(Debug)]
pub struct RawRepo {
    pub name_with_owner: String,
}

#[derive(Debug)]
pub struct RawCount {
    pub total_count: u64,
}

// ---- PrDetail ----

#[derive(Debug)]
pub struct PrDetailData {
    pub repository: Option<RawRepository>,
}

#[derive(Debug)]
pub struct RawRepository {
    pub pull_request: Option<RawPullRequest>,
}

#[derive(Debug)]
pub struct RawPullRequest {
    pub id: String,
    pub number: u64,
    pub title: String,
    pub body: String,
    pub state: String,
    pub is_draft: bool,
    pub base_ref_name: String,
    pub head_ref_name: String,
    pub created_at: String,
    pub author: Option<RawActor>,
    pub timeline_items: RawTimeline,
    pub review_threads: RawThreads,
}

#[derive(Debug)]
pub struct RawTimeline {
    pub page_info: PageInfo,
    pub nodes: Vec<RawTimelineNode>,
}

/// One timeline entry, told apart by its GraphQL `__typename`; any other
/// type name reads as `Other`.
#[derive(Debug)]
pub enum RawTimelineNode {
    IssueComment(RawIssueComment),
    PullRequestReview(RawReview),
    Other,
}

#[derive(Debug)]
pub struct RawIssueComment {
    pub author: Option<RawActor>,
    pub body: String,
    pub created_at: String,
}

#[derive(Debug)]
pub struct RawReview {
    pub author: Option<RawActor>,
    pub body: String,
    pub state: String,
    pub created_at: String,
}

#[derive(Debug)]
pub struct RawThreads {
    pub page_info: PageInfo,
    pub nodes: Vec<RawThread>,
}

#[derive(Debug)]
pub struct RawThread {
    pub id: String,
    pub is_resolved: bool,
    pub is_outdated: bool,
    pub path: String,
    pub line: Option<u64>,
    pub comments: RawThreadComments,
}

#[derive(Debug)]
pub struct RawThreadComments {
    pub total_count: u64,
    pub nodes: Vec<RawThreadComment>,
}

#[derive(Debug)]
pub struct RawThreadComment {
    pub database_id: Option<u64>,
    pub author: Option<RawActor>,
    pub body: String,
    pub created_at: String,
    pub diff_hunk: String,
}

// ---- Mutation responses ----

#[derive(Debug)]
pub struct ResolveThreadData {
    pub resolve_review_thread: ThreadPayload,
}

#[derive(Debug)]
pub struct UnresolveThreadData {
    pub unresolve_review_thread: ThreadPayload,
}

#[derive(Debug)]
pub struct ThreadPayload {
    pub thread: RawThreadState,
}

#[derive(Debug)]
pub struct RawThreadState {
    pub id: String,
    pub is_resolved: bool,
}

#[derive(Debug)]
pub struct ViewerData {
    pub viewer: RawActor,
}

} // verus!
