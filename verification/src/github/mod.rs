//! GitHub API logic that does not touch the network: errors, the GraphQL
//! envelope, paging through a pull request's review threads, and REST
//! addresses. The HTTP calls themselves are made by the caller.

pub mod queries;
pub mod types;

use vstd::prelude::*;

use crate::cli::{pr_display, PrRef};
use crate::text::{decimal, decimal_string, join, join_chars, string_of};

use queries::{PrDetailData, RawPullRequest, RawRepository, RawThread, RawThreads};
use types::{detail_from, PrDetail};

verus! {

/// An API failure: the transport failed (its message), or GitHub answered
/// with an error (its message).
#[derive(Debug)]
pub enum GhError {
    Http(String),
    Api(String),
}

/// How a failure reads to the user.
pub open spec fn gh_error_text(e: GhError) -> Seq<char> {
    match e {
        GhError::Http(m) => "network: "@ + m@,
        GhError::Api(m) => "GitHub: "@ + m@,
    }
}

impl GhError {
    pub fn message(&self) -> (r: String)
        ensures
            r@ == gh_error_text(*self),
    {
        match self {
            GhError::Http(m) => {
                let mut r = String::from_str("network: ");
                r.append(m.as_str());
                r
            },
            GhError::Api(m) => {
                let mut r = String::from_str("GitHub: ");
                r.append(m.as_str());
                r
            },
        }
    }
}

/// An HTTP status in the success class (2xx).
pub open spec fn is_success_code(code: u16) -> bool {
    200 <= code && code <= 299
}

/// How a response's status is taken: success, "not found" (which the
/// latest-release lookup reads as "no release yet"), or a failure.
#[derive(Debug, Clone, Copy, PartialEq, Eq, Structural)]
pub enum StatusClass {
    Success,
    NotFound,
    Failure,
}

pub fn classify_status(code: u16) -> (r: StatusClass)
    ensures
        r == (if is_success_code(code) {
            StatusClass::Success
        } else if code == 404 {
            StatusClass::NotFound
        } else {
            StatusClass::Failure
        }),
{
    if 200 <= code && code <= 299 {
        StatusClass::Success
    } else if code == 404 {
        StatusClass::NotFound
    } else {
        StatusClass::Failure
    }
}

/// The error for a response that did not succeed: the status as written
/// (code and reason), a colon, and the response's body.
pub fn status_error(status: &str, body: &str) -> (r: GhError)
    ensures
        r matches GhError::Api(m) && m@ == status@ + ": "@ + body@,
{
    let mut m = String::from_str(status);
    m.append(": ");
    m.append(body);
    GhError::Api(m)
}

/// What a GraphQL response envelope comes to: its errors, when there are
/// any, joined with "; "; else its data; else "empty response".
pub fn envelope_result<T>(data: Option<T>, errors: Option<Vec<String>>) -> (r: Result<T, GhError>)
    ensures
        match errors {
            Some(es) if es.len() > 0 => r matches Err(GhError::Api(m)) && m@ == join(
                es@.map_values(|e: String| e@),
                "; "@,
            ),
            _ => match data {
                Some(d) => r == Ok::<T, GhError>(d),
                None => r matches Err(GhError::Api(m)) && m@ == "empty response"@,
            },
        },
{
    match errors {
        Some(es) if es.len() > 0 => {
            let m = join_chars(&es, "; ");
            Err(GhError::Api(string_of(m.as_slice())))
        },
        _ => match data {
            Some(d) => Ok(d),
            None => Err(GhError::Api(String::from_str("empty response"))),
        },
    }
}

/// Collects a pull request page by page: the first page gives everything
/// but the review threads, and each page adds its review threads.
pub struct PrPager {
    /// The first page, its review threads taken out.
    pub base: Option<RawPullRequest>,
    /// The review threads of the pages so far, in order.
    pub threads: Vec<RawThread>,
}

/// What to do after a page.
pub enum PageStep {
    /// Fetch the page after this cursor.
    Next(String),
    /// All pages are in.
    Done(PrDetail),
    /// The pull request does not exist (or is not visible).
    Failed(GhError),
}

/// The pull request in a response, if the repository and it exist.
pub open spec fn pull_request_of(data: PrDetailData) -> Option<RawPullRequest> {
    match data.repository {
        Some(RawRepository { pull_request: Some(raw) }) => Some(raw),
        _ => None,
    }
}

/// `b` is the page `raw` with its review threads taken out.
pub open spec fn page_without_threads(b: RawPullRequest, raw: RawPullRequest) -> bool {
    &&& b == (RawPullRequest { review_threads: b.review_threads, ..raw })
    &&& b.review_threads.page_info == raw.review_threads.page_info
    &&& b.review_threads.nodes@.len() == 0
}

impl PrPager {
    pub fn new() -> (r: PrPager)
        ensures
            r.base is None,
            r.threads@.len() == 0,
    {
        PrPager { base: None, threads: Vec::new() }
    }

    /// Takes one page of the pull request `pr`. While more threads remain it
    /// asks for the next page; after the last one it builds the pull request
    /// from the first page and all threads (and the pager is empty again).
    pub fn accept_page(&mut self, pr: &PrRef, data: PrDetailData) -> (r: PageStep)
        ensures
            match pull_request_of(data) {
                None => r matches PageStep::Failed(GhError::Api(m)) && m@ == pr_display(
                    pr.owner@,
                    pr.repo@,
                    pr.number,
                ) + " not found"@ && final(self).base == old(self).base && final(self).threads
                    == old(self).threads,
                Some(raw) => {
                    let all = old(self).threads@ + raw.review_threads.nodes@;
                    let page = raw.review_threads.page_info;
                    if page.has_next_page && page.end_cursor is Some {
                        &&& r matches PageStep::Next(c) && Some(c) == page.end_cursor
                        &&& final(self).threads@ == all
                        &&& match old(self).base {
                            Some(b) => final(self).base == Some(b),
                            None => final(self).base matches Some(b) && page_without_threads(b, raw),
                        }
                    } else {
                        &&& r matches PageStep::Done(d) && match old(self).base {
                            Some(b) => detail_from(d, b, all),
                            None => exists|b: RawPullRequest|
                                page_without_threads(b, raw) && detail_from(d, b, all),
                        }
                        &&& final(self).base is None
                        &&& final(self).threads@.len() == 0
                    }
                },
            },
    {
        let raw = match data.repository {
            Some(RawRepository { pull_request: Some(raw) }) => raw,
            _ => {
                let mut m = pr.to_string();
                m.append(" not found");
                return PageStep::Failed(GhError::Api(m));
            },
        };
        let mut raw = raw;
        let ghost raw0 = raw;
        let mut nodes: Vec<RawThread> = Vec::new();
        std::mem::swap(&mut nodes, &mut raw.review_threads.nodes);
        let ghost before = self.threads@;
        self.threads.append(&mut nodes);
        let more = raw.review_threads.page_info.has_next_page;
        let cursor: Option<String> = match &raw.review_threads.page_info.end_cursor {
            Some(c) => Some(c.clone()),
            None => None,
        };
        if more {
            if let Some(c) = cursor {
                if self.base.is_none() {
                    self.base = Some(raw);
                }
                return PageStep::Next(c);
            }
        }
        let mut base: Option<RawPullRequest> = None;
        std::mem::swap(&mut base, &mut self.base);
        assert(raw.review_threads.nodes@.len() == 0);
        assert(page_without_threads(raw, raw0));
        let b = match base {
            Some(b) => b,
            None => raw,
        };
        let ghost bg = b;
        let mut threads: Vec<RawThread> = Vec::new();
        std::mem::swap(&mut threads, &mut self.threads);
        let ghost all = threads@;
        let d = PrDetail::from_raw(b, threads);
        proof {
            if old(self).base is None {
                assert(page_without_threads(bg, raw0) && detail_from(d, bg, all));
            }
        }
        PageStep::Done(d)
    }
}

/// The address for replying to the review comment `comment_db_id`.
pub fn reply_url(pr: &PrRef, comment_db_id: u64) -> (r: String)
    ensures
        r@ == "https://api.github.com/repos/"@ + pr.owner@ + "/"@ + pr.repo@ + "/pulls/"@ + decimal(
            pr.number as nat,
        ) + "/comments/"@ + decimal(comment_db_id as nat) + "/replies"@,
{
    let mut r = String::from_str("https://api.github.com/repos/");
    r.append(pr.owner.as_str());
    r.append("/");
    r.append(pr.repo.as_str());
    r.append("/pulls/");
    let n = decimal_string(pr.number);
    r.append(n.as_str());
    r.append("/comments/");
    let c = decimal_string(comment_db_id);
    r.append(c.as_str());
    r.append("/replies");
    r
}

/// The address of the latest release of `owner/repo`.
pub fn latest_release_url(owner: &str, repo: &str) -> (r: String)
    ensures
        r@ == "https://api.github.com/repos/"@ + owner@ + "/"@ + repo@ + "/releases/latest"@,
{
    let mut r = String::from_str("https://api.github.com/repos/");
    r.append(owner);
    r.append("/");
    r.append(repo);
    r.append("/releases/latest");
    r
}

} // verus!
