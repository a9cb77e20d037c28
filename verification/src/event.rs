//! What the application reacts to: key presses, the clock tick, and the
//! results of API calls made on its behalf.

use vstd::prelude::*;

use crate::github::types::{PrDetail, PrSummary};
use crate::github::GhError;

verus! {

/// A key as the application reads it.
#[derive(Debug, Clone, Copy, PartialEq, Eq, Structural)]
pub enum KeyCode {
    Char(char),
    Esc,
    Enter,
    Tab,
    Up,
    Down,
    Home,
    End,
    PageUp,
    PageDown,
    /// Any key the application does not bind.
    Other,
}

/// A key event: the key, whether Control was held, and whether this is a
/// press (rather than a repeat or a release).
#[derive(Debug, Clone, Copy, PartialEq, Eq, Structural)]
pub struct KeyInput {
    pub code: KeyCode,
    pub ctrl: bool,
    pub press: bool,
}

/// What copying a comment to the clipboard came to.
pub enum ClipboardOutcome {
    /// Copied; the comment was written by `author`.
    Copied { author: String },
    /// No clipboard could be opened; the reason.
    Unavailable(String),
    /// The clipboard refused the text; the reason.
    Failed(String),
}

pub enum AppEvent {
    Key(KeyInput),
    Tick,
    Api(ApiEvent),
    Clipboard(ClipboardOutcome),
    /// A terminal event the application ignores (resize, mouse, focus).
    Other,
}

/// A completed API call. `req` is Some(id) for fetches (stale results are
/// dropped when a newer request superseded them) and None for mutations,
/// which always apply.
pub struct ApiEvent {
    pub req: Option<u64>,
    pub payload: ApiResult,
}

pub enum ApiResult {
    PrList(Result<Vec<PrSummary>, GhError>),
    PrDetail(Result<PrDetail, GhError>),
    Posted(Result<(), GhError>),
    ThreadResolved(Result<(String, bool), GhError>),
    /// A newer release exists (version without the leading "v").
    UpdateAvailable(String),
}

} // verus!
