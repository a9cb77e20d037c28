//! Text of the compose window.

use vstd::prelude::*;

use crate::app::{Compose, ComposeTarget};
use super::Tone;

verus! {

/// The compose window's title.
pub fn compose_title(c: &Compose) -> (r: String)
    ensures
        r@ == match c.target {
            ComposeTarget::Conversation => " new comment "@,
            ComposeTarget::ThreadReply { path, .. } => " reply · "@ + path@ + " "@,
        },
{
    match &c.target {
        ComposeTarget::Conversation => String::from_str(" new comment "),
        ComposeTarget::ThreadReply { path, .. } => {
            let mut r = String::from_str(" reply · ");
            r.append(path.as_str());
            r.append(" ");
            r
        },
    }
}

/// The hint under the compose window.
pub fn compose_hint(c: &Compose) -> (r: &'static str)
    ensures
        r@ == (if c.sending {
            " sending… "@
        } else if c.confirm_discard {
            " unsaved text — Esc again to discard "@
        } else {
            " Ctrl-S send · Esc cancel "@
        }),
{
    if c.sending {
        " sending… "
    } else if c.confirm_discard {
        " unsaved text — Esc again to discard "
    } else {
        " Ctrl-S send · Esc cancel "
    }
}

/// The border colour: yellow while a discard waits for confirmation.
pub fn compose_border(c: &Compose) -> (r: Tone)
    ensures
        r == (if c.confirm_discard {
            Tone::Yellow
        } else {
            Tone::Blue
        }),
{
    if c.confirm_discard {
        Tone::Yellow
    } else {
        Tone::Blue
    }
}

} // verus!
