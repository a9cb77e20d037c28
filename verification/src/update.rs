//! Self-update: deciding from the latest release tag whether a newer
//! version exists. Fetching the tag and installing are the caller's part.

use vstd::prelude::*;

use crate::text::{chars_of, string_of};

verus! {

/// What self_update's `version::bump_is_greater(current, latest)` answers:
/// whether `latest` is a greater semantic version than `current`, or `None`
/// where either fails to parse as one.
pub uninterp spec fn semver_bump_is_greater(current: Seq<char>, latest: Seq<char>) -> Option<bool>;

/// self_update's `version::bump_is_greater`, its error read as `None`.
/// Semantic-version comparison takes pages to state, so the result is named.
#[verifier::external_body]
fn bump_is_greater(current: &str, latest: &str) -> (r: Option<bool>)
    ensures
        r == semver_bump_is_greater(current@, latest@),
{
    self_update::version::bump_is_greater(current, latest).ok()
}

/// `s` without its leading `v`s, as std's `trim_start_matches('v')`.
pub open spec fn strip_v(s: Seq<char>) -> Seq<char>
    decreases s.len(),
{
    if s.len() > 0 && s[0] == 'v' {
        strip_v(s.drop_first())
    } else {
        s
    }
}

/// The version to offer, given the running version and the latest release
/// tag (if there is one): the tag without its leading `v`s, when it is a
/// greater version than the running one. A tag that does not parse offers
/// nothing.
pub fn newer_version(current: &str, tag: Option<String>) -> (r: Option<String>)
    ensures
        match tag {
            None => r is None,
            Some(t) => if semver_bump_is_greater(current@, strip_v(t@)) == Some(true) {
                r matches Some(v) && v@ == strip_v(t@)
            } else {
                r is None
            },
        },
{
    let t = match tag {
        Some(t) => t,
        None => {
            return None;
        },
    };
    let cs = chars_of(t.as_str());
    let mut lo: usize = 0;
    assert(cs@.skip(0) =~= cs@);
    while lo < cs.len() && cs[lo] == 'v'
        invariant
            lo <= cs.len(),
            cs@ == t@,
            strip_v(t@) == strip_v(cs@.skip(lo as int)),
        decreases cs.len() - lo,
    {
        assert(cs@.skip(lo as int).drop_first() =~= cs@.skip(lo + 1));
        lo = lo + 1;
    }
    let rest = crate::text::slice_to_vec(cs.as_slice(), lo, cs.len());
    assert(rest@ =~= cs@.skip(lo as int));
    let latest = string_of(rest.as_slice());
    let greater = bump_is_greater(current, latest.as_str());
    offered_version(latest, greater)
}

/// The version to offer once the comparison is known: `latest` when it was
/// found greater than the running version, nothing when it was not or when
/// the comparison failed (`None`).
pub fn offered_version(latest: String, greater: Option<bool>) -> (r: Option<String>)
    ensures
        r == (if greater == Some(true) {
            Some(latest)
        } else {
            None::<String>
        }),
{
    match greater {
        Some(true) => Some(latest),
        _ => None,
    }
}

} // verus!
