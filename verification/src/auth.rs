//! Choosing the GitHub token: the gh CLI's login first, then the
//! `GITHUB_TOKEN` environment variable. Running `gh` and reading the
//! environment are the caller's part.

use vstd::prelude::*;

use crate::text::{chars_of, string_of, trim, trim_chars};

verus! {

/// The characters of an optional string.
pub open spec fn str_opt(t: Option<&str>) -> Option<Seq<char>> {
    match t {
        Some(s) => Some(s@),
        None => None,
    }
}

/// A candidate token, trimmed, if anything is left of it.
pub open spec fn usable(t: Option<Seq<char>>) -> Option<Seq<char>> {
    match t {
        Some(s) => if trim(s).len() > 0 {
            Some(trim(s))
        } else {
            None
        },
        None => None,
    }
}

/// The token to use: what `gh auth token` printed (when it succeeded), else
/// `GITHUB_TOKEN`, each trimmed and taken only when not empty.
pub open spec fn token_choice(gh_output: Option<Seq<char>>, env_token: Option<Seq<char>>) -> Option<
    Seq<char>,
> {
    match usable(gh_output) {
        Some(t) => Some(t),
        None => usable(env_token),
    }
}

/// What is said when neither source gives a token.
pub open spec fn no_token_message() -> Seq<char> {
    "no GitHub token found: run `gh auth login` or set GITHUB_TOKEN"@
}

fn usable_token(t: Option<&str>) -> (r: Option<String>)
    ensures
        match r {
            Some(s) => usable(str_opt(t)) == Some(s@),
            None => usable(str_opt(t)) is None,
        },
{
    match t {
        None => None,
        Some(s) => {
            let cs = chars_of(s);
            let tc = trim_chars(cs.as_slice());
            if tc.len() > 0 {
                Some(string_of(tc.as_slice()))
            } else {
                None
            }
        },
    }
}

/// Picks the token from the output of `gh auth token` (`None` when the
/// command could not run or failed) and the `GITHUB_TOKEN` variable (`None`
/// when unset), or says that there is none.
pub fn choose_token(gh_output: Option<&str>, env_token: Option<&str>) -> (r: Result<String, String>)
    ensures
        match r {
            Ok(t) => token_choice(str_opt(gh_output), str_opt(env_token)) == Some(
                t@,
            ),
            Err(m) => token_choice(str_opt(gh_output), str_opt(env_token)) is None
                && m@ == no_token_message(),
        },
{
    match usable_token(gh_output) {
        Some(t) => Ok(t),
        None => match usable_token(env_token) {
            Some(t) => Ok(t),
            None => Err(
                String::from_str("no GitHub token found: run `gh auth login` or set GITHUB_TOKEN"),
            ),
        },
    }
}

} // verus!
