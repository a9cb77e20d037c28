//! Command-line model: what was asked for on the command line, and pull
//! request references of the form `owner/repo#number`.

use vstd::prelude::*;

use crate::text::{
    all_digits, chars_of, decimal, decimal_string, digit_char, digits_value, is_digit, is_first,
    parse_u64, parse_u64_spec, split_once, split_once_spec, string_of,
};

verus! {

/// The command line: an optional target ("owner/repo#123", or "prs" for the
/// list of involved PRs, which is also the default) and the dump switch.
pub struct Cli {
    pub target: Option<String>,
    pub dump: bool,
}

/// A fully-qualified pull request reference: `owner/repo#number`.
#[derive(Debug, PartialEq, Eq)]
pub struct PrRef {
    pub owner: String,
    pub repo: String,
    pub number: u64,
}

impl Clone for PrRef {
    fn clone(&self) -> (r: Self)
        ensures
            r == *self,
    {
        PrRef { owner: self.owner.clone(), repo: self.repo.clone(), number: self.number }
    }
}

/// The web address of a pull request.
pub open spec fn pr_url(owner: Seq<char>, repo: Seq<char>, number: u64) -> Seq<char> {
    "https://github.com/"@ + owner + "/"@ + repo + "/pull/"@ + decimal(number as nat)
}

/// The short form `owner/repo#number`.
pub open spec fn pr_display(owner: Seq<char>, repo: Seq<char>, number: u64) -> Seq<char> {
    owner + "/"@ + repo + "#"@ + decimal(number as nat)
}

/// What a well-formed reference splits into: owner, repo and number.
/// The owner is what precedes the first `/` of the part before the first
/// `#`; the repo is the rest of that part; the number is what follows the
/// first `#`, read as std reads a `u64`. Owner and repo must be non-empty and
/// the repo must not hold another `/`.
pub open spec fn pr_ref_parts(s: Seq<char>) -> Option<(Seq<char>, Seq<char>, u64)> {
    match split_once_spec(s, '#') {
        None => None,
        Some((path, num)) => match split_once_spec(path, '/') {
            None => None,
            Some((owner, repo)) => match parse_u64_spec(num) {
                None => None,
                Some(n) => if owner.len() == 0 || repo.len() == 0 || repo.contains('/') {
                    None
                } else {
                    Some((owner, repo, n))
                },
            },
        },
    }
}

/// std's `Debug` rendering of a string slice (quoted, with escapes).
pub uninterp spec fn str_debug(s: Seq<char>) -> Seq<char>;

/// The error text for a string that is no pull request reference.
pub open spec fn pr_ref_error(s: Seq<char>) -> Seq<char> {
    "expected owner/repo#number, got "@ + str_debug(s)
}

/// std's `Debug` formatting of `s`; its result is named `str_debug`, since
/// the escaping rules take pages to state.
#[verifier::external_body]
fn debug_quoted(s: &str) -> (r: String)
    ensures
        r@ == str_debug(s@),
{
    format!("{s:?}")
}

/// The error for a string that is no pull request reference, given that
/// string as std's `Debug` writes it.
pub fn parse_error(quoted: &str) -> (r: String)
    ensures
        r@ == "expected owner/repo#number, got "@ + quoted@,
{
    let mut e = String::from_str("expected owner/repo#number, got ");
    e.append(quoted);
    e
}

impl PrRef {
    pub fn url(&self) -> (r: String)
        ensures
            r@ == pr_url(self.owner@, self.repo@, self.number),
    {
        let mut r = String::from_str("https://github.com/");
        r.append(self.owner.as_str());
        r.append("/");
        r.append(self.repo.as_str());
        r.append("/pull/");
        let n = decimal_string(self.number);
        r.append(n.as_str());
        r
    }

    /// `owner/repo#number`, the form that `parse` reads back.
    pub fn to_string(&self) -> (r: String)
        ensures
            r@ == pr_display(self.owner@, self.repo@, self.number),
    {
        let mut r = String::from_str(self.owner.as_str());
        r.append("/");
        r.append(self.repo.as_str());
        r.append("#");
        let n = decimal_string(self.number);
        r.append(n.as_str());
        r
    }

    /// Parses `owner/repo#number`.
    pub fn parse(s: &str) -> (r: Result<PrRef, String>)
        ensures
            match r {
                Ok(p) => pr_ref_parts(s@) == Some((p.owner@, p.repo@, p.number)),
                Err(e) => pr_ref_parts(s@) is None && e@ == pr_ref_error(s@),
            },
    {
        let cs = chars_of(s);
        let parts = match split_once(cs.as_slice(), '#') {
            None => None,
            Some((path, num)) => match split_once(path.as_slice(), '/') {
                None => None,
                Some((owner, repo)) => match parse_u64(num.as_slice()) {
                    None => None,
                    Some(n) => {
                        let has_slash = match crate::text::find_char(repo.as_slice(), '/') {
                            Some(_) => true,
                            None => false,
                        };
                        if owner.len() == 0 || repo.len() == 0 || has_slash {
                            None
                        } else {
                            Some((owner, repo, n))
                        }
                    },
                },
            },
        };
        match parts {
            Some((owner, repo, n)) => Ok(
                PrRef {
                    owner: string_of(owner.as_slice()),
                    repo: string_of(repo.as_slice()),
                    number: n,
                },
            ),
            None => {
                let q = debug_quoted(s);
                Err(parse_error(q.as_str()))
            },
        }
    }
}

impl std::str::FromStr for PrRef {
    type Err = String;

    fn from_str(s: &str) -> (r: Result<Self, Self::Err>)
        ensures
            match r {
                Ok(p) => pr_ref_parts(s@) == Some((p.owner@, p.repo@, p.number)),
                Err(e) => pr_ref_parts(s@) is None && e@ == pr_ref_error(s@),
            },
    {
        PrRef::parse(s)
    }
}

/// What the program was asked to show.
pub enum Target {
    /// The open pull requests that involve the viewer.
    List,
    /// One pull request.
    Pr(PrRef),
}

/// Chooses the target from the command line: none or "prs" lists the
/// involved pull requests, anything else must be a pull request reference.
pub fn resolve_target(target: Option<&str>) -> (r: Result<Target, String>)
    ensures
        match target {
            None => r matches Ok(Target::List),
            Some(s) => if s@ == "prs"@ {
                r matches Ok(Target::List)
            } else {
                match r {
                    Ok(Target::Pr(p)) => pr_ref_parts(s@) == Some((p.owner@, p.repo@, p.number)),
                    Ok(Target::List) => false,
                    Err(e) => pr_ref_parts(s@) is None && e@ == pr_ref_error(s@),
                }
            },
        },
{
    match target {
        None => Ok(Target::List),
        Some(s) => {
            let cs = chars_of(s);
            proof {
                reveal_strlit("prs");
            }
            if cs.len() == 3 && cs[0] == 'p' && cs[1] == 'r' && cs[2] == 's' {
                assert(s@ =~= "prs"@);
                Ok(Target::List)
            } else {
                assert(s@ != "prs"@);
                match PrRef::parse(s) {
                    Ok(p) => Ok(Target::Pr(p)),
                    Err(e) => Err(e),
                }
            }
        },
    }
}

proof fn lemma_decimal_digits(n: nat)
    ensures
        all_digits(decimal(n)),
        decimal(n).len() > 0,
        digits_value(decimal(n)) == n,
    decreases n,
{
    if n >= 10 {
        lemma_decimal_digits(n / 10);
        let d = decimal(n);
        assert(d.drop_last() =~= decimal(n / 10));
        let m = n % 10;
        assert(m < 10);
        assert((digit_char(m) as u32) == 48 + m);
        assert((n / 10) * 10 + m == n) by (nonlinear_arith)
            requires
                m == n % 10,
        ;
        assert(d.last() == digit_char(m));
        assert(digits_value(d) == digits_value(decimal(n / 10)) * 10 + m);
        assert forall|i: int| 0 <= i < d.len() implies is_digit(#[trigger] d[i]) by {
            if i < d.len() - 1 {
                assert(d[i] == decimal(n / 10)[i]);
            }
        }
    } else {
        assert(decimal(n).drop_last() =~= Seq::<char>::empty());
        assert((digit_char(n) as u32) == 48 + n);
        assert(decimal(n).last() == digit_char(n));
        assert(digits_value(decimal(n)) == digits_value(decimal(n).drop_last()) * 10 + n);
    }
}

proof fn lemma_no_char_in_decimal(n: nat, c: char)
    requires
        !is_digit(c),
    ensures
        !decimal(n).contains(c),
{
    lemma_decimal_digits(n);
    if decimal(n).contains(c) {
        let i = choose|i: int| 0 <= i < decimal(n).len() && decimal(n)[i] == c;
        assert(is_digit(decimal(n)[i]));
    }
}

/// A reference written in its short form parses back to itself, whenever
/// owner and repo are non-empty and hold neither `/` nor `#`.
pub proof fn law_display_parses_back(owner: Seq<char>, repo: Seq<char>, number: u64)
    requires
        owner.len() > 0,
        repo.len() > 0,
        !owner.contains('/'),
        !owner.contains('#'),
        !repo.contains('/'),
        !repo.contains('#'),
    ensures
        pr_ref_parts(pr_display(owner, repo, number)) == Some((owner, repo, number)),
{
    reveal_strlit("/");
    reveal_strlit("#");
    let dec = decimal(number as nat);
    lemma_decimal_digits(number as nat);
    lemma_no_char_in_decimal(number as nat, '#');
    let path = owner + "/"@ + repo;
    let s = pr_display(owner, repo, number);
    assert(s =~= path + seq!['#'] + dec);
    let hi = path.len() as int;
    assert(is_first(s, '#', hi)) by {
        assert forall|j: int| 0 <= j < hi implies s[j] != '#' by {
            assert(s[j] == path[j]);
            if j < owner.len() {
                assert(path[j] == owner[j]);
            } else if j == owner.len() {
            } else {
                assert(path[j] == repo[j - owner.len() - 1]);
            }
        }
    }
    assert(s.contains('#')) by {
        assert(s[hi] == '#');
    }
    let k = choose|k: int| is_first(s, '#', k);
    crate::text::lemma_first_unique(s, '#', hi, k);
    assert(s.take(hi) =~= path);
    assert(s.skip(hi + 1) =~= dec);
    let sl = owner.len() as int;
    assert(is_first(path, '/', sl)) by {
        assert forall|j: int| 0 <= j < sl implies path[j] != '/' by {
            assert(path[j] == owner[j]);
        }
    }
    assert(path.contains('/')) by {
        assert(path[sl] == '/');
    }
    let k2 = choose|k: int| is_first(path, '/', k);
    crate::text::lemma_first_unique(path, '/', sl, k2);
    assert(path.take(sl) =~= owner);
    assert(path.skip(sl + 1) =~= repo);
    assert(dec[0] != '+') by {
        assert(is_digit(dec[0]));
    }
    assert(digit_char(0) == '0');
}

} // verus!
