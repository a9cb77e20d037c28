//! Character-level helpers shared by the parsers and formatters: conversion
//! between strings and character vectors, decimal numbers, and the first
//! occurrence of a character.

use vstd::prelude::*;

verus! {

/// The characters of `s`, in order.
pub fn chars_of(s: &str) -> (r: Vec<char>)
    ensures
        r@ == s@,
{
    let mut r: Vec<char> = Vec::new();
    for c in it: s.chars()
        invariant
            r@ == it.seq().take(it.index() as int),
    {
        r.push(c);
    }
    r
}

/// A string holding exactly the characters `cs`
/// (std's `FromIterator<char>` for `String`).
#[verifier::external_body]
pub(crate) fn string_of(cs: &[char]) -> (s: String)
    ensures
        s@ == cs@,
{
    cs.iter().collect()
}

/// The ASCII digit for `d`, which is below ten.
pub open spec fn digit_char(d: nat) -> char {
    ((48 + d) as u32) as char
}

/// The decimal notation of `n`, without sign or leading zeros.
pub open spec fn decimal(n: nat) -> Seq<char>
    decreases n,
{
    if n < 10 {
        seq![digit_char(n)]
    } else {
        decimal(n / 10).push(digit_char(n % 10))
    }
}

fn digit(d: u128) -> (c: char)
    requires
        d < 10,
    ensures
        c == digit_char(d as nat),
{
    match d {
        0 => '0',
        1 => '1',
        2 => '2',
        3 => '3',
        4 => '4',
        5 => '5',
        6 => '6',
        7 => '7',
        8 => '8',
        _ => '9',
    }
}

/// The decimal digits of `n`.
pub fn decimal_chars(n: u128) -> (r: Vec<char>)
    ensures
        r@ == decimal(n as nat),
    decreases n,
{
    if n < 10 {
        let mut v: Vec<char> = Vec::new();
        v.push(digit(n));
        v
    } else {
        let mut v = decimal_chars(n / 10);
        v.push(digit(n % 10));
        v
    }
}

/// `n` written in decimal, as a `String`.
pub fn decimal_string_u128(n: u128) -> (r: String)
    ensures
        r@ == decimal(n as nat),
{
    let v = decimal_chars(n);
    string_of(v.as_slice())
}

/// `n` written in decimal, as a `String`.
pub fn decimal_string(n: u64) -> (r: String)
    ensures
        r@ == decimal(n as nat),
{
    let v = decimal_chars(n as u128);
    string_of(v.as_slice())
}

pub open spec fn is_digit(c: char) -> bool {
    '0' <= c && c <= '9'
}

pub open spec fn all_digits(s: Seq<char>) -> bool {
    forall|i: int| 0 <= i < s.len() ==> is_digit(#[trigger] s[i])
}

/// The number that the decimal digits `s` denote.
pub open spec fn digits_value(s: Seq<char>) -> nat
    decreases s.len(),
{
    if s.len() == 0 {
        0
    } else {
        digits_value(s.drop_last()) * 10 + ((s.last() as u32) - 48) as nat
    }
}

/// What std's `u64::from_str` accepts: an optional `+`, then one or more
/// ASCII digits whose value fits in a `u64`.
pub open spec fn parse_u64_spec(s: Seq<char>) -> Option<u64> {
    let d = if s.len() > 0 && s[0] == '+' {
        s.drop_first()
    } else {
        s
    };
    if d.len() > 0 && all_digits(d) && digits_value(d) <= u64::MAX {
        Some(digits_value(d) as u64)
    } else {
        None
    }
}

proof fn lemma_digits_value_prefix_le(s: Seq<char>, i: int)
    requires
        0 <= i <= s.len(),
        all_digits(s),
    ensures
        digits_value(s.take(i)) <= digits_value(s),
    decreases s.len() - i,
{
    if i < s.len() {
        lemma_digits_value_prefix_le(s, i + 1);
        assert(s.take(i + 1).drop_last() =~= s.take(i));
        assert(is_digit(s[i]));
    } else {
        assert(s.take(i) =~= s);
    }
}

/// Parses a decimal `u64` as std's `u64::from_str` does.
pub fn parse_u64(s: &[char]) -> (r: Option<u64>)
    ensures
        r == parse_u64_spec(s@),
{
    let start: usize = if s.len() > 0 && s[0] == '+' {
        1
    } else {
        0
    };
    let ghost d = if s@.len() > 0 && s@[0] == '+' {
        s@.drop_first()
    } else {
        s@
    };
    assert(d =~= s@.skip(start as int));
    if start >= s.len() {
        return None;
    }
    let mut value: u64 = 0;
    let mut i: usize = start;
    while i < s.len()
        invariant
            start <= i <= s.len(),
            start < s.len(),
            d =~= s@.skip(start as int),
            d == (if s@.len() > 0 && s@[0] == '+' {
                s@.drop_first()
            } else {
                s@
            }),
            all_digits(d.take(i - start)),
            value as nat == digits_value(d.take(i - start)),
        decreases s.len() - i,
    {
        let c = s[i];
        if !('0' <= c && c <= '9') {
            assert(!is_digit(d[i - start]));
            return None;
        }
        let dv: u64 = (c as u32 - 48) as u64;
        proof {
            assert(d.take(i - start + 1).drop_last() =~= d.take(i - start));
            assert(d.take(i - start + 1).last() == c);
        }
        match value.checked_mul(10) {
            None => {
                proof {
                    assert(all_digits(d.take(i - start + 1)));
                    if all_digits(d) {
                        lemma_digits_value_prefix_le(d, i - start + 1);
                    }
                }
                return None;
            },
            Some(m) => match m.checked_add(dv) {
                None => {
                    proof {
                        assert(all_digits(d.take(i - start + 1)));
                        if all_digits(d) {
                            lemma_digits_value_prefix_le(d, i - start + 1);
                        }
                    }
                    return None;
                },
                Some(v) => {
                    value = v;
                },
            },
        }
        i = i + 1;
    }
    assert(d.take(i - start) =~= d);
    Some(value)
}

/// `i` is the position of the first `c` in `s`.
pub open spec fn is_first(s: Seq<char>, c: char, i: int) -> bool {
    &&& 0 <= i < s.len()
    &&& s[i] == c
    &&& forall|j: int| 0 <= j < i ==> s[j] != c
}

/// `s` split around its first `c`, as std's `str::split_once` with a
/// character pattern does.
pub open spec fn split_once_spec(s: Seq<char>, c: char) -> Option<(Seq<char>, Seq<char>)> {
    if s.contains(c) {
        let i = choose|i: int| is_first(s, c, i);
        Some((s.take(i), s.skip(i + 1)))
    } else {
        None
    }
}

/// The position of the first `c` in `s`, if any.
pub fn find_char(s: &[char], c: char) -> (r: Option<usize>)
    ensures
        match r {
            Some(i) => is_first(s@, c, i as int),
            None => !s@.contains(c),
        },
{
    let mut i: usize = 0;
    while i < s.len()
        invariant
            i <= s.len(),
            forall|j: int| 0 <= j < i ==> s@[j] != c,
        decreases s.len() - i,
    {
        if s[i] == c {
            return Some(i);
        }
        i = i + 1;
    }
    None
}

/// The first `c` is unique.
pub proof fn lemma_first_unique(s: Seq<char>, c: char, i: int, k: int)
    requires
        is_first(s, c, i),
        is_first(s, c, k),
    ensures
        i == k,
{
}

/// `cs[lo..hi]` as a new vector.
pub fn slice_to_vec(cs: &[char], lo: usize, hi: usize) -> (r: Vec<char>)
    requires
        lo <= hi <= cs.len(),
    ensures
        r@ == cs@.subrange(lo as int, hi as int),
{
    let mut r: Vec<char> = Vec::new();
    let mut i = lo;
    while i < hi
        invariant
            lo <= i <= hi <= cs.len(),
            r@ == cs@.subrange(lo as int, i as int),
        decreases hi - i,
    {
        r.push(cs[i]);
        i = i + 1;
    }
    r
}

/// Splits `cs` around its first `c`.
pub fn split_once(cs: &[char], c: char) -> (r: Option<(Vec<char>, Vec<char>)>)
    ensures
        match r {
            Some((a, b)) => split_once_spec(cs@, c) == Some((a@, b@)),
            None => split_once_spec(cs@, c) is None,
        },
{
    match find_char(cs, c) {
        None => None,
        Some(i) => {
            assert(i < cs.len());
            proof {
                assert(cs@.contains(c)) by {
                    assert(cs@[i as int] == c);
                }
                let k = choose|k: int| is_first(cs@, c, k);
                lemma_first_unique(cs@, c, i as int, k);
            }
            let a = slice_to_vec(cs, 0, i);
            let b = slice_to_vec(cs, i + 1, cs.len());
            assert(a@ =~= cs@.take(i as int));
            assert(b@ =~= cs@.skip(i + 1));
            Some((a, b))
        },
    }
}

/// Whether `a` and `b` hold the same characters.
pub fn chars_eq(a: &[char], b: &[char]) -> (r: bool)
    ensures
        r == (a@ == b@),
{
    if a.len() != b.len() {
        return false;
    }
    let mut i: usize = 0;
    while i < a.len()
        invariant
            i <= a.len() == b.len(),
            forall|j: int| 0 <= j < i ==> a@[j] == b@[j],
        decreases a.len() - i,
    {
        if a[i] != b[i] {
            return false;
        }
        i = i + 1;
    }
    assert(a@ =~= b@);
    true
}

/// Whether two strings hold the same characters.
pub fn str_eq(a: &str, b: &str) -> (r: bool)
    ensures
        r == (a@ == b@),
{
    let x = chars_of(a);
    let y = chars_of(b);
    chars_eq(x.as_slice(), y.as_slice())
}

/// Unicode's White_Space property, which std's `char::is_whitespace` and
/// `str::trim` go by.
pub open spec fn is_whitespace(c: char) -> bool {
    let u = c as u32;
    (0x9 <= u && u <= 0xd) || u == 0x20 || u == 0x85 || u == 0xa0 || u == 0x1680 || (0x2000 <= u
        && u <= 0x200a) || u == 0x2028 || u == 0x2029 || u == 0x202f || u == 0x205f || u == 0x3000
}

pub fn char_is_whitespace(c: char) -> (r: bool)
    ensures
        r == is_whitespace(c),
{
    let u = c as u32;
    (0x9 <= u && u <= 0xd) || u == 0x20 || u == 0x85 || u == 0xa0 || u == 0x1680 || (0x2000 <= u
        && u <= 0x200a) || u == 0x2028 || u == 0x2029 || u == 0x202f || u == 0x205f || u == 0x3000
}

/// `s` holds nothing but whitespace (so `trim` leaves it empty).
pub open spec fn is_blank(s: Seq<char>) -> bool {
    forall|i: int| 0 <= i < s.len() ==> is_whitespace(#[trigger] s[i])
}

pub fn chars_blank(s: &[char]) -> (r: bool)
    ensures
        r == is_blank(s@),
{
    let mut i: usize = 0;
    while i < s.len()
        invariant
            i <= s.len(),
            forall|j: int| 0 <= j < i ==> is_whitespace(#[trigger] s@[j]),
        decreases s.len() - i,
    {
        if !char_is_whitespace(s[i]) {
            return false;
        }
        i = i + 1;
    }
    true
}

pub fn str_blank(s: &str) -> (r: bool)
    ensures
        r == is_blank(s@),
{
    let cs = chars_of(s);
    chars_blank(cs.as_slice())
}

/// `s` without leading whitespace.
pub open spec fn trim_start(s: Seq<char>) -> Seq<char>
    decreases s.len(),
{
    if s.len() > 0 && is_whitespace(s[0]) {
        trim_start(s.drop_first())
    } else {
        s
    }
}

/// `s` without trailing whitespace.
pub open spec fn trim_end(s: Seq<char>) -> Seq<char>
    decreases s.len(),
{
    if s.len() > 0 && is_whitespace(s.last()) {
        trim_end(s.drop_last())
    } else {
        s
    }
}

/// `s` without leading and trailing whitespace, as std's `str::trim`.
pub open spec fn trim(s: Seq<char>) -> Seq<char> {
    trim_end(trim_start(s))
}

pub proof fn lemma_trim_empty_iff_blank(s: Seq<char>)
    ensures
        (trim(s).len() == 0) == is_blank(s),
{
    lemma_trim_start_empty_iff_blank(s);
    lemma_trim_start_head(s);
    if trim_start(s).len() > 0 {
        lemma_trim_end_keeps_head(trim_start(s));
    }
}

proof fn lemma_trim_start_head(s: Seq<char>)
    ensures
        trim_start(s).len() == 0 || !is_whitespace(trim_start(s)[0]),
    decreases s.len(),
{
    if s.len() > 0 && is_whitespace(s[0]) {
        lemma_trim_start_head(s.drop_first());
    }
}

proof fn lemma_trim_end_keeps_head(t: Seq<char>)
    requires
        t.len() > 0,
        !is_whitespace(t[0]),
    ensures
        trim_end(t).len() > 0,
    decreases t.len(),
{
    if is_whitespace(t.last()) {
        assert(t.len() > 1);
        lemma_trim_end_keeps_head(t.drop_last());
    }
}

proof fn lemma_trim_start_empty_iff_blank(s: Seq<char>)
    ensures
        (trim_start(s).len() == 0) == is_blank(s),
    decreases s.len(),
{
    if s.len() > 0 {
        if is_whitespace(s[0]) {
            lemma_trim_start_empty_iff_blank(s.drop_first());
            if is_blank(s.drop_first()) {
                assert forall|i: int| 0 <= i < s.len() implies is_whitespace(#[trigger] s[i]) by {
                    if i > 0 {
                        assert(s[i] == s.drop_first()[i - 1]);
                    }
                }
            } else {
                let j = choose|j: int|
                    0 <= j < s.drop_first().len() && !is_whitespace(s.drop_first()[j]);
                assert(s[j + 1] == s.drop_first()[j]);
            }
        } else {
            assert(!is_whitespace(s[0]));
        }
    }
}

/// The position where `trim_start` begins.
fn trim_start_index(s: &[char]) -> (lo: usize)
    ensures
        lo <= s.len(),
        trim_start(s@) == s@.skip(lo as int),
{
    let mut lo: usize = 0;
    assert(s@.skip(0) =~= s@);
    while lo < s.len() && char_is_whitespace(s[lo])
        invariant
            lo <= s.len(),
            trim_start(s@) == trim_start(s@.skip(lo as int)),
        decreases s.len() - lo,
    {
        assert(s@.skip(lo as int).drop_first() =~= s@.skip(lo + 1));
        lo = lo + 1;
    }
    lo
}

/// `s` without leading and trailing whitespace.
pub fn trim_chars(s: &[char]) -> (r: Vec<char>)
    ensures
        r@ == trim(s@),
{
    let lo = trim_start_index(s);
    let mut hi: usize = s.len();
    assert(s@.subrange(lo as int, hi as int) =~= s@.skip(lo as int));
    while hi > lo && char_is_whitespace(s[hi - 1])
        invariant
            lo <= hi <= s.len(),
            trim(s@) == trim_end(s@.subrange(lo as int, hi as int)),
        decreases hi,
    {
        assert(s@.subrange(lo as int, hi as int).drop_last() =~= s@.subrange(
            lo as int,
            hi - 1,
        ));
        hi = hi - 1;
    }
    slice_to_vec(s, lo, hi)
}

/// `s` with `sep` between consecutive parts.
pub open spec fn join(parts: Seq<Seq<char>>, sep: Seq<char>) -> Seq<char>
    decreases parts.len(),
{
    if parts.len() == 0 {
        Seq::empty()
    } else if parts.len() == 1 {
        parts[0]
    } else {
        join(parts.drop_last(), sep) + sep + parts.last()
    }
}

/// The characters of `parts` joined with `sep`, as std's `[String]::join`.
pub fn join_chars(parts: &Vec<String>, sep: &str) -> (r: Vec<char>)
    ensures
        r@ == join(parts@.map_values(|p: String| p@), sep@),
{
    let ghost views = parts@.map_values(|p: String| p@);
    let sepc = chars_of(sep);
    let mut r: Vec<char> = Vec::new();
    let mut i: usize = 0;
    while i < parts.len()
        invariant
            i <= parts.len(),
            views == parts@.map_values(|p: String| p@),
            sepc@ == sep@,
            r@ == join(views.take(i as int), sep@),
        decreases parts.len() - i,
    {
        let pc = chars_of(parts[i].as_str());
        let ghost before = r@;
        if i > 0 {
            let mut k: usize = 0;
            while k < sepc.len()
                invariant
                    k <= sepc.len(),
                    r@ == before + sepc@.take(k as int),
                decreases sepc.len() - k,
            {
                r.push(sepc[k]);
                k = k + 1;
            }
        }
        let ghost mid = r@;
        let mut k: usize = 0;
        while k < pc.len()
            invariant
                k <= pc.len(),
                r@ == mid + pc@.take(k as int),
            decreases pc.len() - k,
        {
            r.push(pc[k]);
            k = k + 1;
        }
        assert(views.take(i + 1).drop_last() =~= views.take(i as int));
        assert(sepc@.take(sepc.len() as int) =~= sepc@);
        assert(pc@.take(pc.len() as int) =~= pc@);
        assert(views[i as int] == parts@[i as int]@);
        i = i + 1;
    }
    assert(views.take(parts.len() as int) =~= views);
    r
}

/// Lexicographic order of character sequences by code point, the order of
/// std's `Ord` for `str` (which compares the UTF-8 bytes, and so orders by
/// code point).
pub open spec fn seq_lt(a: Seq<char>, b: Seq<char>) -> bool
    decreases a.len(),
{
    if a.len() == 0 {
        b.len() > 0
    } else if b.len() == 0 {
        false
    } else if a[0] != b[0] {
        a[0] < b[0]
    } else {
        seq_lt(a.drop_first(), b.drop_first())
    }
}

proof fn lemma_seq_head_eq(a: Seq<char>, b: Seq<char>)
    requires
        a.len() > 0,
        b.len() > 0,
        a[0] == b[0],
        a.drop_first() == b.drop_first(),
    ensures
        a == b,
{
    let x = a.subrange(1, a.len() as int);
    let y = b.subrange(1, b.len() as int);
    assert(x.len() == a.len() - 1);
    assert(y.len() == b.len() - 1);
    assert(x == y);
    assert(a.len() == b.len());
    assert forall|i: int| 0 <= i < a.len() implies a[i] == b[i] by {
        if i > 0 {
            assert(a[i] == a.drop_first()[i - 1]);
            assert(b[i] == b.drop_first()[i - 1]);
        }
    }
    assert(a =~= b);
}

/// `seq_lt` is irreflexive, asymmetric and total.
pub proof fn lemma_seq_lt_total(a: Seq<char>, b: Seq<char>)
    ensures
        !seq_lt(a, a),
        seq_lt(a, b) || a == b || seq_lt(b, a),
        !(seq_lt(a, b) && seq_lt(b, a)),
    decreases a.len(),
{
    if a.len() > 0 && b.len() > 0 {
        lemma_seq_lt_total(a.drop_first(), b.drop_first());
        lemma_seq_lt_total(a.drop_first(), a.drop_first());
        if a[0] == b[0] && a.drop_first() == b.drop_first() {
            lemma_seq_head_eq(a, b);
        }
    } else if a.len() > 0 {
        lemma_seq_lt_total(a.drop_first(), a.drop_first());
    } else if b.len() == 0 {
        assert(a =~= b);
    }
}

/// `seq_lt` is transitive.
pub proof fn lemma_seq_lt_trans(a: Seq<char>, b: Seq<char>, c: Seq<char>)
    requires
        seq_lt(a, b),
        seq_lt(b, c),
    ensures
        seq_lt(a, c),
    decreases a.len(),
{
    if a.len() > 0 && a[0] == b[0] && b[0] == c[0] {
        lemma_seq_lt_trans(a.drop_first(), b.drop_first(), c.drop_first());
    }
}

/// Whether `a` comes before `b` in `seq_lt` order.
pub fn chars_lt(a: &[char], b: &[char]) -> (r: bool)
    ensures
        r == seq_lt(a@, b@),
{
    let mut i: usize = 0;
    assert(a@.skip(0) =~= a@);
    assert(b@.skip(0) =~= b@);
    loop
        invariant
            i <= a.len(),
            i <= b.len(),
            seq_lt(a@, b@) == seq_lt(a@.skip(i as int), b@.skip(i as int)),
        decreases a.len() - i,
    {
        if i == a.len() {
            return i < b.len();
        }
        if i == b.len() {
            return false;
        }
        if a[i] != b[i] {
            return a[i] < b[i];
        }
        assert(a@.skip(i as int).drop_first() =~= a@.skip(i + 1));
        assert(b@.skip(i as int).drop_first() =~= b@.skip(i + 1));
        i = i + 1;
    }
}

/// The pieces of `s` between newlines (one more than the newlines).
pub open spec fn pieces(s: Seq<char>) -> Seq<Seq<char>>
    decreases s.len(),
{
    if s.len() == 0 {
        seq![Seq::<char>::empty()]
    } else {
        let p = pieces(s.drop_last());
        if s.last() == '\n' {
            p.push(Seq::<char>::empty())
        } else {
            p.update(p.len() - 1, p.last().push(s.last()))
        }
    }
}

pub proof fn lemma_pieces_nonempty(s: Seq<char>)
    ensures
        pieces(s).len() >= 1,
    decreases s.len(),
{
    if s.len() > 0 {
        lemma_pieces_nonempty(s.drop_last());
    }
}

/// A line without the carriage return of a `\r\n` line ending.
pub open spec fn strip_cr(l: Seq<char>) -> Seq<char> {
    if l.len() > 0 && l.last() == '\r' {
        l.drop_last()
    } else {
        l
    }
}

/// The lines of `s` as std's `str::lines` yields them: split at `\n`, a
/// `\r` before the `\n` dropped, and no empty last line after a final `\n`.
pub open spec fn lines_of(s: Seq<char>) -> Seq<Seq<char>> {
    let p = pieces(s);
    let n = p.len() as int;
    let body = p.take(n - 1).map_values(|l: Seq<char>| strip_cr(l));
    if p[n - 1].len() == 0 {
        body
    } else {
        body.push(p[n - 1])
    }
}

fn strip_cr_vec(v: Vec<char>) -> (r: Vec<char>)
    ensures
        r@ == strip_cr(v@),
{
    let mut v = v;
    if v.len() > 0 && v[v.len() - 1] == '\r' {
        v.pop();
    }
    v
}

/// The lines of `s`, as std's `str::lines`.
pub fn lines(s: &[char]) -> (r: Vec<Vec<char>>)
    ensures
        r@.map_values(|l: Vec<char>| l@) == lines_of(s@),
{
    let mut done: Vec<Vec<char>> = Vec::new();
    let mut cur: Vec<char> = Vec::new();
    let mut i: usize = 0;
    assert(s@.take(0) =~= Seq::<char>::empty());
    while i < s.len()
        invariant
            i <= s.len(),
            pieces(s@.take(i as int)) =~= done@.map_values(|l: Vec<char>| l@).push(cur@),
        decreases s.len() - i,
    {
        let c = s[i];
        proof {
            assert(s@.take(i + 1).drop_last() =~= s@.take(i as int));
            assert(s@.take(i + 1).last() == c);
        }
        if c == '\n' {
            let mut fresh: Vec<char> = Vec::new();
            std::mem::swap(&mut fresh, &mut cur);
            done.push(fresh);
            proof {
                assert(done@.map_values(|l: Vec<char>| l@) =~= pieces(s@.take(i as int)));
            }
        } else {
            let ghost before = done@.map_values(|l: Vec<char>| l@).push(cur@);
            cur.push(c);
            proof {
                lemma_pieces_nonempty(s@.take(i as int));
                assert(done@.map_values(|l: Vec<char>| l@).push(cur@) =~= before.update(
                    before.len() - 1,
                    before.last().push(c),
                ));
            }
        }
        i = i + 1;
    }
    assert(s@.take(i as int) =~= s@);
    let ghost p = pieces(s@);
    let n = done.len();
    let mut r: Vec<Vec<char>> = Vec::new();
    let mut rest = done;
    let mut k: usize = 0;
    while rest.len() > 0
        invariant
            k + rest.len() == n,
            p.len() == n + 1,
            rest@.map_values(|l: Vec<char>| l@) =~= p.take(n as int).skip(k as int),
            r@.map_values(|l: Vec<char>| l@) =~= p.take(k as int).map_values(
                |l: Seq<char>| strip_cr(l),
            ),
            p[n as int] == cur@,
        decreases rest.len(),
    {
        let ghost old_rest = rest@;
        let l = rest.remove(0);
        proof {
            assert(old_rest.map_values(|l: Vec<char>| l@)[0] == old_rest[0]@);
            assert(l@ == p.take(n as int).skip(k as int)[0]);
            assert(l@ == p[k as int]);
            assert(p.take(k + 1).map_values(|l: Seq<char>| strip_cr(l)) =~= p.take(
                k as int,
            ).map_values(|l: Seq<char>| strip_cr(l)).push(strip_cr(p[k as int])));
        }
        r.push(strip_cr_vec(l));
        proof {
            let m = rest@.map_values(|l: Vec<char>| l@);
            assert forall|j: int| 0 <= j < rest@.len() implies #[trigger] m[j] == p.take(
                n as int,
            ).skip(k + 1)[j] by {
                assert(rest@[j] == old_rest[j + 1]);
                assert(old_rest.map_values(|l: Vec<char>| l@)[j + 1] == old_rest[j + 1]@);
            }
            assert(rest@.map_values(|l: Vec<char>| l@) =~= p.take(n as int).skip(k + 1));
        }
        k = k + 1;
    }
    if cur.len() > 0 {
        r.push(cur);
    }
    r
}

} // verus!
