//! Character-level helpers shared by the grammars of this crate.

use vstd::prelude::*;

verus! {

/// A decimal digit.
pub open spec fn is_digit(c: char) -> bool {
    '0' <= c && c <= '9'
}

/// A blank that may separate the tokens of a line: a space or a tab.
pub open spec fn is_blank(c: char) -> bool {
    c == ' ' || c == '\t'
}

/// An ASCII letter.
pub open spec fn is_letter(c: char) -> bool {
    ('a' <= c && c <= 'z') || ('A' <= c && c <= 'Z')
}

/// An ASCII letter or digit.
pub open spec fn is_alnum(c: char) -> bool {
    is_letter(c) || is_digit(c)
}

/// The value of a decimal digit.
pub open spec fn digit_value(c: char) -> int {
    c as int - '0' as int
}

/// Length of the run of digits that starts at `i`.
pub open spec fn digit_run(s: Seq<char>, i: int) -> int
    decreases s.len() - i,
{
    if 0 <= i < s.len() && is_digit(s[i]) {
        1 + digit_run(s, i + 1)
    } else {
        0
    }
}

/// Length of the run of blanks that starts at `i`.
pub open spec fn blank_run(s: Seq<char>, i: int) -> int
    decreases s.len() - i,
{
    if 0 <= i < s.len() && is_blank(s[i]) {
        1 + blank_run(s, i + 1)
    } else {
        0
    }
}

/// Length of the run of ASCII letters and digits that starts at `i`.
pub open spec fn alnum_run(s: Seq<char>, i: int) -> int
    decreases s.len() - i,
{
    if 0 <= i < s.len() && is_alnum(s[i]) {
        1 + alnum_run(s, i + 1)
    } else {
        0
    }
}

/// The number written in decimal by `s[i..j]`.
pub open spec fn decimal_value(s: Seq<char>, i: int, j: int) -> int
    decreases j - i,
{
    if j <= i {
        0
    } else {
        decimal_value(s, i, j - 1) * 10 + digit_value(s[j - 1])
    }
}

/// Runs do not reach past the end of the sequence.
pub proof fn lemma_runs_in_bounds(s: Seq<char>, i: int)
    requires
        0 <= i <= s.len(),
    ensures
        0 <= digit_run(s, i) <= s.len() - i,
        0 <= blank_run(s, i) <= s.len() - i,
        0 <= alnum_run(s, i) <= s.len() - i,
    decreases s.len() - i,
{
    if i < s.len() {
        lemma_runs_in_bounds(s, i + 1);
    }
}

/// Every character of a run of digits is a digit.
pub proof fn lemma_digit_run_digits(s: Seq<char>, i: int, k: int)
    requires
        0 <= i <= k < i + digit_run(s, i),
    ensures
        is_digit(s[k]),
    decreases k - i,
{
    if k > i {
        lemma_digit_run_digits(s, i + 1, k);
    }
}

/// Reading more digits never makes a number smaller.
pub proof fn lemma_decimal_grows(s: Seq<char>, i: int, k: int, j: int)
    requires
        0 <= i <= k <= j <= s.len(),
        forall|x: int| i <= x < j ==> #[trigger] is_digit(s[x]),
    ensures
        0 <= decimal_value(s, i, k) <= decimal_value(s, i, j),
    decreases j - i,
{
    if j > k {
        lemma_decimal_grows(s, i, k, j - 1);
        assert(is_digit(s[j - 1]));
    } else if k > i {
        lemma_decimal_grows(s, i, k - 1, k - 1);
        assert(is_digit(s[k - 1]));
    }
}

/// End of the run of digits that starts at `i`.
pub fn skip_digits(s: &Vec<char>, i: usize) -> (j: usize)
    requires
        i <= s.len(),
    ensures
        j == i + digit_run(s@, i as int),
        i <= j <= s.len(),
{
    let mut j = i;
    while j < s.len() && '0' <= s[j] && s[j] <= '9'
        invariant
            i <= j <= s.len(),
            digit_run(s@, i as int) == (j - i) + digit_run(s@, j as int),
        decreases s.len() - j,
    {
        j = j + 1;
    }
    j
}

/// End of the run of blanks that starts at `i`.
pub fn skip_blanks(s: &Vec<char>, i: usize) -> (j: usize)
    requires
        i <= s.len(),
    ensures
        j == i + blank_run(s@, i as int),
        i <= j <= s.len(),
{
    let mut j = i;
    while j < s.len() && (s[j] == ' ' || s[j] == '\t')
        invariant
            i <= j <= s.len(),
            blank_run(s@, i as int) == (j - i) + blank_run(s@, j as int),
        decreases s.len() - j,
    {
        j = j + 1;
    }
    j
}

/// End of the run of ASCII letters and digits that starts at `i`.
pub fn skip_alnum(s: &Vec<char>, i: usize) -> (j: usize)
    requires
        i <= s.len(),
    ensures
        j == i + alnum_run(s@, i as int),
        i <= j <= s.len(),
{
    let mut j = i;
    while j < s.len() && (('a' <= s[j] && s[j] <= 'z') || ('A' <= s[j] && s[j] <= 'Z') || (
    '0' <= s[j] && s[j] <= '9'))
        invariant
            i <= j <= s.len(),
            alnum_run(s@, i as int) == (j - i) + alnum_run(s@, j as int),
        decreases s.len() - j,
    {
        j = j + 1;
    }
    j
}

/// The number written by the digits `s[i..j]`, when it is at most `limit`.
pub fn read_number(s: &Vec<char>, i: usize, j: usize, limit: u64) -> (r: Option<u64>)
    requires
        i <= j <= s.len(),
        limit <= u32::MAX,
        forall|x: int| i <= x < j ==> #[trigger] is_digit(s@[x]),
    ensures
        match r {
            Some(v) => v == decimal_value(s@, i as int, j as int) && v <= limit,
            None => decimal_value(s@, i as int, j as int) > limit,
        },
{
    let mut v: u64 = 0;
    let mut k = i;
    while k < j
        invariant
            i <= k <= j <= s.len(),
            limit <= u32::MAX,
            forall|x: int| i <= x < j ==> #[trigger] is_digit(s@[x]),
            v == decimal_value(s@, i as int, k as int),
            v <= limit,
        decreases j - k,
    {
        assert(is_digit(s@[k as int]));
        let d = (s[k] as u32 - '0' as u32) as u64;
        let next = v * 10 + d;
        k = k + 1;
        if next > limit {
            proof {
                lemma_decimal_grows(s@, i as int, k as int, j as int);
            }
            return None;
        }
        v = next;
    }
    Some(v)
}

/// The characters of a string, in order.
pub fn chars_of(s: &str) -> (v: Vec<char>)
    ensures
        v@ == s@,
{
    let mut v: Vec<char> = Vec::new();
    for c in it: s.chars()
        invariant
            it.seq() == s@,
            v@ == it.seq().take(it.index() as int),
    {
        v.push(c);
    }
    v
}

} // verus!
