//! The dice grammar.
//!
//! A roll is written `[count]D<size>` followed by any number of bonus terms
//! `+<n>` or `-<n>`, each preceded by optional blanks. The `D` may be in either
//! case; blanks may also lead and trail the line. The count defaults to 1. The
//! bonus terms are summed into one net bonus, which is kept as a `Bonus` term
//! only when it is not zero. The open grammar reads the same notation without a
//! count and yields one open die.
//!
//! A count is at most `MAX_COUNT`, a size or the magnitude of a bonus term at
//! most `MAX_NUMBER`, and the net bonus must fit in an `isize`; anything else
//! is not a roll.

use vstd::prelude::*;

use crate::dice::{Dice, DiceSet};
use crate::text::{
    blank_run, chars_of, decimal_value, digit_run, is_digit, lemma_digit_run_digits, lemma_runs_in_bounds,
    read_number, skip_blanks, skip_digits,
};

verus! {

/// The largest count of dice that one roll may ask for.
pub const MAX_COUNT: u64 = 255;

/// The largest die size, and the largest magnitude of one bonus term.
pub const MAX_NUMBER: u64 = 4294967295;

/// Text that is not a roll.
#[derive(Clone, Copy, Debug, PartialEq, Eq, Structural)]
pub struct ParseError;

/// The net bonus of the bonus terms from position `i` to the end, if the
/// rest of the line is made of bonus terms and blanks.
pub open spec fn bonus_terms(s: Seq<char>, i: int) -> Option<int>
    decreases s.len() - i,
        when 0 <= i <= s.len()
{
    let k = i + blank_run(s, i);
    if k >= s.len() {
        Some(0)
    } else if s[k] != '+' && s[k] != '-' {
        None
    } else {
        let m = digit_run(s, k + 1);
        let v = decimal_value(s, k + 1, k + 1 + m);
        if m == 0 || v > MAX_NUMBER {
            None
        } else {
            proof {
                lemma_runs_in_bounds(s, i);
                lemma_runs_in_bounds(s, k + 1);
            }
            match bonus_terms(s, k + 1 + m) {
                None => None,
                Some(rest) => Some(
                    if s[k] == '+' {
                        v + rest
                    } else {
                        rest - v
                    },
                ),
            }
        }
    }
}

/// What a line of dice notation says: the count if one is written, the size
/// of the die and the net bonus; `None` when the line is not a roll.
pub open spec fn notation(s: Seq<char>) -> Option<(Option<int>, int, int)> {
    let a = blank_run(s, 0);
    let c = digit_run(s, a);
    let d = a + c;
    let z = digit_run(s, d + 1);
    let e = d + 1 + z;
    if c > 0 && decimal_value(s, a, d) > MAX_COUNT {
        None
    } else if !(d < s.len() && (s[d] == 'd' || s[d] == 'D')) {
        None
    } else if z == 0 || decimal_value(s, d + 1, e) > MAX_NUMBER {
        None
    } else {
        match bonus_terms(s, e) {
            None => None,
            Some(b) => if isize::MIN <= b <= isize::MAX {
                Some(
                    (
                        if c > 0 {
                            Some(decimal_value(s, a, d))
                        } else {
                            None
                        },
                        decimal_value(s, d + 1, e),
                        b,
                    ),
                )
            } else {
                None
            },
        }
    }
}

/// `ds` followed by a bonus term when the net bonus `b` is not zero.
pub open spec fn with_bonus(ds: Seq<Dice>, b: int) -> Seq<Dice> {
    if b == 0 {
        ds
    } else {
        ds.push(Dice::Bonus(b as isize))
    }
}

/// The terms of an ordinary roll written `s`: `count` regular dice, then the bonus.
pub open spec fn regular_roll(s: Seq<char>) -> Option<Seq<Dice>> {
    match notation(s) {
        None => None,
        Some((count, size, b)) => {
            let n = match count {
                Some(n) => n,
                None => 1,
            };
            Some(with_bonus(Seq::new(n as nat, |_i: int| Dice::Regular(size as usize)), b))
        },
    }
}

/// The terms of an open roll written `s`: one open die, then the bonus. A
/// count is not part of this notation.
pub open spec fn open_roll(s: Seq<char>) -> Option<Seq<Dice>> {
    match notation(s) {
        Some((None, size, b)) => Some(with_bonus(seq![Dice::Open(size as usize)], b)),
        _ => None,
    }
}

/// A run of digits ends where the digits end.
proof fn lemma_digit_run_to(s: Seq<char>, i: int, j: int)
    requires
        0 <= i <= j <= s.len(),
        forall|x: int| i <= x < j ==> #[trigger] is_digit(s[x]),
        j == s.len() || !is_digit(s[j]),
    ensures
        digit_run(s, i) == j - i,
    decreases j - i,
{
    if i < j {
        lemma_digit_run_to(s, i + 1, j);
    }
}

/// Two texts that agree on `n` characters write the same number there.
proof fn lemma_decimal_agree(s: Seq<char>, i: int, t: Seq<char>, k: int, n: int)
    requires
        0 <= n,
        forall|x: int| 0 <= x < n ==> #[trigger] s[i + x] == t[k + x],
    ensures
        decimal_value(s, i, i + n) == decimal_value(t, k, k + n),
    decreases n,
{
    if n > 0 {
        lemma_decimal_agree(s, i, t, k, n - 1);
        assert(s[i + (n - 1)] == t[k + (n - 1)]);
    }
}

/// Runs read the same after a prefix.
proof fn lemma_runs_shift(p: Seq<char>, r: Seq<char>, i: int)
    requires
        0 <= i <= r.len(),
    ensures
        digit_run(p + r, p.len() + i) == digit_run(r, i),
        blank_run(p + r, p.len() + i) == blank_run(r, i),
    decreases r.len() - i,
{
    if i < r.len() {
        lemma_runs_shift(p, r, i + 1);
        assert((p + r)[p.len() + i] == r[i]);
    }
}

/// Bonus terms read the same after a prefix.
proof fn lemma_bonus_shift(p: Seq<char>, r: Seq<char>, i: int)
    requires
        0 <= i <= r.len(),
    ensures
        bonus_terms(p + r, p.len() + i) == bonus_terms(r, i),
    decreases r.len() - i,
{
    let s = p + r;
    let o = p.len() as int;
    lemma_runs_shift(p, r, i);
    lemma_runs_in_bounds(r, i);
    let k = i + blank_run(r, i);
    if k < r.len() {
        assert(s[o + k] == r[k]);
        lemma_runs_shift(p, r, k + 1);
        lemma_runs_in_bounds(r, k + 1);
        let m = digit_run(r, k + 1);
        assert forall|x: int| 0 <= x < m implies #[trigger] s[o + k + 1 + x] == r[k + 1 + x] by {}
        lemma_decimal_agree(s, o + k + 1, r, k + 1, m);
        if m > 0 {
            lemma_bonus_shift(p, r, k + 1 + m);
        }
    }
}

/// A written count from 1 to 99, a `D`, a size, and bonus terms whose net is
/// zero (possibly none) give exactly that many regular dice of that size, in
/// order, and no bonus term.
pub proof fn lemma_count_of_dice(c: Seq<char>, z: Seq<char>, t: Seq<char>)
    requires
        c.len() >= 1,
        z.len() >= 1,
        forall|i: int| 0 <= i < c.len() ==> #[trigger] is_digit(c[i]),
        forall|i: int| 0 <= i < z.len() ==> #[trigger] is_digit(z[i]),
        1 <= decimal_value(c, 0, c.len() as int) <= 99,
        decimal_value(z, 0, z.len() as int) <= MAX_NUMBER,
        bonus_terms(t, 0) == Some(0int),
    ensures
        regular_roll(c + seq!['D'] + z + t) == Some(
            Seq::new(
                decimal_value(c, 0, c.len() as int) as nat,
                |_i: int| Dice::Regular(decimal_value(z, 0, z.len() as int) as usize),
            ),
        ),
{
    let p = c + seq!['D'] + z;
    let s = p + t;
    let l = c.len() as int;
    assert(s[0] == c[0]);
    assert(is_digit(c[0]));
    assert(blank_run(s, 0) == 0);
    assert forall|x: int| 0 <= x < l implies #[trigger] is_digit(s[x]) by {
        assert(s[x] == c[x]);
    }
    assert(s[l] == 'D');
    lemma_digit_run_to(s, 0, l);
    assert forall|x: int| l + 1 <= x < p.len() implies #[trigger] is_digit(s[x]) by {
        assert(s[x] == z[x - l - 1]);
    }
    if t.len() > 0 {
        assert(s[p.len() as int] == t[0]);
        assert(!is_digit(t[0])) by {
            if is_digit(t[0]) {
                assert(blank_run(t, 0) == 0);
            }
        }
    }
    lemma_digit_run_to(s, l + 1, p.len() as int);
    assert forall|x: int| 0 <= x < l implies #[trigger] s[0 + x] == c[0 + x] by {}
    lemma_decimal_agree(s, 0, c, 0, l);
    assert forall|x: int| 0 <= x < z.len() implies #[trigger] s[l + 1 + x] == z[0 + x] by {}
    lemma_decimal_agree(s, l + 1, z, 0, z.len() as int);
    lemma_bonus_shift(p, t, 0);
}

/// A roll written without a count reads as the same roll written with a
/// count of 1, whatever follows the `D`.
pub proof fn lemma_count_defaults_to_one(r: Seq<char>)
    ensures
        regular_roll(seq!['D'] + r) == regular_roll(seq!['1', 'D'] + r),
{
    let p1 = seq!['D'];
    let p2 = seq!['1', 'D'];
    let s1 = p1 + r;
    let s2 = p2 + r;
    assert(s1[0] == 'D');
    assert(s2[0] == '1' && s2[1] == 'D');
    assert(blank_run(s1, 0) == 0);
    assert(digit_run(s1, 0) == 0);
    assert(blank_run(s2, 0) == 0);
    assert(digit_run(s2, 1) == 0);
    assert(digit_run(s2, 0) == 1);
    assert(decimal_value(s2, 0, 1) == 1) by {
        assert(decimal_value(s2, 0, 0) == 0);
    }
    lemma_runs_shift(p1, r, 0);
    lemma_runs_shift(p2, r, 0);
    lemma_runs_in_bounds(r, 0);
    let z = digit_run(r, 0);
    assert forall|x: int| 0 <= x < z implies #[trigger] s1[1 + x] == r[0 + x] by {}
    lemma_decimal_agree(s1, 1, r, 0, z);
    assert forall|x: int| 0 <= x < z implies #[trigger] s2[2 + x] == r[0 + x] by {}
    lemma_decimal_agree(s2, 2, r, 0, z);
    lemma_bonus_shift(p1, r, z);
    lemma_bonus_shift(p2, r, z);
}

/// Reads the bonus terms from position `i` to the end of the line.
fn read_bonus(s: &Vec<char>, i: usize) -> (r: Option<i128>)
    requires
        i <= s.len(),
    ensures
        match r {
            Some(b) => bonus_terms(s@, i as int) == Some(b as int),
            None => bonus_terms(s@, i as int) is None,
        },
{
    let mut acc: i128 = 0;
    let mut pos = i;
    loop
        invariant
            i <= pos <= s.len(),
            -(pos as int) * MAX_NUMBER <= acc <= (pos as int) * MAX_NUMBER,
            bonus_terms(s@, i as int) == match bonus_terms(s@, pos as int) {
                Some(t) => Some(acc + t),
                None => None::<int>,
            },
        decreases s.len() - pos,
    {
        let k = skip_blanks(s, pos);
        if k >= s.len() {
            return Some(acc);
        }
        let sign = s[k];
        if sign != '+' && sign != '-' {
            return None;
        }
        let e = skip_digits(s, k + 1);
        if e == k + 1 {
            return None;
        }
        proof {
            assert forall|x: int| k + 1 <= x < e implies #[trigger] is_digit(s@[x]) by {
                lemma_digit_run_digits(s@, k + 1, x);
            }
        }
        let v = match read_number(s, k + 1, e, MAX_NUMBER) {
            Some(v) => v,
            None => {
                return None;
            },
        };
        if sign == '+' {
            acc = acc + v as i128;
        } else {
            acc = acc - v as i128;
        }
        pos = e;
    }
}

/// Reads a line of dice notation.
fn read_notation(s: &Vec<char>) -> (r: Option<(Option<usize>, usize, isize)>)
    ensures
        match r {
            Some((count, size, b)) => notation(s@) == Some(
                (
                    match count {
                        Some(n) => Some(n as int),
                        None => None,
                    },
                    size as int,
                    b as int,
                ),
            ),
            None => notation(s@) is None,
        },
{
    let a = skip_blanks(s, 0);
    let d = skip_digits(s, a);
    proof {
        assert forall|x: int| a <= x < d implies #[trigger] is_digit(s@[x]) by {
            lemma_digit_run_digits(s@, a as int, x);
        }
    }
    let count = if d > a {
        match read_number(s, a, d, MAX_COUNT) {
            Some(n) => Some(n as usize),
            None => {
                return None;
            },
        }
    } else {
        None
    };
    if !(d < s.len() && (s[d] == 'd' || s[d] == 'D')) {
        return None;
    }
    let e = skip_digits(s, d + 1);
    if e == d + 1 {
        return None;
    }
    proof {
        assert forall|x: int| d + 1 <= x < e implies #[trigger] is_digit(s@[x]) by {
            lemma_digit_run_digits(s@, d + 1, x);
        }
    }
    let size = match read_number(s, d + 1, e, MAX_NUMBER) {
        Some(v) => v as usize,
        None => {
            return None;
        },
    };
    let b = match read_bonus(s, e) {
        Some(b) => b,
        None => {
            return None;
        },
    };
    if b < isize::MIN as i128 || b > isize::MAX as i128 {
        return None;
    }
    Some((count, size, b as isize))
}

/// Appends the net bonus to `v` when it is not zero.
fn push_bonus(v: &mut Vec<Dice>, b: isize)
    ensures
        final(v)@ == with_bonus(old(v)@, b as int),
{
    if b != 0 {
        v.push(Dice::Bonus(b));
    }
}

/// Parses an ordinary roll, `[count]D<size>` and bonus terms, into its terms.
pub fn parse_with_bonus(input: &str) -> (r: Result<DiceSet, ParseError>)
    ensures
        match r {
            Ok(ds) => regular_roll(input@) == Some(ds@),
            Err(_) => regular_roll(input@) is None,
        },
{
    let s = chars_of(input);
    match read_notation(&s) {
        None => Err(ParseError),
        Some((count, size, b)) => {
            let n = match count {
                Some(n) => n,
                None => 1,
            };
            let mut v: Vec<Dice> = Vec::new();
            let mut k: usize = 0;
            while k < n
                invariant
                    k <= n,
                    v@ == Seq::new(k as nat, |_i: int| Dice::Regular(size)),
                decreases n - k,
            {
                v.push(Dice::Regular(size));
                k = k + 1;
                assert(v@ =~= Seq::new(k as nat, |_i: int| Dice::Regular(size)));
            }
            push_bonus(&mut v, b);
            Ok(DiceSet::from_vec(v))
        },
    }
}

/// Parses an open roll, `D<size>` and bonus terms, into one open die and the bonus.
pub fn parse_open_bonus(input: &str) -> (r: Result<DiceSet, ParseError>)
    ensures
        match r {
            Ok(ds) => open_roll(input@) == Some(ds@),
            Err(_) => open_roll(input@) is None,
        },
{
    let s = chars_of(input);
    match read_notation(&s) {
        Some((None, size, b)) => {
            let mut v: Vec<Dice> = Vec::new();
            v.push(Dice::Open(size));
            push_bonus(&mut v, b);
            Ok(DiceSet::from_vec(v))
        },
        _ => Err(ParseError),
    }
}

impl DiceSet {
    /// Parses a string of the form `[count]D<size>[ +<n>| -<n>]*` into
    /// `count` regular dice followed by the net bonus.
    pub fn parse(s: &str) -> (r: Result<Self, ParseError>)
        ensures
            match r {
                Ok(ds) => regular_roll(s@) == Some(ds@),
                Err(_) => regular_roll(s@) is None,
            },
    {
        parse_with_bonus(s)
    }
}

} // verus!
