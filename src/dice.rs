//! Dice and sets of dice.
//!
//! There are four kinds of terms:
//!
//! - `Constant(n)` always yields `n`;
//! - `Regular(n)` yields a value between 1 and `n`;
//! - `Open(n)` is a regular die that is rolled again each time it shows `n`;
//! - `Bonus(b)` carries a bonus (or a malus) along with the dice.

use vstd::prelude::*;

use crate::random::rng_roll;
use crate::result::{seq_sum, Res, Special};

verus! {

/// The most draws one roll of an open die makes. Each draw past the first
/// comes only after the largest face, so a run this long has a chance of at
/// most one in `2^MAX_OPEN_DRAWS`; when it happens the run ends there.
pub const MAX_OPEN_DRAWS: usize = 1000;

/// One term of a roll.
#[derive(Clone, Copy, Debug, PartialEq, Eq, Structural)]
pub enum Dice {
    /// Always yields the same value
    Constant(usize),
    /// Rolled again each time it shows its largest face
    Open(usize),
    /// An ordinary die
    Regular(usize),
    /// A bonus or malus, kept apart from the dice
    Bonus(isize),
}

/// The size of a term: its number of faces, its value for a constant, 0 for a bonus.
pub open spec fn spec_size(d: Dice) -> int {
    match d {
        Dice::Constant(s) | Dice::Regular(s) | Dice::Open(s) => s as int,
        Dice::Bonus(_) => 0,
    }
}

/// An ordered sequence of terms, rolled and combined together.
#[derive(Clone, Debug, PartialEq)]
pub struct DiceSet(Vec<Dice>);

impl View for DiceSet {
    type V = Seq<Dice>;

    closed spec fn view(&self) -> Seq<Dice> {
        self.0@
    }
}

impl Dice {
    /// Returns the size of a die (0 for a bonus).
    pub fn size(self) -> (r: usize)
        ensures
            r == spec_size(self),
    {
        match self {
            Dice::Constant(s) | Dice::Regular(s) | Dice::Open(s) => s,
            Dice::Bonus(_) => 0,
        }
    }
}

impl DiceSet {
    /// Creates a set from its terms.
    pub fn from_vec(v: Vec<Dice>) -> (r: Self)
        ensures
            r@ == v@,
    {
        DiceSet(v)
    }

    /// Adds a term at the end of the set.
    pub fn add(&mut self, d: Dice) -> (r: &mut Self)
        ensures
            r@ == old(self)@.push(d),
            *final(self) == *final(r),
    {
        self.0.push(d);
        self
    }

    /// Whether the set can be rolled: every regular die has a face, every open
    /// die two, and the largest totals fit in an `isize`.
    pub fn is_rollable(&self) -> (b: bool)
        ensures
            b == set_rollable(self@),
    {
        let mut acc: u128 = 0;
        let mut i: usize = 0;
        while i < self.0.len()
            invariant
                i <= self@.len(),
                acc == total_reach(self@.take(i as int)),
                acc <= isize::MAX,
                forall|k: int| 0 <= k < i ==> rollable(#[trigger] self@[k]),
            decreases self@.len() - i,
        {
            let d = self.0[i];
            assert(self@.take(i + 1).drop_last() =~= self@.take(i as int));
            proof {
                lemma_prefix_reach(self@, i + 1);
            }
            let faces_ok = match d {
                Dice::Regular(n) => n >= 1,
                Dice::Open(n) => n >= 2,
                _ => true,
            };
            let r = reach_of(d);
            if !faces_ok || r > isize::MAX as u128 {
                return false;
            }
            acc = acc + r;
            if acc > isize::MAX as u128 {
                return false;
            }
            i = i + 1;
        }
        assert(self@.take(i as int) =~= self@);
        true
    }

    /// The number of terms.
    pub fn len(&self) -> (r: usize)
        ensures
            r == self@.len(),
    {
        self.0.len()
    }

    /// The term at position `i`.
    pub fn get(&self, i: usize) -> (d: Dice)
        requires
            i < self@.len(),
        ensures
            d == self@[i as int],
    {
        self.0[i]
    }
}

/// The draws of one roll of an open die of size `n`: each lies in `1..=n`,
/// every draw but the last shows `n`, and the last is below `n` unless the
/// run was cut at `MAX_OPEN_DRAWS` draws.
pub open spec fn exploded(p: Seq<usize>, n: int) -> bool {
    &&& 1 <= p.len() <= MAX_OPEN_DRAWS
    &&& forall|i: int| 0 <= i < p.len() ==> 1 <= #[trigger] p[i] <= n
    &&& forall|i: int| 0 <= i < p.len() - 1 ==> #[trigger] p[i] == n
    &&& p.len() < MAX_OPEN_DRAWS ==> p.last() < n
}

/// The largest magnitude a term can add to a total or to a bonus.
pub open spec fn reach(d: Dice) -> int {
    match d {
        Dice::Constant(n) | Dice::Regular(n) => n as int,
        Dice::Open(n) => MAX_OPEN_DRAWS * n,
        Dice::Bonus(b) => if b < 0 {
            -b
        } else {
            b as int
        },
    }
}

/// A term that can be rolled: a regular die has at least one face, an open
/// die at least two (with one it would explode for ever), and what the term
/// adds fits in an `isize`.
pub open spec fn rollable(d: Dice) -> bool {
    &&& match d {
        Dice::Regular(n) => n >= 1,
        Dice::Open(n) => n >= 2,
        _ => true,
    }
    &&& reach(d) <= isize::MAX
}

/// The sum of the reaches of the terms.
pub open spec fn total_reach(s: Seq<Dice>) -> int
    decreases s.len(),
{
    if s.len() == 0 {
        0
    } else {
        total_reach(s.drop_last()) + reach(s.last())
    }
}

/// A set whose terms can all be rolled and whose totals fit in an `isize`.
pub open spec fn set_rollable(s: Seq<Dice>) -> bool {
    &&& forall|i: int| 0 <= i < s.len() ==> rollable(#[trigger] s[i])
    &&& total_reach(s) <= isize::MAX
}

/// What rolling the single term `d` may give.
///
/// A constant appends its value; a regular die appends one draw and marks a
/// fumble on 1, a natural otherwise; an open die appends its exploding run; a
/// bonus goes to the bonus only.
pub open spec fn single_outcome(d: Dice, r: Res) -> bool {
    match d {
        Dice::Constant(n) => r.list@ == seq![n] && r.sum == n && r.bonus == 0 && r.flag
            == Special::Plain,
        Dice::Regular(n) => {
            &&& r.list@.len() == 1
            &&& 1 <= r.list@[0] <= n
            &&& r.sum == r.list@[0]
            &&& r.bonus == 0
            &&& r.flag == if r.list@[0] == 1 {
                Special::Fumble
            } else {
                Special::Natural
            }
        },
        Dice::Open(n) => exploded(r.list@, n as int) && r.sum == seq_sum(r.list@) && r.bonus == 0
            && r.flag == Special::Plain,
        Dice::Bonus(b) => r.list@.len() == 0 && r.sum == 0 && r.bonus == b && r.flag
            == Special::Plain,
    }
}

/// The draws that term `d` of a set may add to the draws of the set: none for
/// a constant or a bonus, one face for a regular die, the exploding run of an
/// open die.
pub open spec fn term_draws(d: Dice, p: Seq<usize>) -> bool {
    match d {
        Dice::Constant(_) | Dice::Bonus(_) => p.len() == 0,
        Dice::Regular(n) => p.len() == 1 && 1 <= p[0] <= n,
        Dice::Open(n) => exploded(p, n as int),
    }
}

/// What term `d` adds to the total of a set when it draws `p`: its value for a
/// constant, nothing for a bonus, the sum of the draws otherwise.
pub open spec fn term_total(d: Dice, p: Seq<usize>) -> int {
    match d {
        Dice::Constant(n) => n as int,
        Dice::Bonus(_) => 0,
        _ => seq_sum(p),
    }
}

/// What term `d` adds to the bonus of a set.
pub open spec fn term_bonus(d: Dice) -> int {
    match d {
        Dice::Bonus(b) => b as int,
        _ => 0,
    }
}

/// The draws of all terms, one after the other.
pub open spec fn joined(parts: Seq<Seq<usize>>) -> Seq<usize>
    decreases parts.len(),
{
    if parts.len() == 0 {
        Seq::empty()
    } else {
        joined(parts.drop_last()) + parts.last()
    }
}

/// The total of a set whose terms `ds` drew `parts`.
pub open spec fn set_total(ds: Seq<Dice>, parts: Seq<Seq<usize>>) -> int
    decreases ds.len(),
{
    if ds.len() == 0 || parts.len() == 0 {
        0
    } else {
        set_total(ds.drop_last(), parts.drop_last()) + term_total(ds.last(), parts.last())
    }
}

/// The net bonus of a set.
pub open spec fn set_bonus(ds: Seq<Dice>) -> int
    decreases ds.len(),
{
    if ds.len() == 0 {
        0
    } else {
        set_bonus(ds.drop_last()) + term_bonus(ds.last())
    }
}

/// `r` is what rolling the set `ds` gives when its term `i` draws `parts[i]`:
/// the draws in term order, the total of draws and constants, the net bonus,
/// and no flag.
pub open spec fn set_outcome(ds: Seq<Dice>, parts: Seq<Seq<usize>>, r: Res) -> bool {
    &&& parts.len() == ds.len()
    &&& forall|i: int| 0 <= i < ds.len() ==> term_draws(#[trigger] ds[i], parts[i])
    &&& r.list@ == joined(parts)
    &&& r.sum == set_total(ds, parts)
    &&& r.bonus == set_bonus(ds)
    &&& r.flag == Special::Plain
}

/// Something that can be rolled.
pub trait Rollable {
    /// Whether it can be rolled.
    spec fn can_roll(&self) -> bool;

    /// Whether `r` is a possible result of a roll.
    spec fn outcome(&self, r: Res) -> bool;

    /// Rolls it.
    fn roll(&self) -> (r: Res)
        requires
            self.can_roll(),
        ensures
            self.outcome(r),
    ;
}

/// The sum of draws that all lie in `1..=n` is at most their number times `n`.
proof fn lemma_sum_bounded(p: Seq<usize>, n: int)
    requires
        forall|i: int| 0 <= i < p.len() ==> #[trigger] p[i] <= n,
    ensures
        0 <= seq_sum(p) <= p.len() * n,
    decreases p.len(),
{
    if p.len() > 0 {
        lemma_sum_bounded(p.drop_last(), n);
        assert(p[p.len() - 1] <= n);
        assert((p.len() - 1) * n + n == p.len() * n) by (nonlinear_arith);
    }
}

/// The reach of a prefix is at most the reach of the whole set.
proof fn lemma_prefix_reach(s: Seq<Dice>, i: int)
    requires
        0 <= i <= s.len(),
    ensures
        0 <= total_reach(s.take(i)) <= total_reach(s),
    decreases s.len(),
{
    if s.len() > 0 {
        if i == s.len() {
            assert(s.take(i) =~= s);
            lemma_prefix_reach(s.drop_last(), i - 1);
            assert(s.drop_last().take(i - 1) =~= s.take(i - 1));
        } else {
            lemma_prefix_reach(s.drop_last(), i);
            assert(s.drop_last().take(i) =~= s.take(i));
        }
    }
}

/// Rolls an open die of size `n`: draws until a face below `n` shows, or
/// until `MAX_OPEN_DRAWS` draws were made. Returns the draws and their sum.
pub fn open_draws(n: usize) -> (out: (Vec<usize>, isize))
    requires
        2 <= n,
        MAX_OPEN_DRAWS * n <= isize::MAX,
    ensures
        exploded(out.0@, n as int),
        out.1 == seq_sum(out.0@),
{
    let mut v: Vec<usize> = Vec::new();
    let mut total: isize = 0;
    loop
        invariant
            2 <= n,
            MAX_OPEN_DRAWS * n <= isize::MAX,
            v.len() < MAX_OPEN_DRAWS,
            forall|i: int| 0 <= i < v.len() ==> #[trigger] v@[i] == n,
            total == seq_sum(v@),
            total == v.len() * n,
        decreases MAX_OPEN_DRAWS - v.len(),
    {
        let x = rng_roll(n);
        assert(total + x <= (v.len() + 1) * n) by (nonlinear_arith)
            requires
                total == v.len() * n,
                x <= n,
        ;
        assert((v.len() + 1) * n <= MAX_OPEN_DRAWS * n) by (nonlinear_arith)
            requires
                v.len() + 1 <= MAX_OPEN_DRAWS,
                n >= 0,
        ;
        let ghost before = v@;
        v.push(x);
        assert(v@.drop_last() =~= before);
        total = total + x as isize;
        if x != n || v.len() == MAX_OPEN_DRAWS {
            return (v, total);
        }
        assert((v.len() - 1) * n + n == v.len() * n) by (nonlinear_arith);
    }
}

/// The draws a term adds to a set, and what it adds to the total.
fn draw_term(d: Dice) -> (out: (Vec<usize>, isize))
    requires
        rollable(d),
    ensures
        term_draws(d, out.0@),
        out.1 == term_total(d, out.0@),
        0 <= out.1 <= reach(d),
{
    match d {
        Dice::Constant(n) => (Vec::new(), n as isize),
        Dice::Bonus(_) => (Vec::new(), 0),
        Dice::Regular(n) => {
            let x = rng_roll(n);
            let mut v: Vec<usize> = Vec::new();
            v.push(x);
            assert(v@.drop_last() =~= Seq::<usize>::empty());
            assert(seq_sum(v@.drop_last()) == 0);
            assert(v@.last() == x);
            assert(seq_sum(v@) == x);
            (v, x as isize)
        },
        Dice::Open(n) => {
            let (v, t) = open_draws(n);
            proof {
                lemma_sum_bounded(v@, n as int);
                assert(v.len() * n <= MAX_OPEN_DRAWS * n) by (nonlinear_arith)
                    requires
                        v.len() <= MAX_OPEN_DRAWS,
                        n >= 0,
                ;
            }
            (v, t)
        },
    }
}

/// The reach of a term, computed.
fn reach_of(d: Dice) -> (r: u128)
    ensures
        r == reach(d),
{
    match d {
        Dice::Constant(n) | Dice::Regular(n) => n as u128,
        Dice::Open(n) => {
            assert(MAX_OPEN_DRAWS * n <= MAX_OPEN_DRAWS * 0xffff_ffff_ffff_ffff) by (nonlinear_arith)
                requires
                    n as int <= 0xffff_ffff_ffff_ffff,
            ;
            MAX_OPEN_DRAWS as u128 * n as u128
        },
        Dice::Bonus(b) => if b < 0 {
            (-(b as i128)) as u128
        } else {
            b as u128
        },
    }
}

/// Whether a die has a size found on the table: 4, 6, 8, 10, 12, 20 or 100 faces.
pub fn is_valid(s: usize) -> (r: Result<bool, String>)
    ensures
        r is Ok <==> (s == 4 || s == 6 || s == 8 || s == 10 || s == 12 || s == 20 || s == 100),
        r matches Ok(b) ==> b,
{
    if s == 4 || s == 6 || s == 8 || s == 10 || s == 12 || s == 20 || s == 100 {
        Ok(true)
    } else {
        Err(String::from_str("unknown dice"))
    }
}

impl Rollable for Dice {
    /// Any bonus can be rolled alone; a die as `rollable` says.
    open spec fn can_roll(&self) -> bool {
        match *self {
            Dice::Bonus(_) => true,
            _ => rollable(*self),
        }
    }

    open spec fn outcome(&self, r: Res) -> bool {
        single_outcome(*self, r)
    }

    /// Rolls one term.
    fn roll(&self) -> (r: Res) {
        match *self {
            Dice::Constant(s) => {
                let mut r = Res::new();
                r.append(s);
                r
            },
            Dice::Regular(s) => {
                let x = rng_roll(s);
                let mut r = Res::new();
                r.append(x);
                r.flag = if x == 1 {
                    Special::Fumble
                } else {
                    Special::Natural
                };
                r
            },
            Dice::Open(s) => {
                let (v, total) = open_draws(s);
                Res { list: v, sum: total, bonus: 0, flag: Special::Plain }
            },
            Dice::Bonus(b) => {
                let mut r = Res::new();
                r.bonus = b;
                r
            },
        }
    }
}

impl Rollable for DiceSet {
    open spec fn can_roll(&self) -> bool {
        set_rollable(self@)
    }

    open spec fn outcome(&self, r: Res) -> bool {
        exists|parts: Seq<Seq<usize>>| set_outcome(self@, parts, r)
    }

    /// Rolls every term in order and combines the results: the draws are
    /// joined, constants count in the total only, bonus terms in the bonus only.
    fn roll(&self) -> (r: Res) {
        let mut r = Res::new();
        let ghost mut parts: Seq<Seq<usize>> = Seq::empty();
        let mut i: usize = 0;
        while i < self.0.len()
            invariant
                i <= self@.len(),
                set_rollable(self@),
                set_outcome(self@.take(i as int), parts, r),
                0 <= r.sum <= total_reach(self@.take(i as int)),
                -total_reach(self@.take(i as int)) <= r.bonus <= total_reach(self@.take(i as int)),
            decreases self@.len() - i,
        {
            let d = self.0[i];
            assert(d == self@[i as int]);
            let ghost before = self@.take(i as int);
            let ghost after = self@.take(i + 1);
            assert(after.drop_last() =~= before);
            assert(after.last() == d);
            proof {
                lemma_prefix_reach(self@, i + 1);
            }
            let (mut v, t) = draw_term(d);
            let ghost part = v@;
            let ghost old_list = r.list@;
            r.list.append(&mut v);
            r.sum = r.sum + t;
            if let Dice::Bonus(b) = d {
                r.bonus = r.bonus + b;
            }
            proof {
                let new_parts = parts.push(part);
                assert(new_parts.drop_last() =~= parts);
                assert forall|k: int| 0 <= k < after.len() implies term_draws(
                    #[trigger] after[k],
                    new_parts[k],
                ) by {
                    if k < before.len() {
                        assert(after[k] == before[k]);
                    }
                }
                parts = new_parts;
            }
            i = i + 1;
        }
        assert(self@.take(i as int) =~= self@);
        r
    }
}

} // verus!
