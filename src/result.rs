//! The result of a roll: the individual draws, their total and the bonus.

use vstd::prelude::*;

verus! {

/// A mark on the roll of a single die.
#[derive(Clone, Copy, Debug, PartialEq, Eq, Structural)]
pub enum Special {
    /// Nothing special, or more than one die took part
    Plain,
    /// The die showed its smallest face
    Fumble,
    /// The die showed any other face
    Natural,
}

/// All the draws of a roll, with their total and the bonus.
#[derive(Clone, Debug, PartialEq, Eq)]
pub struct Res {
    /// Every draw, in order (bonus terms excluded)
    pub list: Vec<usize>,
    /// Total of the draws and of the constants
    pub sum: isize,
    /// Net bonus or malus, reported apart
    pub bonus: isize,
    /// Meaningful only when a single die was rolled
    pub flag: Special,
}

/// The sum of a sequence of draws.
pub open spec fn seq_sum(s: Seq<usize>) -> int
    decreases s.len(),
{
    if s.len() == 0 {
        0
    } else {
        seq_sum(s.drop_last()) + s.last()
    }
}

impl Res {
    /// An empty result.
    pub fn new() -> (r: Res)
        ensures
            r.list@ == Seq::<usize>::empty(),
            r.sum == 0,
            r.bonus == 0,
            r.flag == Special::Plain,
    {
        Res { list: Vec::new(), sum: 0, bonus: 0, flag: Special::Plain }
    }

    /// Adds one draw.
    pub fn append(&mut self, v: usize) -> (r: &mut Self)
        requires
            v <= isize::MAX,
            old(self).sum + v <= isize::MAX,
        ensures
            r.list@ == old(self).list@.push(v),
            r.sum == old(self).sum + v,
            r.bonus == old(self).bonus,
            r.flag == old(self).flag,
            *final(self) == *final(r),
    {
        self.list.push(v);
        self.sum = self.sum + v as isize;
        self
    }

    /// Moves the draws of `r` after those of `self` and adds up the totals;
    /// `r` is left without draws. The flag no longer means anything and is reset.
    pub fn merge(&mut self, r: &mut Res) -> (m: &mut Self)
        requires
            isize::MIN <= old(self).sum + old(r).sum <= isize::MAX,
            isize::MIN <= old(self).bonus + old(r).bonus <= isize::MAX,
        ensures
            m.list@ == old(self).list@ + old(r).list@,
            m.sum == old(self).sum + old(r).sum,
            m.bonus == old(self).bonus + old(r).bonus,
            m.flag == Special::Plain,
            final(r).list@ == Seq::<usize>::empty(),
            final(r).sum == old(r).sum,
            final(r).bonus == old(r).bonus,
            final(r).flag == old(r).flag,
            *final(self) == *final(m),
    {
        self.list.append(&mut r.list);
        self.sum = self.sum + r.sum;
        self.bonus = self.bonus + r.bonus;
        self.flag = Special::Plain;
        self
    }

    /// Whether a single die was rolled and did not fumble.
    pub fn natural(&self) -> (b: bool)
        ensures
            b == (self.list@.len() == 1 && self.flag == Special::Natural),
    {
        self.list.len() == 1 && self.flag == Special::Natural
    }
}

impl Default for Res {
    fn default() -> (r: Self)
        ensures
            r.list@ == Seq::<usize>::empty(),
            r.sum == 0,
            r.bonus == 0,
            r.flag == Special::Plain,
    {
        Res::new()
    }
}

impl core::ops::Add for Res {
    type Output = Res;

    /// Combines two results as `merge` does.
    fn add(self, rhs: Res) -> (r: Res)
        ensures
            r.list@ == self.list@ + rhs.list@,
            r.sum == self.sum + rhs.sum,
            r.bonus == self.bonus + rhs.bonus,
            r.flag == Special::Plain,
    {
        let mut a = self;
        let mut b = rhs;
        a.merge(&mut b);
        a
    }
}

impl vstd::std_specs::ops::AddSpecImpl for Res {
    open spec fn obeys_add_spec() -> bool {
        false
    }

    /// The totals of both results fit together in an `isize`.
    open spec fn add_req(self, rhs: Res) -> bool {
        &&& isize::MIN <= self.sum + rhs.sum <= isize::MAX
        &&& isize::MIN <= self.bonus + rhs.bonus <= isize::MAX
    }

    /// Unused: `obeys_add_spec` is false, and the contract of `add` says
    /// what the sum is.
    open spec fn add_spec(self, rhs: Res) -> Res {
        self
    }
}

} // verus!
