//! Random draws.

use rand::Rng;
use vstd::prelude::*;

verus! {

/// Draws a face of a die with `sides` faces, every face being equally likely.
///
/// Relies on rand's `Rng::gen_range` over `1..=sides` on the thread's
/// generator: the value lies in the range, which is not empty here.
#[verifier::external_body]
pub fn rng_roll(sides: usize) -> (r: usize)
    requires
        sides >= 1,
    ensures
        1 <= r <= sides,
{
    rand::thread_rng().gen_range(1..=sides)
}

/// Relies on rand's `Rng::gen_ratio(1, denominator)` on the thread's
/// generator: true with a chance of one in `denominator`, and always true
/// when `denominator` is 1.
#[verifier::external_body]
fn one_chance_in(denominator: u32) -> (r: bool)
    requires
        denominator >= 1,
    ensures
        denominator == 1 ==> r,
{
    rand::thread_rng().gen_ratio(1, denominator)
}

/// The face picked by a walk over the faces: one more than the position of
/// the first draw that kept its face.
pub open spec fn first_kept(kept: Seq<bool>) -> int
    decreases kept.len(),
{
    if kept.len() == 0 || kept[0] {
        1
    } else {
        1 + first_kept(kept.drop_first())
    }
}

/// The face picked by the draws `kept`, the last of which keeps its face.
pub fn face_from_draws(kept: &Vec<bool>) -> (r: usize)
    requires
        kept@.len() >= 1,
        kept@.last(),
    ensures
        r == first_kept(kept@),
        1 <= r <= kept@.len(),
{
    let mut i: usize = 0;
    assert(kept@.skip(0) =~= kept@);
    while !kept[i]
        invariant
            i < kept.len(),
            kept@.len() >= 1,
            kept@.last(),
            first_kept(kept@) == i + first_kept(kept@.skip(i as int)),
        decreases kept@.len() - i,
    {
        assert(kept@.skip(i as int).drop_first() =~= kept@.skip(i + 1));
        assert(i != kept@.len() - 1);
        i = i + 1;
    }
    assert(kept@.skip(i as int)[0] == kept@[i as int]);
    i + 1
}

/// Draws a face of a die with `sides` faces by walking the faces in turn:
/// face `i + 1` is kept with a chance of one in `sides - i`, so that every
/// face is about equally likely (as far as rand's `gen_ratio` is exact), and
/// the last face is always kept when reached. The draws are made until one
/// keeps its face, and the face is the one `face_from_draws` picks.
pub fn internal_roll(sides: usize) -> (r: usize)
    requires
        1 <= sides <= u32::MAX,
    ensures
        1 <= r <= sides,
{
    let mut kept: Vec<bool> = Vec::new();
    loop
        invariant
            kept@.len() < sides,
            sides <= u32::MAX,
            forall|j: int| 0 <= j < kept@.len() ==> !#[trigger] kept@[j],
        decreases sides - kept@.len(),
    {
        let i = kept.len();
        let k = one_chance_in((sides - i) as u32);
        kept.push(k);
        if k {
            return face_from_draws(&kept);
        }
    }
}

} // verus!
