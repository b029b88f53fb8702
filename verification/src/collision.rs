//! Catch detection against the basket, and score accumulation.

use vstd::prelude::*;
use vstd::seq_lib::{commutative_foldr, lemma_fold_right_permutation};
use crate::basket::Basket;
use crate::objects::{FallingObject, FallingObjectKind};
use crate::{BANANA_HEIGHT, BASKET_WIDTH};

verus! {

/// The running point total. Initialised to zero at session start and
/// only ever increased, by catches.
pub struct Score {
    pub value: u32,
}

impl Default for Score {
    /// A session starts with no points.
    fn default() -> (s: Score)
        ensures
            s.value == 0,
    {
        Score { value: 0 }
    }
}

/// Collision radius of a falling object: half its sprite height. The
/// radius is deliberately the same constant for both kinds, even though
/// the sprites differ in size.
pub open spec fn object_radius(kind: FallingObjectKind) -> int {
    match kind {
        FallingObjectKind::Banana => BANANA_HEIGHT as int / 2,
        FallingObjectKind::BananaBunch => BANANA_HEIGHT as int / 2,
    }
}

/// A catch is a circle-overlap test: the Euclidean distance between
/// object and basket is strictly below the sum of their radii. Stated
/// over squares, which is equivalent and exact in integers.
pub open spec fn caught(o: FallingObject, b: Basket) -> bool {
    let dx = o.x - b.x;
    let dy = o.y - b.y;
    let reach = BASKET_WIDTH as int / 2 + object_radius(o.kind);
    dx * dx + dy * dy < reach * reach
}

/// Decide the circle-overlap test for one object.
pub fn is_caught(o: &FallingObject, b: &Basket) -> (r: bool)
    requires
        o.wf(),
        b.wf(),
    ensures
        r == caught(*o, *b),
{
    let dx: i128 = o.x as i128 - b.x as i128;
    let dy: i128 = o.y as i128 - b.y as i128;
    let reach: i128 = (BASKET_WIDTH / 2 + BANANA_HEIGHT / 2) as i128;
    proof {
        assert(dx * dx <= 4_000_000_000_000_000_000) by (nonlinear_arith)
            requires -2_000_000_000 <= dx <= 2_000_000_000,
        ;
        assert(dy * dy <= 4_000_000_000_000_000_000) by (nonlinear_arith)
            requires -2_000_000_000 <= dy <= 2_000_000_000,
        ;
        assert(dx * dx >= 0) by (nonlinear_arith);
        assert(dy * dy >= 0) by (nonlinear_arith);
        assert(reach * reach == 9_801_000_000) by (nonlinear_arith)
            requires reach == 99_000,
        ;
    }
    dx * dx + dy * dy < reach * reach
}

/// Sum of the point values of a sequence of objects.
pub open spec fn points_sum(s: Seq<FallingObject>) -> int
    decreases s.len(),
{
    if s.len() == 0 {
        0
    } else {
        points_sum(s.drop_last()) + s.last().points
    }
}

/// A sum of point values is never negative.
pub proof fn lemma_points_sum_nonneg(s: Seq<FallingObject>)
    ensures
        points_sum(s) >= 0,
    decreases s.len(),
{
    if s.len() > 0 {
        lemma_points_sum_nonneg(s.drop_last());
    }
}

/// Summing point values is a fold of integer addition.
proof fn lemma_points_sum_as_fold(s: Seq<FallingObject>, v: int)
    ensures
        s.fold_right(|o: FallingObject, acc: int| acc + o.points, v) == points_sum(s) + v,
    decreases s.len(),
{
    if s.len() > 0 {
        let f = |o: FallingObject, acc: int| acc + o.points;
        lemma_points_sum_as_fold(s.drop_last(), f(s.last(), v));
    }
}

/// Order of summation does not matter: the points a set of caught
/// objects awards depend only on which objects they are, not on the
/// order a pass visits them.
pub proof fn lemma_points_sum_permutation(s1: Seq<FallingObject>, s2: Seq<FallingObject>)
    requires
        s1.to_multiset() == s2.to_multiset(),
    ensures
        points_sum(s1) == points_sum(s2),
{
    let f = |o: FallingObject, acc: int| acc + o.points;
    assert(commutative_foldr(f)) by {
        assert forall|x: FallingObject, y: FallingObject, v: int|
            #[trigger] f(x, f(y, v)) == f(y, f(x, v)) by {}
    }
    lemma_points_sum_as_fold(s1, 0);
    lemma_points_sum_as_fold(s2, 0);
    lemma_fold_right_permutation(s1, s2, f, 0);
}

/// Addition on the score counter, capped at the counter's machine
/// ceiling.
pub open spec fn sat_add_u32(v: int, p: int) -> int {
    if v + p > u32::MAX {
        u32::MAX as int
    } else {
        v + p
    }
}

/// The objects that survive the catch pass against the given basket.
pub open spec fn catch_survivors(s: Seq<FallingObject>, b: Basket) -> Seq<FallingObject> {
    s.filter(|o: FallingObject| !caught(o, b))
}

/// The points awarded by the catch pass: the summed values of every
/// caught object, an order-independent total taken in a single pass.
pub open spec fn caught_points(s: Seq<FallingObject>, b: Basket) -> int {
    points_sum(s.filter(|o: FallingObject| caught(o, b)))
}

/// Resolve catches for one frame: every live object whose distance to
/// the basket is below the overlap threshold is removed and its points
/// are added to the score; all other objects survive in order. With no
/// basket present the frame is a no-op for objects and score alike.
pub fn falling_object_hit_basket(
    objects: &mut Vec<FallingObject>,
    basket: Option<&Basket>,
    score: &mut Score,
)
    requires
        forall|i: int| 0 <= i < old(objects)@.len() ==> (#[trigger] old(objects)@[i]).wf(),
        basket is Some ==> basket->Some_0.wf(),
    ensures
        match basket {
            None => {
                &&& *final(objects) == *old(objects)
                &&& *final(score) == *old(score)
            },
            Some(b) => {
                &&& final(objects)@ == catch_survivors(old(objects)@, *b)
                &&& final(score).value ==
                    sat_add_u32(old(score).value as int, caught_points(old(objects)@, *b))
            },
        },
        final(score).value >= old(score).value,
        forall|i: int| 0 <= i < final(objects)@.len() ==> (#[trigger] final(objects)@[i]).wf(),
{
    proof {
        if let Some(b) = basket {
            lemma_points_sum_nonneg(old(objects)@.filter(|o: FallingObject| caught(o, *b)));
        }
    }
    if let Some(b) = basket {
        let ghost keep = |o: FallingObject| !caught(o, *b);
        let ghost hit = |o: FallingObject| caught(o, *b);
        let ghost v0 = score.value as int;
        let mut kept: Vec<FallingObject> = Vec::new();
        let mut idx: usize = 0;
        proof {
            assert(objects@.take(0).filter(keep) =~= Seq::<FallingObject>::empty());
            assert(objects@.take(0).filter(hit) =~= Seq::<FallingObject>::empty());
        }
        while idx < objects.len()
            invariant
                keep == (|o: FallingObject| !caught(o, *b)),
                hit == (|o: FallingObject| caught(o, *b)),
                forall|i: int| 0 <= i < objects@.len() ==> (#[trigger] objects@[i]).wf(),
                b.wf(),
                idx <= objects@.len(),
                kept@ == objects@.take(idx as int).filter(keep),
                forall|i: int| 0 <= i < kept@.len() ==> (#[trigger] kept@[i]).wf(),
                score.value == sat_add_u32(v0, points_sum(objects@.take(idx as int).filter(hit))),
                0 <= v0 <= u32::MAX,
            decreases objects@.len() - idx,
        {
            let o = objects[idx];
            proof {
                broadcast use vstd::prelude::Seq::lemma_filter_push;

                assert(objects@.take(idx + 1)
                    =~= objects@.take(idx as int).push(objects@[idx as int]));
                lemma_points_sum_nonneg(objects@.take(idx as int).filter(hit));
                if hit(o) {
                    let taken = objects@.take(idx as int).filter(hit);
                    assert(taken.push(o).drop_last() =~= taken);
                }
            }
            if is_caught(&o, b) {
                if score.value as u64 + o.points as u64 > u32::MAX as u64 {
                    score.value = u32::MAX;
                } else {
                    score.value = score.value + o.points;
                }
            } else {
                kept.push(o);
            }
            idx += 1;
        }
        proof {
            assert(objects@.take(objects@.len() as int) =~= objects@);
        }
        *objects = kept;
    }
}

} // verus!
