//! Spawn scheduling: where a new falling object appears and which kind
//! it is, decided by uniform random draws.

use vstd::prelude::*;
use crate::objects::{points_of, FallingObject, FallingObjectKind};
use crate::{effective_width, BOUND_SIZE, MAX_COORD};

verus! {

/// Relies on rand::random_range: a draw from `0..n` with the
/// thread-local generator lies strictly below `n`; the range is
/// non-empty, so the draw itself cannot panic.
#[verifier::external_body]
fn rand_below(n: u64) -> (r: u64)
    requires
        n > 0,
    ensures
        r < n,
{
    rand::random_range(0..n)
}

/// Width of the horizontal band objects may spawn in, after the
/// defensive clamp of the window width.
pub open spec fn spawn_span(width: int) -> int {
    effective_width(width) - 2 * BOUND_SIZE
}

/// What must hold of every object the scheduler emits: it appears at
/// the top of the window, horizontally within the same bounds that
/// constrain the basket, with the point value of its kind.
pub open spec fn spawned_ok(o: FallingObject, width: int, height: int) -> bool {
    &&& BOUND_SIZE <= o.x <= effective_width(width) - BOUND_SIZE
    &&& o.y == height
    &&& o.points == points_of(o.kind)
    &&& o.wf()
}

/// Build the object a spawn intent describes from the two uniform
/// draws: `rx` places it at `BOUND_SIZE + rx`, and `rk`, one chance in
/// ten, picks the rarer banana bunch (five points) over the banana
/// (one point).
pub fn falling_object_from_draws(
    id: u64,
    rx: u64,
    rk: u64,
    width: i64,
    height: i64,
) -> (o: FallingObject)
    requires
        rx <= spawn_span(width as int),
        rk < 10,
        width <= MAX_COORD,
        0 <= height <= MAX_COORD,
    ensures
        o.id == id,
        o.x == BOUND_SIZE + rx,
        o.y == height,
        o.kind == (if rk == 0 { FallingObjectKind::BananaBunch } else { FallingObjectKind::Banana }),
        spawned_ok(o, width as int, height as int),
{
    let (kind, points) = if rk == 0 {
        (FallingObjectKind::BananaBunch, 5)
    } else {
        (FallingObjectKind::Banana, 1)
    };
    FallingObject { id, kind, points, x: BOUND_SIZE + rx as i64, y: height }
}

/// Emit one new falling object per timer firing: each appears at the
/// top of the window at an independently drawn horizontal position,
/// and is a banana bunch with probability one in ten, a banana
/// otherwise. Identities are assigned from `next_id` upward.
pub fn spawn_falling_objects_over_time(
    objects: &mut Vec<FallingObject>,
    next_id: &mut u64,
    fires: u64,
    width: i64,
    height: i64,
)
    requires
        width <= MAX_COORD,
        0 <= height <= MAX_COORD,
        *old(next_id) + fires <= u64::MAX,
    ensures
        final(objects)@.len() == old(objects)@.len() + fires,
        forall|i: int| 0 <= i < old(objects)@.len() ==>
            #[trigger] final(objects)@[i] == old(objects)@[i],
        forall|i: int| old(objects)@.len() <= i < final(objects)@.len() ==>
            spawned_ok(#[trigger] final(objects)@[i], width as int, height as int),
        forall|i: int| old(objects)@.len() <= i < final(objects)@.len() ==>
            (#[trigger] final(objects)@[i]).id == *old(next_id) + (i - old(objects)@.len()),
        *final(next_id) == *old(next_id) + fires,
{
    let span: u64 = {
        let w = if width < 2 * BOUND_SIZE { 2 * BOUND_SIZE } else { width };
        (w - 2 * BOUND_SIZE) as u64
    };
    let mut emitted: u64 = 0;
    while emitted < fires
        invariant
            span == spawn_span(width as int),
            width <= MAX_COORD,
            0 <= height <= MAX_COORD,
            *old(next_id) + fires <= u64::MAX,
            emitted <= fires,
            *next_id == *old(next_id) + emitted,
            objects@.len() == old(objects)@.len() + emitted,
            forall|i: int| 0 <= i < old(objects)@.len() ==>
                #[trigger] objects@[i] == old(objects)@[i],
            forall|i: int| old(objects)@.len() <= i < objects@.len() ==>
                spawned_ok(#[trigger] objects@[i], width as int, height as int),
            forall|i: int| old(objects)@.len() <= i < objects@.len() ==>
                (#[trigger] objects@[i]).id == *old(next_id) + (i - old(objects)@.len()),
        decreases fires - emitted,
    {
        let rx = rand_below(span + 1);
        let rk = rand_below(10);
        let o = falling_object_from_draws(*next_id, rx, rk, width, height);
        objects.push(o);
        *next_id = *next_id + 1;
        emitted += 1;
    }
}

} // verus!
