//! Falling objects: kinds, per-frame motion and ground removal.

use vstd::prelude::*;
use vstd::seq_lib::group_seq_properties;
use crate::{BANANA_SPEED, GROUND_EPSILON, MAX_COORD, MAX_DT_MS};

verus! {

/// What falls from the top of the window.
#[derive(Clone, Copy, PartialEq, Eq, Structural, Debug)]
pub enum FallingObjectKind {
    Banana,
    BananaBunch,
}

/// Points awarded for catching an object of the given kind.
pub open spec fn points_of(kind: FallingObjectKind) -> u32 {
    match kind {
        FallingObjectKind::Banana => 1u32,
        FallingObjectKind::BananaBunch => 5u32,
    }
}

/// A live falling object. `id` is stable for the object's lifetime;
/// coordinates are milli-units, and only `y` changes after spawn.
#[derive(Clone, Copy, PartialEq, Eq, Structural, Debug)]
pub struct FallingObject {
    pub id: u64,
    pub kind: FallingObjectKind,
    pub points: u32,
    pub x: i64,
    pub y: i64,
}

impl FallingObject {
    /// Coordinates stay within the machine range the collision
    /// arithmetic is proved against, and the point value matches the
    /// kind.
    pub open spec fn wf(self) -> bool {
        &&& -MAX_COORD <= self.x <= MAX_COORD
        &&& -MAX_COORD <= self.y <= MAX_COORD
        &&& self.points == points_of(self.kind)
    }
}

/// Vertical position after one frame of the given delta: the object
/// falls `BANANA_SPEED * dt` milli-units, saturating at `-MAX_COORD`
/// far below the ground where it is out of reach of basket and ground
/// test alike.
pub open spec fn fall_y(y: int, dt_ms: int) -> int {
    if y - BANANA_SPEED * dt_ms >= -MAX_COORD {
        y - BANANA_SPEED * dt_ms
    } else {
        -MAX_COORD as int
    }
}

/// The object as it stands after one frame of downward motion.
pub open spec fn moved_object(o: FallingObject, dt_ms: int) -> FallingObject {
    FallingObject { y: fall_y(o.y as int, dt_ms) as i64, ..o }
}

/// Advance every live object straight down by one frame's travel.
pub fn falling_object_movement(objects: &mut Vec<FallingObject>, dt_ms: u64)
    requires
        dt_ms <= MAX_DT_MS,
        forall|i: int| 0 <= i < old(objects)@.len() ==> (#[trigger] old(objects)@[i]).wf(),
    ensures
        final(objects)@.len() == old(objects)@.len(),
        forall|i: int| 0 <= i < old(objects)@.len() ==>
            #[trigger] final(objects)@[i] == moved_object(old(objects)@[i], dt_ms as int),
        forall|i: int| 0 <= i < final(objects)@.len() ==> (#[trigger] final(objects)@[i]).wf(),
{
    let drop_units: i64 = BANANA_SPEED * (dt_ms as i64);
    let floor_plus: i64 = -MAX_COORD + drop_units;
    let mut moved: Vec<FallingObject> = Vec::new();
    let mut idx: usize = 0;
    while idx < objects.len()
        invariant
            dt_ms <= MAX_DT_MS,
            drop_units == BANANA_SPEED * dt_ms,
            floor_plus == -MAX_COORD + drop_units,
            forall|i: int| 0 <= i < objects@.len() ==> (#[trigger] objects@[i]).wf(),
            idx <= objects@.len(),
            moved@.len() == idx,
            forall|i: int| 0 <= i < idx ==>
                #[trigger] moved@[i] == moved_object(objects@[i], dt_ms as int),
            forall|i: int| 0 <= i < moved@.len() ==> (#[trigger] moved@[i]).wf(),
        decreases objects@.len() - idx,
    {
        let o = objects[idx];
        let new_y: i64 = if o.y >= floor_plus { o.y - drop_units } else { -MAX_COORD };
        moved.push(FallingObject { y: new_y, ..o });
        idx += 1;
    }
    *objects = moved;
}

/// Whether the object is close enough to the ground plane `y == 0` to
/// be despawned: a strict one-sided proximity test, `|y| < GROUND_EPSILON`.
pub open spec fn grounded(o: FallingObject) -> bool {
    -GROUND_EPSILON < o.y < GROUND_EPSILON
}

/// Remove every object whose distance to the ground plane is strictly
/// below `GROUND_EPSILON`; all others survive in order. An object at
/// exactly the threshold stays.
pub fn falling_object_hit_ground(objects: &mut Vec<FallingObject>)
    ensures
        final(objects)@ == old(objects)@.filter(|o: FallingObject| !grounded(o)),
        forall|i: int| 0 <= i < final(objects)@.len() ==>
            old(objects)@.contains(#[trigger] final(objects)@[i]),
{
    broadcast use group_seq_properties;

    let keep = Ghost(|o: FallingObject| !grounded(o));
    let mut kept: Vec<FallingObject> = Vec::new();
    let mut idx: usize = 0;
    proof {
        assert(old(objects)@.take(0).filter(keep@) =~= Seq::<FallingObject>::empty());
    }
    while idx < objects.len()
        invariant
            keep@ == (|o: FallingObject| !grounded(o)),
            idx <= objects@.len(),
            kept@ == objects@.take(idx as int).filter(keep@),
            forall|i: int| 0 <= i < kept@.len() ==> objects@.contains(#[trigger] kept@[i]),
        decreases objects@.len() - idx,
    {
        let o = objects[idx];
        proof {
            broadcast use vstd::prelude::Seq::lemma_filter_push;

            assert(objects@.take(idx + 1) =~= objects@.take(idx as int).push(objects@[idx as int]));
            assert(objects@.take(idx + 1).filter(keep@) ==
                objects@.take(idx as int).push(objects@[idx as int]).filter(keep@));
        }
        if !(-GROUND_EPSILON < o.y && o.y < GROUND_EPSILON) {
            kept.push(o);
        }
        idx += 1;
    }
    proof {
        assert(objects@.take(objects@.len() as int) =~= objects@);
    }
    *objects = kept;
}

/// Insert a newly spawned object into the live set: it appears at the
/// given horizontal position and at the top of the window, with the
/// point value its kind awards.
pub fn insert_falling_object(
    objects: &mut Vec<FallingObject>,
    id: u64,
    kind: FallingObjectKind,
    x: i64,
    window_height: i64,
)
    requires
        -MAX_COORD <= x <= MAX_COORD,
        0 <= window_height <= MAX_COORD,
    ensures
        final(objects)@ == old(objects)@.push(
            FallingObject { id, kind, points: points_of(kind), x, y: window_height },
        ),
{
    let points: u32 = match kind {
        FallingObjectKind::Banana => 1,
        FallingObjectKind::BananaBunch => 5,
    };
    objects.push(FallingObject { id, kind, points, x, y: window_height });
}

/// Vertical position after `n` frames of delta `dt_ms` each, with no
/// removal in between.
pub open spec fn fall_y_n(y: int, dt_ms: int, n: nat) -> int
    decreases n,
{
    if n == 0 {
        y
    } else {
        fall_y_n(fall_y(y, dt_ms), dt_ms, (n - 1) as nat)
    }
}

/// Constant-velocity fall: as long as the saturation floor is not hit,
/// the vertical position after `n` frames of delta `dt_ms` each equals
/// the starting height minus `BANANA_SPEED * n * dt_ms`.
pub proof fn lemma_fall_linear(y: int, dt_ms: int, n: nat)
    requires
        0 <= dt_ms,
        y - BANANA_SPEED * dt_ms * n >= -MAX_COORD,
    ensures
        fall_y_n(y, dt_ms, n) == y - BANANA_SPEED * dt_ms * n,
    decreases n,
{
    if n == 0 {
        assert(BANANA_SPEED * dt_ms * 0 == 0) by (nonlinear_arith);
    } else {
        assert(BANANA_SPEED * dt_ms * n == BANANA_SPEED * dt_ms + BANANA_SPEED * dt_ms * (n - 1))
            by (nonlinear_arith);
        assert(BANANA_SPEED * dt_ms * (n - 1) >= 0) by (nonlinear_arith)
            requires 0 <= dt_ms, 1 <= n,
        ;
        assert(fall_y(y, dt_ms) == y - BANANA_SPEED * dt_ms);
        lemma_fall_linear(y - BANANA_SPEED * dt_ms, dt_ms, (n - 1) as nat);
    }
}

} // verus!
