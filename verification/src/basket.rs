//! The basket and its pointer-driven horizontal control.

use vstd::prelude::*;
use crate::{clamp_spec, clamp_to_bounds, BOUND_SIZE, MAX_COORD};

verus! {

/// The player's basket. A singleton: spawned once at the start of a
/// session, never destroyed. Coordinates are milli-units; only `x`
/// changes after spawn.
#[derive(Clone, Copy, PartialEq, Eq, Structural, Debug)]
pub struct Basket {
    pub x: i64,
    pub y: i64,
}

impl Basket {
    /// Coordinates stay within the machine range the collision
    /// arithmetic is proved against.
    pub open spec fn wf(self) -> bool {
        &&& -MAX_COORD <= self.x <= MAX_COORD
        &&& -MAX_COORD <= self.y <= MAX_COORD
    }
}

/// A pointer-moved event, carrying an absolute window-space coordinate
/// in milli-units.
#[derive(Clone, Copy, PartialEq, Eq, Structural, Debug)]
pub struct PointerEvent {
    pub x: i64,
    pub y: i64,
}

/// Place the basket for a new session: horizontally centred, at the
/// fixed spawn height `BOUND_SIZE` above the ground.
pub fn spawn_basket(width: i64) -> (b: Basket)
    requires
        0 <= width <= MAX_COORD,
    ensures
        b.x == width as int / 2,
        b.y == BOUND_SIZE,
        b.wf(),
{
    Basket { x: width / 2, y: BOUND_SIZE }
}

/// Where the basket stands after a frame's pointer events: unchanged
/// when none arrived, else at the last event's horizontal coordinate
/// confined to the playable range (last write wins).
pub open spec fn basket_after_events(b: Basket, events: Seq<PointerEvent>, width: int) -> Basket {
    if events.len() == 0 {
        b
    } else {
        Basket { x: clamp_spec(events.last().x as int, width) as i64, ..b }
    }
}

/// Process one frame's pointer-moved events in arrival order: each
/// assigns its clamped horizontal coordinate to the basket, so the most
/// recent event's effect survives. The vertical position never changes.
pub fn update_basket_position(
    basket: &mut Basket,
    cursor_moved_events: &Vec<PointerEvent>,
    width: i64,
)
    requires
        old(basket).wf(),
        0 <= width <= MAX_COORD,
    ensures
        *final(basket) == basket_after_events(*old(basket), cursor_moved_events@, width as int),
        final(basket).wf(),
{
    let n = cursor_moved_events.len();
    let mut idx: usize = 0;
    while idx < n
        invariant
            n == cursor_moved_events@.len(),
            0 <= width <= MAX_COORD,
            idx <= n,
            *basket == basket_after_events(
                *old(basket),
                cursor_moved_events@.take(idx as int),
                width as int,
            ),
            basket.wf(),
        decreases n - idx,
    {
        proof {
            assert(cursor_moved_events@.take(idx + 1).last() == cursor_moved_events@[idx as int]);
        }
        basket.x = clamp_to_bounds(cursor_moved_events[idx].x, width);
        idx += 1;
    }
    proof {
        assert(cursor_moved_events@.take(n as int) =~= cursor_moved_events@);
    }
}

} // verus!
