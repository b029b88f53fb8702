//! Core simulation of a basket-catch arcade game.
//!
//! A basket moves horizontally along the bottom of a window and catches
//! objects (bananas and rarer banana bunches) that fall from the top; a
//! catch adds the object's point value to the score, an object that
//! reaches the ground is discarded silently.
//!
//! All geometry is fixed-point: coordinates are milli-units (one
//! thousandth of a world unit) stored in `i64`, and time is integer
//! milliseconds. `BANANA_SPEED` is expressed in milli-units per
//! millisecond, which is numerically equal to world units per second.

use vstd::prelude::*;

pub mod basket;
pub mod collision;
pub mod game;
pub mod objects;
pub mod spawn;
pub mod timer;

verus! {

/// Horizontal margin kept clear at both window edges, in milli-units.
/// It bounds both basket travel and spawn positions.
pub const BOUND_SIZE: i64 = 120_000;

/// Width of the basket sprite, in milli-units.
pub const BASKET_WIDTH: i64 = 128_000;

/// Height of a falling object's sprite, in milli-units; the same value
/// is used for both kinds.
pub const BANANA_HEIGHT: i64 = 70_000;

/// Fall speed, in milli-units per millisecond (equal to units per second).
pub const BANANA_SPEED: i64 = 800;

/// Period of the repeating spawn timer, in milliseconds.
pub const BANANA_SPAWN_TIMER_IN_MS: u64 = 500;

/// An object whose absolute vertical distance to the ground plane is
/// strictly below this threshold is removed, in milli-units.
pub const GROUND_EPSILON: i64 = 5_000;

/// Largest magnitude any coordinate may take, in milli-units.
/// Window sizes must stay below it; a falling object's vertical
/// position saturates at `-MAX_COORD` far below the ground, where the
/// object is out of reach of both the basket and the ground test.
pub const MAX_COORD: i64 = 1_000_000_000;

/// Largest frame delta accepted, in milliseconds.
pub const MAX_DT_MS: u64 = 1_000_000_000;

/// Window width after the defensive clamp that keeps the playable
/// horizontal range non-empty.
pub open spec fn effective_width(width: int) -> int {
    if width < 2 * BOUND_SIZE {
        2 * BOUND_SIZE
    } else {
        width
    }
}

/// Where a horizontal coordinate lands once confined to the playable
/// range `[BOUND_SIZE, effective_width - BOUND_SIZE]`.
pub open spec fn clamp_spec(x: int, width: int) -> int {
    if x < BOUND_SIZE {
        BOUND_SIZE as int
    } else if x > effective_width(width) - BOUND_SIZE {
        effective_width(width) - BOUND_SIZE
    } else {
        x
    }
}

/// Confine a horizontal coordinate to the playable range.
pub fn clamp_to_bounds(x: i64, width: i64) -> (r: i64)
    requires
        width <= MAX_COORD,
    ensures
        r == clamp_spec(x as int, width as int),
        BOUND_SIZE <= r <= MAX_COORD - BOUND_SIZE,
{
    let w = if width < 2 * BOUND_SIZE { 2 * BOUND_SIZE } else { width };
    if x < BOUND_SIZE {
        BOUND_SIZE
    } else if x > w - BOUND_SIZE {
        w - BOUND_SIZE
    } else {
        x
    }
}

} // verus!
