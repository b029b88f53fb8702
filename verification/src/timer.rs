//! The repeating spawn countdown.
//!
//! The timer accumulates elapsed frame time and fires once for every
//! full period contained in the accumulated total, carrying the
//! fractional remainder over to the next frame rather than resetting
//! to zero.

use vstd::prelude::*;
use vstd::arithmetic::div_mod::{
    lemma_fundamental_div_mod,
    lemma_fundamental_div_mod_converse_div,
    lemma_fundamental_div_mod_converse_mod,
    lemma_mod_bound,
};
use crate::{BANANA_SPAWN_TIMER_IN_MS, MAX_DT_MS};

verus! {

/// Repeating countdown that schedules falling-object spawns.
/// `elapsed_ms` is the time accumulated since the last firing.
pub struct FallingObjectSpawnTimer {
    pub elapsed_ms: u64,
}

impl FallingObjectSpawnTimer {
    /// A fresh timer carries no accumulated time.
    pub open spec fn wf(self) -> bool {
        self.elapsed_ms < BANANA_SPAWN_TIMER_IN_MS
    }
}

impl Default for FallingObjectSpawnTimer {
    /// A new timer starts a full period away from its first firing.
    fn default() -> (t: FallingObjectSpawnTimer)
        ensures
            t.elapsed_ms == 0,
            t.wf(),
    {
        FallingObjectSpawnTimer { elapsed_ms: 0 }
    }
}

/// Advance the spawn timer by one frame's delta and report how many
/// times it fired: one firing per full period contained in the
/// accumulated time, the remainder carried over.
pub fn tick_falling_object_spawn_timer(
    falling_object_spawn_timer: &mut FallingObjectSpawnTimer,
    dt_ms: u64,
) -> (fires: u64)
    requires
        old(falling_object_spawn_timer).wf(),
        dt_ms <= MAX_DT_MS,
    ensures
        fires == (old(falling_object_spawn_timer).elapsed_ms + dt_ms) as int
            / BANANA_SPAWN_TIMER_IN_MS as int,
        final(falling_object_spawn_timer).elapsed_ms ==
            (old(falling_object_spawn_timer).elapsed_ms + dt_ms) as int
                % BANANA_SPAWN_TIMER_IN_MS as int,
        final(falling_object_spawn_timer).wf(),
{
    let total = falling_object_spawn_timer.elapsed_ms + dt_ms;
    let fires = total / BANANA_SPAWN_TIMER_IN_MS;
    falling_object_spawn_timer.elapsed_ms = total % BANANA_SPAWN_TIMER_IN_MS;
    fires
}

/// Total time carried by a sequence of frame deltas.
pub open spec fn sum_deltas(deltas: Seq<int>) -> int
    decreases deltas.len(),
{
    if deltas.len() == 0 {
        0
    } else {
        deltas[0] + sum_deltas(deltas.drop_first())
    }
}

/// Firings produced by feeding a sequence of frame deltas, in order,
/// to a timer whose accumulated time starts at `elapsed`.
pub open spec fn run_fires(elapsed: int, deltas: Seq<int>) -> int
    decreases deltas.len(),
{
    let period = BANANA_SPAWN_TIMER_IN_MS as int;
    if deltas.len() == 0 {
        0
    } else {
        (elapsed + deltas[0]) / period
            + run_fires((elapsed + deltas[0]) % period, deltas.drop_first())
    }
}

/// Splitting a total into a quotient-so-far and a carried remainder
/// loses no firings: `a / p + ((a % p) + s) / p == (a + s) / p`.
proof fn lemma_div_carry(a: int, s: int, p: int)
    requires
        0 <= a,
        0 <= s,
        0 < p,
    ensures
        a / p + (a % p + s) / p == (a + s) / p,
        (a % p + s) % p == (a + s) % p,
{
    lemma_fundamental_div_mod(a, p);
    lemma_mod_bound(a, p);
    let q = a / p;
    let r = a % p;
    lemma_fundamental_div_mod(r + s, p);
    lemma_mod_bound(r + s, p);
    let t = (r + s) / p;
    let u = (r + s) % p;
    assert(a + s == (q + t) * p + u) by {
        assert(q * p + t * p == (q + t) * p) by (nonlinear_arith);
    }
    lemma_fundamental_div_mod_converse_div(a + s, p, q + t, u);
    lemma_fundamental_div_mod_converse_mod(a + s, p, q + t, u);
}

/// However a stretch of play is split into frames, the number of timer
/// firings depends only on the total elapsed time: a run over any
/// sequence of non-negative deltas starting from a carried remainder
/// `elapsed` fires exactly `(elapsed + total) / period` times.
pub proof fn lemma_firing_count(elapsed: int, deltas: Seq<int>)
    requires
        0 <= elapsed < BANANA_SPAWN_TIMER_IN_MS,
        forall|i: int| 0 <= i < deltas.len() ==> 0 <= #[trigger] deltas[i],
    ensures
        0 <= sum_deltas(deltas),
        run_fires(elapsed, deltas) ==
            (elapsed + sum_deltas(deltas)) / (BANANA_SPAWN_TIMER_IN_MS as int),
    decreases deltas.len(),
{
    let period = BANANA_SPAWN_TIMER_IN_MS as int;
    if deltas.len() == 0 {
        vstd::arithmetic::div_mod::lemma_basic_div(elapsed, period);
    } else {
        let d0 = deltas[0];
        let rest = deltas.drop_first();
        assert(forall|i: int| 0 <= i < rest.len() ==> 0 <= #[trigger] rest[i]);
        lemma_mod_bound(elapsed + d0, period);
        lemma_firing_count((elapsed + d0) % period, rest);
        let s = sum_deltas(rest);
        lemma_div_carry(elapsed + d0, s, period);
    }
}

/// A run that starts from a fresh timer fires `floor(total / period)`
/// times, whatever the split of the total into frame deltas.
pub proof fn lemma_firing_count_from_start(deltas: Seq<int>)
    requires
        forall|i: int| 0 <= i < deltas.len() ==> 0 <= #[trigger] deltas[i],
    ensures
        run_fires(0, deltas) == sum_deltas(deltas) / (BANANA_SPAWN_TIMER_IN_MS as int),
{
    lemma_firing_count(0, deltas);
}

} // verus!
