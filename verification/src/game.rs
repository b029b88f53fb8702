//! The whole simulation state and the per-frame step that drives it.
//!
//! One frame advances a fixed sequence of phases with no overlap:
//! pointer input, timer tick, spawning, movement, collision resolution,
//! ground removal. Movement precedes the ground test, and the catch
//! pass precedes the ground pass, so no object is removed or scored
//! twice.

use vstd::prelude::*;
use crate::basket::{basket_after_events, spawn_basket, update_basket_position, Basket, PointerEvent};
use crate::collision::{
    catch_survivors, caught, caught_points, falling_object_hit_basket, sat_add_u32, Score,
};
use crate::objects::{
    falling_object_hit_ground, falling_object_movement, grounded, moved_object, FallingObject,
};
use crate::spawn::{spawn_falling_objects_over_time, spawned_ok};
use crate::timer::{tick_falling_object_spawn_timer, FallingObjectSpawnTimer};
use crate::{BANANA_SPAWN_TIMER_IN_MS, BOUND_SIZE, MAX_COORD, MAX_DT_MS};

verus! {

/// Every live object after one frame of downward motion.
pub open spec fn moved_seq(s: Seq<FallingObject>, dt_ms: int) -> Seq<FallingObject> {
    Seq::new(s.len(), |i: int| moved_object(s[i], dt_ms))
}

/// The objects that survive the ground pass.
pub open spec fn ground_survivors(s: Seq<FallingObject>) -> Seq<FallingObject> {
    s.filter(|o: FallingObject| !grounded(o))
}

/// The complete state of one game session.
pub struct GameState {
    /// Window width in milli-units; fixed for the session.
    pub width: i64,
    /// Window height in milli-units; fixed for the session.
    pub height: i64,
    pub timer: FallingObjectSpawnTimer,
    pub objects: Vec<FallingObject>,
    /// The basket, once spawned. While absent, collision and ground
    /// phases still run; only the catch pass is skipped.
    pub basket: Option<Basket>,
    pub score: Score,
    /// Identity handed to the next spawned object.
    pub next_id: u64,
}

impl GameState {
    pub open spec fn wf(self) -> bool {
        &&& 0 <= self.width <= MAX_COORD
        &&& 0 <= self.height <= MAX_COORD
        &&& self.timer.wf()
        &&& forall|i: int| 0 <= i < self.objects@.len() ==> (#[trigger] self.objects@[i]).wf()
        &&& match self.basket {
            None => true,
            Some(b) => b.wf(),
        }
    }

    /// A fresh session: no objects, no points, a full spawn period to
    /// wait, and the basket centred at its spawn height.
    pub fn new(width: i64, height: i64) -> (st: GameState)
        requires
            0 <= width <= MAX_COORD,
            0 <= height <= MAX_COORD,
        ensures
            st.width == width,
            st.height == height,
            st.timer.elapsed_ms == 0,
            st.objects@ == Seq::<FallingObject>::empty(),
            st.basket is Some,
            st.basket->Some_0.x == width as int / 2,
            st.basket->Some_0.y == BOUND_SIZE,
            st.score.value == 0,
            st.next_id == 0,
            st.wf(),
    {
        GameState {
            width,
            height,
            timer: Default::default(),
            objects: Vec::new(),
            basket: Some(spawn_basket(width)),
            score: Default::default(),
            next_id: 0,
        }
    }

    /// The basket as it stands after the frame's input phase.
    pub open spec fn basket_after_input(self, events: Seq<PointerEvent>) -> Option<Basket> {
        match self.basket {
            None => None,
            Some(b) => Some(basket_after_events(b, events, self.width as int)),
        }
    }

    /// How often the spawn timer fires during a frame of delta `dt_ms`.
    pub open spec fn spawn_count(self, dt_ms: int) -> int {
        (self.timer.elapsed_ms + dt_ms) / (BANANA_SPAWN_TIMER_IN_MS as int)
    }

    /// Advance the session by one frame: process the frame's pointer
    /// events, tick the spawn timer and spawn one object per firing,
    /// move every object down, resolve catches into the score, then
    /// drop objects that reached the ground. The spawned objects'
    /// positions and kinds come from random draws; whatever was drawn,
    /// they appear at the top of the window inside the horizontal
    /// bounds, and the rest of the frame treats them exactly as the
    /// phase contracts state.
    pub fn frame(&mut self, dt_ms: u64, cursor_moved_events: &Vec<PointerEvent>)
        requires
            old(self).wf(),
            dt_ms <= MAX_DT_MS,
            old(self).next_id + old(self).spawn_count(dt_ms as int) <= u64::MAX,
        ensures
            final(self).width == old(self).width,
            final(self).height == old(self).height,
            final(self).timer.elapsed_ms == (old(self).timer.elapsed_ms + dt_ms) as int
                % (BANANA_SPAWN_TIMER_IN_MS as int),
            final(self).basket == old(self).basket_after_input(cursor_moved_events@),
            final(self).next_id == old(self).next_id + old(self).spawn_count(dt_ms as int),
            exists|sp: Seq<FallingObject>|
                {
                    let all = old(self).objects@ + sp;
                    let moved = moved_seq(all, dt_ms as int);
                    &&& #[trigger] sp.len() == old(self).spawn_count(dt_ms as int)
                    &&& (forall|j: int| 0 <= j < sp.len() ==>
                        spawned_ok(#[trigger] sp[j], old(self).width as int, old(self).height as int))
                    &&& (forall|j: int| 0 <= j < sp.len() ==>
                        (#[trigger] sp[j]).id == old(self).next_id + j)
                    &&& match old(self).basket_after_input(cursor_moved_events@) {
                        None => {
                            &&& final(self).objects@ == ground_survivors(moved)
                            &&& final(self).score.value == old(self).score.value
                        },
                        Some(b) => {
                            &&& final(self).objects@ ==
                                ground_survivors(catch_survivors(moved, b))
                            &&& final(self).score.value == sat_add_u32(
                                old(self).score.value as int,
                                caught_points(moved, b),
                            )
                        },
                    }
                },
            final(self).score.value >= old(self).score.value,
            final(self).wf(),
    {
        // Input: the basket follows the frame's pointer events.
        let width = self.width;
        if let Some(b) = &mut self.basket {
            update_basket_position(b, cursor_moved_events, width);
        }
        // Timer tick and spawning: one new object per firing.
        let fires = tick_falling_object_spawn_timer(&mut self.timer, dt_ms);
        let ghost len0 = self.objects@.len() as int;
        spawn_falling_objects_over_time(
            &mut self.objects,
            &mut self.next_id,
            fires,
            self.width,
            self.height,
        );
        let ghost sp = self.objects@.skip(len0);
        let ghost all = old(self).objects@ + sp;
        proof {
            assert(self.objects@ =~= all);
        }
        // Movement, then collision, then the ground test.
        falling_object_movement(&mut self.objects, dt_ms);
        proof {
            assert(self.objects@ =~= moved_seq(all, dt_ms as int));
        }
        falling_object_hit_basket(&mut self.objects, self.basket.as_ref(), &mut self.score);
        let ghost pre_ground = self.objects@;
        falling_object_hit_ground(&mut self.objects);
        proof {
            assert forall|i: int| 0 <= i < self.objects@.len() implies
                (#[trigger] self.objects@[i]).wf() by {
                let x = self.objects@[i];
                assert(pre_ground.contains(x));
                let j = choose|j: int| 0 <= j < pre_ground.len() && pre_ground[j] == x;
                assert(pre_ground[j].wf());
            }
        }
    }
}

/// No double removal, no double counting: an object the catch pass
/// removes is gone before the ground pass runs, so the very same pass
/// order that `GameState::frame` fixes can neither remove it again nor
/// score it again — the catch survivors contain no caught object, and a
/// second catch pass over them would award nothing.
pub proof fn lemma_no_double_removal(s: Seq<FallingObject>, b: Basket)
    ensures
        forall|i: int| 0 <= i < catch_survivors(s, b).len() ==>
            !caught(#[trigger] catch_survivors(s, b)[i], b),
        caught_points(catch_survivors(s, b), b) == 0,
{
    let keep = |o: FallingObject| !caught(o, b);
    let hit = |o: FallingObject| caught(o, b);
    assert forall|i: int| 0 <= i < catch_survivors(s, b).len() implies
        !caught(#[trigger] catch_survivors(s, b)[i], b) by {
        s.lemma_filter_pred(keep, i);
    }
    assert(catch_survivors(s, b).all(|o: FallingObject| !hit(o)));
    catch_survivors(s, b).lemma_all_neg_filter_empty(hit);
    assert(caught_points(catch_survivors(s, b), b) == 0);
}

} // verus!
