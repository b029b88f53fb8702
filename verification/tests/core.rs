use banana_catch::basket::{spawn_basket, update_basket_position, Basket, PointerEvent};
use banana_catch::collision::{falling_object_hit_basket, Score};
use banana_catch::objects::{
    falling_object_hit_ground, falling_object_movement, insert_falling_object, FallingObject,
    FallingObjectKind,
};
use banana_catch::timer::{tick_falling_object_spawn_timer, FallingObjectSpawnTimer};

fn banana_at(id: u64, x: i64, y: i64) -> FallingObject {
    FallingObject { id, kind: FallingObjectKind::Banana, points: 1, x, y }
}

// Pointer at -50 units in a 1600-unit window clamps to 120 units.
#[test]
fn basket_clamps_low() {
    let mut b = Basket { x: 800_000, y: 120_000 };
    let evs = vec![PointerEvent { x: -50_000, y: 0 }];
    update_basket_position(&mut b, &evs, 1_600_000);
    assert_eq!(b.x, 120_000);
    assert_eq!(b.y, 120_000);
}

// Pointer at 3000 units clamps to 1480 units.
#[test]
fn basket_clamps_high() {
    let mut b = Basket { x: 800_000, y: 120_000 };
    let evs = vec![PointerEvent { x: 3_000_000, y: 0 }];
    update_basket_position(&mut b, &evs, 1_600_000);
    assert_eq!(b.x, 1_480_000);
}

// Pointer at 800 units stays at 800 units.
#[test]
fn basket_keeps_in_range_position() {
    let mut b = Basket { x: 100_000 + 20_000, y: 120_000 };
    let evs = vec![PointerEvent { x: 800_000, y: 0 }];
    update_basket_position(&mut b, &evs, 1_600_000);
    assert_eq!(b.x, 800_000);
}

// With several events in one frame the last write wins.
#[test]
fn basket_last_event_wins() {
    let mut b = Basket { x: 800_000, y: 120_000 };
    let evs = vec![
        PointerEvent { x: 300_000, y: 0 },
        PointerEvent { x: -999_000, y: 0 },
        PointerEvent { x: 640_000, y: 0 },
    ];
    update_basket_position(&mut b, &evs, 1_600_000);
    assert_eq!(b.x, 640_000);
}

// With no event the basket does not move.
#[test]
fn basket_unmoved_without_events() {
    let mut b = Basket { x: 777_000, y: 120_000 };
    let evs: Vec<PointerEvent> = Vec::new();
    update_basket_position(&mut b, &evs, 1_600_000);
    assert_eq!(b.x, 777_000);
}

// A window narrower than both margins still yields a well-defined
// basket position: the width is clamped up defensively.
#[test]
fn basket_degenerate_window() {
    let mut b = Basket { x: 0, y: 120_000 };
    let evs = vec![PointerEvent { x: 500_000, y: 0 }];
    update_basket_position(&mut b, &evs, 100_000);
    assert_eq!(b.x, 120_000);
}

#[test]
fn basket_spawns_centred() {
    let b = spawn_basket(1_600_000);
    assert_eq!(b.x, 800_000);
    assert_eq!(b.y, 120_000);
}

// Firings accumulate across frames: deltas summing to 2700 ms fire
// floor(2700 / 500) = 5 times, however the total is split.
#[test]
fn timer_accumulates_across_frames() {
    let mut t = FallingObjectSpawnTimer::default();
    assert_eq!(t.elapsed_ms, 0);
    let mut fired: u64 = 0;
    for dt in [300u64, 300, 500, 1600] {
        fired += tick_falling_object_spawn_timer(&mut t, dt);
    }
    assert_eq!(fired, 5);
    assert_eq!(t.elapsed_ms, 200);

    // The same total in one frame fires the same number of times.
    let mut t2 = FallingObjectSpawnTimer::default();
    assert_eq!(tick_falling_object_spawn_timer(&mut t2, 2700), 5);
    assert_eq!(t2.elapsed_ms, 200);
}

#[test]
fn timer_fractional_carry() {
    let mut t = FallingObjectSpawnTimer::default();
    assert_eq!(tick_falling_object_spawn_timer(&mut t, 499), 0);
    assert_eq!(tick_falling_object_spawn_timer(&mut t, 1), 1);
    assert_eq!(t.elapsed_ms, 0);
}

// Vertical position after n frames of delta dt each equals
// window_height - BANANA_SPEED * n * dt: 1000 units minus
// 0.8 units/ms * 16 ms * 10 frames = 872 units.
#[test]
fn fall_is_linear_in_time() {
    let mut objs = vec![banana_at(0, 800_000, 1_000_000)];
    for _ in 0..10 {
        falling_object_movement(&mut objs, 16);
    }
    assert_eq!(objs.len(), 1);
    assert_eq!(objs[0].y, 1_000_000 - 800 * 16 * 10);
    assert_eq!(objs[0].x, 800_000);
}

// The ground test is strict: distance 4.999 units is removed, exactly
// 5 units is not, on both sides of the plane.
#[test]
fn ground_boundary_is_exclusive() {
    let mut objs = vec![
        banana_at(0, 0, 4_999),
        banana_at(1, 0, 5_000),
        banana_at(2, 0, -4_999),
        banana_at(3, 0, -5_000),
        banana_at(4, 0, 0),
    ];
    falling_object_hit_ground(&mut objs);
    let ids: Vec<u64> = objs.iter().map(|o| o.id).collect();
    assert_eq!(ids, vec![1, 3]);
}

// An object at the basket's exact position (distance 0) is caught and
// the score rises by exactly its point value.
#[test]
fn catch_at_zero_distance() {
    let b = Basket { x: 800_000, y: 120_000 };
    let mut objs = vec![banana_at(7, 800_000, 120_000)];
    let mut score = Score::default();
    falling_object_hit_basket(&mut objs, Some(&b), &mut score);
    assert_eq!(score.value, 1);
    assert_eq!(objs.len(), 0);
}

#[test]
fn bunch_scores_five() {
    let b = Basket { x: 800_000, y: 120_000 };
    let mut objs = vec![FallingObject {
        id: 9,
        kind: FallingObjectKind::BananaBunch,
        points: 5,
        x: 800_000,
        y: 120_000,
    }];
    let mut score = Score { value: 3 };
    falling_object_hit_basket(&mut objs, Some(&b), &mut score);
    assert_eq!(score.value, 8);
    assert_eq!(objs.len(), 0);
}

// The overlap threshold (64 + 35 = 99 units) is strict: an object at
// exactly 99 units stays, one a milli-unit closer is caught.
#[test]
fn catch_radius_is_strict() {
    let b = Basket { x: 800_000, y: 120_000 };
    let mut objs = vec![banana_at(0, 800_000 + 99_000, 120_000), banana_at(1, 800_000 - 98_999, 120_000)];
    let mut score = Score::default();
    falling_object_hit_basket(&mut objs, Some(&b), &mut score);
    assert_eq!(score.value, 1);
    assert_eq!(objs.len(), 1);
    assert_eq!(objs[0].id, 0);
}

// With no basket spawned, the catch pass is a no-op.
#[test]
fn no_basket_skips_catches() {
    let mut objs = vec![banana_at(0, 800_000, 120_000)];
    let mut score = Score::default();
    falling_object_hit_basket(&mut objs, None, &mut score);
    assert_eq!(score.value, 0);
    assert_eq!(objs.len(), 1);
}

// An object caught by the basket is gone before the ground pass runs:
// it is neither removed twice nor scored twice, even with the basket
// sitting on the ground plane.
#[test]
fn caught_object_never_ground_removed() {
    let b = Basket { x: 800_000, y: 0 };
    let mut objs = vec![banana_at(0, 800_000, 0)];
    let mut score = Score::default();
    falling_object_hit_basket(&mut objs, Some(&b), &mut score);
    assert_eq!(score.value, 1);
    assert_eq!(objs.len(), 0);
    falling_object_hit_ground(&mut objs);
    assert_eq!(objs.len(), 0);
    // A second catch pass over the survivors awards nothing.
    falling_object_hit_basket(&mut objs, Some(&b), &mut score);
    assert_eq!(score.value, 1);
}

#[test]
fn insert_awards_points_by_kind() {
    let mut objs: Vec<FallingObject> = Vec::new();
    insert_falling_object(&mut objs, 0, FallingObjectKind::Banana, 300_000, 1_000_000);
    insert_falling_object(&mut objs, 1, FallingObjectKind::BananaBunch, 400_000, 1_000_000);
    assert_eq!(objs[0].points, 1);
    assert_eq!(objs[1].points, 5);
    assert_eq!(objs[0].y, 1_000_000);
    assert_eq!(objs[1].y, 1_000_000);
}

#[test]
fn score_starts_at_zero() {
    assert_eq!(Score::default().value, 0);
}
