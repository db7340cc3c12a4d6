use reconciler::movement::{MovementRule, Walk, LANE, PLAYER_SPEED, TOLERANCE};
use reconciler::point::{Offset, Point, UNIT};
use reconciler::root::isqrt;

fn walled_world() -> MovementRule {
    MovementRule::new(PLAYER_SPEED, 100 * UNIT, TOLERANCE)
}

#[test]
fn constants_are_one_unit_and_half_a_unit() {
    assert_eq!(UNIT, 1000);
    assert_eq!(PLAYER_SPEED, 1000);
    assert_eq!(TOLERANCE, 500);
}

#[test]
fn isqrt_rounds_down() {
    assert_eq!(isqrt(0), 0);
    assert_eq!(isqrt(1), 1);
    assert_eq!(isqrt(2), 1);
    assert_eq!(isqrt(3), 1);
    assert_eq!(isqrt(4), 2);
    assert_eq!(isqrt(99), 9);
    assert_eq!(isqrt(100), 10);
    assert_eq!(isqrt(101), 10);
    assert_eq!(isqrt(1_000_000_000_000), 1_000_000);
}

#[test]
fn isqrt_agrees_with_the_floating_point_root() {
    let mut n: u128 = 0;
    while n < 1 << 50 {
        let expected = (n as f64).sqrt().floor() as u64;
        assert_eq!(isqrt(n), expected, "n = {}", n);
        n = n * 3 + 7;
    }
    for root in [1u64, 2, 3, 1000, 65_535, 65_536, 1 << 25] {
        let square = (root as u128) * (root as u128);
        assert_eq!(isqrt(square), root);
        assert_eq!(isqrt(square - 1), root - 1);
        assert_eq!(isqrt(square + 1), root);
    }
}

#[test]
fn movement_never_exceeds_the_speed_and_rounds_toward_zero() {
    let rule = MovementRule::new(1000, i32::MAX, 500);
    let position = Point::new(0, 0);
    for (x, y) in [(1000, 1), (1, 1000), (-7000, 2400), (123_456, -654_321), (600, 0), (0, -600)] {
        let movement = rule.movement(position, Point::new(x, y));
        let length = ((x as f64) * (x as f64) + (y as f64) * (y as f64)).sqrt();
        let exact_x = (x as f64) * 1000.0 / length;
        let exact_y = (y as f64) * 1000.0 / length;
        assert_eq!(movement.dx, exact_x.trunc() as i64, "x of ({}, {})", x, y);
        assert_eq!(movement.dy, exact_y.trunc() as i64, "y of ({}, {})", x, y);
        assert!(movement.dx.abs() <= 1000 && movement.dy.abs() <= 1000);
    }
}

#[test]
fn isqrt_of_the_largest_numbers() {
    assert_eq!(isqrt(u128::MAX), u64::MAX);
    let top = u64::MAX as u128;
    assert_eq!(isqrt(top * top), u64::MAX);
    assert_eq!(isqrt(top * top - 1), u64::MAX - 1);
}

#[test]
fn nine_ticks_toward_ten_units_cover_nine() {
    let rule = walled_world();
    let target = Point::new(10 * UNIT, 0);
    let mut position = Point::new(0, 0);
    for _ in 0..9 {
        position = rule.step(position, target, false);
    }
    assert_eq!(position, Point::new(9 * UNIT, 0));
}

#[test]
fn the_actor_stops_once_within_tolerance() {
    let rule = walled_world();
    let target = Point::new(10 * UNIT, 0);
    let mut position = Point::new(0, 0);
    for _ in 0..10 {
        position = rule.step(position, target, false);
    }
    assert_eq!(position, Point::new(10 * UNIT, 0));
    position = rule.step(position, target, false);
    assert_eq!(position, Point::new(10 * UNIT, 0));
}

#[test]
fn a_target_at_exactly_the_tolerance_is_reached() {
    let rule = walled_world();
    let position = Point::new(0, 0);
    assert_eq!(rule.movement(position, Point::new(500, 0)), Offset::zero());
    assert_eq!(rule.step(position, Point::new(500, 0), false), position);
    assert_eq!(rule.movement(position, Point::new(300, 400)), Offset::zero());
    assert_eq!(rule.movement(position, Point::new(501, 0)), Offset { dx: 1000, dy: 0 });
}

#[test]
fn the_actor_overshoots_a_target_closer_than_its_speed() {
    let rule = walled_world();
    let next = rule.step(Point::new(0, 0), Point::new(600, 0), false);
    assert_eq!(next, Point::new(1000, 0));
}

#[test]
fn movement_heads_the_other_way_for_a_target_behind() {
    let rule = walled_world();
    let position = Point::new(2 * UNIT, 0);
    assert_eq!(rule.movement(position, Point::new(-3 * UNIT, 0)), Offset { dx: -1000, dy: 0 });
    assert_eq!(rule.step(position, Point::new(-3 * UNIT, 0), false), Point::new(UNIT, 0));
}

#[test]
fn a_frozen_actor_stays() {
    let rule = walled_world();
    let position = Point::new(0, 0);
    let target = Point::new(10 * UNIT, 0);
    assert_eq!(rule.step(position, target, true), position);
    assert_eq!(rule.movement(position, target), Offset { dx: 1000, dy: 0 });
}

#[test]
fn movement_splits_the_speed_along_the_direction() {
    let rule = walled_world();
    let position = Point::new(0, 0);
    assert_eq!(rule.movement(position, Point::new(3000, 4000)), Offset { dx: 600, dy: 800 });
    assert_eq!(rule.movement(position, Point::new(-3000, 4000)), Offset { dx: -600, dy: 800 });
    assert_eq!(rule.movement(position, Point::new(3000, -4000)), Offset { dx: 600, dy: -800 });
    assert_eq!(rule.movement(position, Point::new(0, 7000)), Offset { dx: 0, dy: 1000 });
}

#[test]
fn movement_rounds_each_share_toward_zero() {
    let rule = walled_world();
    let position = Point::new(0, 0);
    assert_eq!(rule.movement(position, Point::new(5000, 5000)), Offset { dx: 707, dy: 707 });
    assert_eq!(rule.movement(position, Point::new(-5000, -5000)), Offset { dx: -707, dy: -707 });
    assert_eq!(rule.movement(position, Point::new(1000, 2000)), Offset { dx: 447, dy: 894 });
}

#[test]
fn a_step_moves_along_the_first_axis_only() {
    let rule = walled_world();
    let next = rule.step(Point::new(0, 0), Point::new(3000, 4000), false);
    assert_eq!(next, Point::new(600, 0));
}

#[test]
fn the_wall_rejects_the_whole_displacement() {
    let rule = MovementRule::new(1000, 2500, 500);
    let target = Point::new(10_000, 0);
    let mut position = Point::new(0, 0);
    position = rule.step(position, target, false);
    position = rule.step(position, target, false);
    assert_eq!(position, Point::new(2000, 0));
    position = rule.step(position, target, false);
    assert_eq!(position, Point::new(2000, 0));
}

#[test]
fn a_position_on_the_wall_is_inside() {
    let rule = MovementRule::new(1000, 3000, 500);
    let next = rule.step(Point::new(2000, 0), Point::new(10_000, 0), false);
    assert_eq!(next, Point::new(3000, 0));
    let next = rule.step(Point::new(-2000, 0), Point::new(-10_000, 0), false);
    assert_eq!(next, Point::new(-3000, 0));
    assert!(rule.admits(3000));
    assert!(rule.admits(-3000));
    assert!(!rule.admits(3001));
    assert!(!rule.admits(-3001));
}

#[test]
fn the_wall_along_the_second_axis_holds_the_actor_too() {
    let rule = MovementRule::new(1000, 1000, 500);
    let position = Point::new(0, 900);
    let next = rule.step(position, Point::new(3000, 4900), false);
    assert_eq!(rule.movement(position, Point::new(3000, 4900)), Offset { dx: 600, dy: 800 });
    assert_eq!(next, position);
}

#[test]
fn an_actor_outside_the_world_can_walk_back_in() {
    let rule = MovementRule::new(1000, 2000, 500);
    let outside = Point::new(2500, 0);
    assert_eq!(rule.step(outside, Point::new(9000, 0), false), outside);
    assert_eq!(rule.step(outside, Point::new(0, 0), false), Point::new(1500, 0));
}

#[test]
fn equal_inputs_give_equal_steps() {
    let rule = walled_world();
    let position = Point::new(-12_345, 678);
    let target = Point::new(54_321, -876);
    let first = rule.step(position, target, false);
    let second = rule.step(position, target, false);
    assert_eq!(first, second);
    assert_eq!(rule.movement(position, target), rule.movement(position, target));
}

#[test]
fn movement_at_the_ends_of_the_coordinate_range() {
    let rule = MovementRule::new(u32::MAX, i32::MAX, 0);
    let low = Point::new(i32::MIN, i32::MIN);
    let high = Point::new(i32::MAX, i32::MAX);
    let movement = rule.movement(low, high);
    assert_eq!(movement, Offset { dx: 3_037_000_499, dy: 3_037_000_499 });
    assert_eq!(rule.step(low, high, false), Point::new(889_516_851, i32::MIN));
    let along = rule.movement(Point::new(i32::MIN, 0), Point::new(i32::MAX, 0));
    assert_eq!(along, Offset { dx: u32::MAX as i64, dy: 0 });
    assert_eq!(
        rule.step(Point::new(i32::MIN, 0), Point::new(i32::MAX, 0), false),
        Point::new(i32::MAX, 0)
    );
}

#[test]
fn zero_speed_goes_nowhere() {
    let rule = MovementRule::new(0, 100 * UNIT, 500);
    let position = Point::new(0, 0);
    assert_eq!(rule.movement(position, Point::new(9000, 9000)), Offset::zero());
    assert_eq!(rule.step(position, Point::new(9000, 9000), false), position);
}

#[test]
fn a_negative_bound_admits_nothing() {
    let rule = MovementRule::new(1000, -1, 500);
    let position = Point::new(0, 0);
    assert!(!rule.admits(0));
    assert_eq!(rule.step(position, Point::new(9000, 0), false), position);
}

#[test]
fn origin_and_zero() {
    assert_eq!(Point::origin(), Point::new(0, 0));
    assert_eq!(Offset::zero(), Offset { dx: 0, dy: 0 });
}

#[test]
fn a_walker_far_from_its_target_takes_a_step_along_the_first_axis() {
    let rule = walled_world();
    assert_eq!(LANE, -50 * UNIT);
    let walk = rule.move_local(Point::new(0, LANE), Point::new(10 * UNIT, LANE), true);
    assert_eq!(walk, Walk::Stepped(Point::new(UNIT, LANE)));
    let walk = rule.move_local(Point::new(0, 0), Point::new(3000, 4000), true);
    assert_eq!(walk, Walk::Stepped(Point::new(600, 0)));
    let walk = rule.move_local(Point::new(0, 0), Point::new(-3000, 4000), true);
    assert_eq!(walk, Walk::Stepped(Point::new(-600, 0)));
}

#[test]
fn a_walker_within_one_step_comes_to_rest_on_the_lane() {
    let rule = walled_world();
    let walk = rule.move_local(Point::new(0, 0), Point::new(1000, 0), true);
    assert_eq!(walk, Walk::Arrived(Point::new(1000, LANE)));
    let walk = rule.move_local(Point::new(0, 0), Point::new(600, 800), true);
    assert_eq!(walk, Walk::Arrived(Point::new(600, LANE)));
    let walk = rule.move_local(Point::new(0, 0), Point::new(1, 0), true);
    assert_eq!(walk, Walk::Arrived(Point::new(1, LANE)));
    let walk = rule.move_local(Point::new(0, 0), Point::new(1001, 0), true);
    assert_eq!(walk, Walk::Stepped(Point::new(1000, 0)));
}

#[test]
fn a_walker_stops_on_its_target_at_the_wall_and_when_told() {
    let rule = MovementRule::new(1000, 2500, 500);
    let here = Point::new(2000, 0);
    assert_eq!(rule.move_local(here, here, true), Walk::Stopped);
    assert_eq!(rule.move_local(here, Point::new(9000, 0), true), Walk::Stopped);
    assert_eq!(rule.move_local(here, Point::new(-9000, 0), false), Walk::Stopped);
    assert_eq!(rule.move_local(here, Point::new(-9000, 0), true), Walk::Stepped(Point::new(1000, 0)));
    let high = Point::new(0, 2000);
    assert_eq!(rule.move_local(high, Point::new(0, 9000), true), Walk::Stopped);
}

#[test]
fn a_walker_ignores_the_tolerance() {
    let rule = MovementRule::new(100, 100 * UNIT, 500);
    let walk = rule.move_local(Point::new(0, 0), Point::new(300, 0), true);
    assert_eq!(walk, Walk::Stepped(Point::new(100, 0)));
    assert_eq!(rule.step(Point::new(0, 0), Point::new(300, 0), false), Point::new(0, 0));
}
