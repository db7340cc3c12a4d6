//! The displacement law shared by prediction and replay.
//!
//! An actor heads for its target at a fixed speed per tick. The law reads no
//! clock and no random source: the next position is a function of the
//! arguments alone, which is what makes a replay reproduce a prediction.

use vstd::prelude::*;
use crate::point::{Offset, Point};
use crate::root::{
    floor_sqrt, isqrt, lemma_floor_sqrt, lemma_floor_sqrt_is, lemma_square_monotonic,
};

verus! {

/// Sub-units an actor covers per tick unless configured otherwise.
pub const PLAYER_SPEED: u32 = 1000;

/// Distance to the target, in sub-units, within which an actor stays put
/// unless configured otherwise.
pub const TOLERANCE: u32 = 500;

/// The second coordinate of the lane on which an actor that walks on its own
/// comes to rest, in sub-units.
pub const LANE: i32 = -50_000;

/// What a tick does to an actor that walks on its own.
#[derive(Clone, Copy, Debug, PartialEq, Eq, Structural)]
pub enum Walk {
    /// The actor stays where it is and is no longer on its way.
    Stopped,
    /// The actor has taken a step to the given place and is still on its way.
    Stepped(Point),
    /// The actor has come to rest at the given place.
    Arrived(Point),
}

/// The parameters of the displacement law, all in sub-units.
#[derive(Clone, Copy, Debug, PartialEq, Eq, Structural)]
pub struct MovementRule {
    /// Length of one tick's displacement.
    pub speed: u32,
    /// Largest magnitude a coordinate may reach by moving.
    pub bound: i32,
    /// Distance to the target at which the actor no longer moves.
    pub tolerance: u32,
}

/// The squared distance between two points.
pub open spec fn distance_sq(from: Point, to: Point) -> int {
    (to.x - from.x) * (to.x - from.x) + (to.y - from.y) * (to.y - from.y)
}

/// One coordinate of the vector of length `speed` along a direction, rounded
/// toward zero: `d` is that coordinate of the direction and `len_sq` the
/// direction's squared length. In magnitude this is `|d| * speed` divided by
/// the direction's length.
pub open spec fn axis_share(d: int, len_sq: int, speed: int) -> int {
    let m = floor_sqrt(((d * d) * (speed * speed)) / len_sq);
    if d < 0 {
        -m
    } else {
        m
    }
}

impl MovementRule {
    /// The target counts as reached from `position`.
    pub open spec fn arrived(self, position: Point, target: Point) -> bool {
        distance_sq(position, target) <= self.tolerance * self.tolerance
    }

    /// `speed` sub-units along the direction from `position` to `target`,
    /// two different points.
    pub open spec fn spec_heading(self, position: Point, target: Point) -> Offset {
        Offset {
            dx: axis_share(
                target.x - position.x,
                distance_sq(position, target),
                self.speed as int,
            ) as i64,
            dy: axis_share(
                target.y - position.y,
                distance_sq(position, target),
                self.speed as int,
            ) as i64,
        }
    }

    /// The displacement that one tick asks for: none once the target is
    /// reached, else `speed` sub-units along the direction to the target.
    pub open spec fn spec_movement(self, position: Point, target: Point) -> Offset {
        if self.arrived(position, target) {
            Offset::spec_zero()
        } else {
            self.spec_heading(position, target)
        }
    }

    /// What a tick does to an actor that walks on its own toward `target`.
    ///
    /// An actor that is not on its way, or stands on its target, stops. So
    /// does one whose step would take a coordinate out of the world. An actor
    /// farther from its target than one step takes the step, along the first
    /// axis only. An actor within one step comes to rest below its target,
    /// on the lane.
    pub open spec fn spec_walk(self, position: Point, target: Point, moving: bool) -> Walk {
        let heading = self.spec_heading(position, target);
        if !moving || distance_sq(position, target) == 0 {
            Walk::Stopped
        } else if !(self.within(position.x + heading.dx) && self.within(position.y + heading.dy)) {
            Walk::Stopped
        } else if self.speed * self.speed < distance_sq(position, target) {
            Walk::Stepped(Point { x: (position.x + heading.dx) as i32, y: position.y })
        } else {
            Walk::Arrived(Point { x: target.x, y: LANE })
        }
    }

    /// The coordinate `v` lies inside the world.
    pub open spec fn within(self, v: int) -> bool {
        -self.bound <= v <= self.bound
    }

    /// Both coordinates of `p` lie inside the world.
    pub open spec fn contains(self, p: Point) -> bool {
        self.within(p.x as int) && self.within(p.y as int)
    }

    /// The position after one tick.
    ///
    /// A frozen actor stays. Otherwise the displacement is admitted only if it
    /// would leave both coordinates inside the world; an admitted displacement
    /// moves the actor along the first axis only.
    pub open spec fn spec_step(self, position: Point, target: Point, frozen: bool) -> Point {
        let movement = self.spec_movement(position, target);
        if !frozen && self.within(position.x + movement.dx) && self.within(
            position.y + movement.dy,
        ) {
            Point { x: (position.x + movement.dx) as i32, y: position.y }
        } else {
            position
        }
    }

    /// A rule with the given parameters.
    pub fn new(speed: u32, bound: i32, tolerance: u32) -> (rule: Self)
        ensures
            rule == (MovementRule { speed, bound, tolerance }),
    {
        MovementRule { speed, bound, tolerance }
    }

    /// The displacement that one tick asks for from `position` toward `target`.
    pub fn movement(&self, position: Point, target: Point) -> (movement: Offset)
        ensures
            movement == self.spec_movement(position, target),
            -self.speed <= movement.dx <= self.speed,
            -self.speed <= movement.dy <= self.speed,
    {
        let dx: i64 = target.x as i64 - position.x as i64;
        let dy: i64 = target.y as i64 - position.y as i64;
        let len_sq: u128 = square(dx) + square(dy);
        let tolerance: u128 = self.tolerance as u128;
        assert(tolerance * tolerance <= 0xFFFF_FFFF * 0xFFFF_FFFF) by (nonlinear_arith)
            requires
                0 <= tolerance <= 0xFFFF_FFFF,
        ;
        if len_sq <= tolerance * tolerance {
            Offset::zero()
        } else {
            Offset {
                dx: share(dx, len_sq, self.speed),
                dy: share(dy, len_sq, self.speed),
            }
        }
    }

    /// What a tick does to an actor that walks on its own from `position`
    /// toward `target`, with no server to correct it.
    pub fn move_local(&self, position: Point, target: Point, moving: bool) -> (walk: Walk)
        ensures
            walk == self.spec_walk(position, target, moving),
    {
        let dx: i64 = target.x as i64 - position.x as i64;
        let dy: i64 = target.y as i64 - position.y as i64;
        let len_sq: u128 = square(dx) + square(dy);
        if !moving || len_sq == 0 {
            return Walk::Stopped;
        }
        let heading = Offset {
            dx: share(dx, len_sq, self.speed),
            dy: share(dy, len_sq, self.speed),
        };
        let x: i64 = position.x as i64 + heading.dx;
        let y: i64 = position.y as i64 + heading.dy;
        if !(self.admits(x) && self.admits(y)) {
            return Walk::Stopped;
        }
        let speed: u128 = self.speed as u128;
        assert(speed * speed <= 0xFFFF_FFFF * 0xFFFF_FFFF) by (nonlinear_arith)
            requires
                0 <= speed <= 0xFFFF_FFFF,
        ;
        if speed * speed < len_sq {
            Walk::Stepped(Point { x: x as i32, y: position.y })
        } else {
            Walk::Arrived(Point { x: target.x, y: LANE })
        }
    }

    /// The position after one tick from `position` toward `target`.
    pub fn step(&self, position: Point, target: Point, frozen: bool) -> (next: Point)
        ensures
            next == self.spec_step(position, target, frozen),
    {
        let movement = self.movement(position, target);
        let x: i64 = position.x as i64 + movement.dx;
        let y: i64 = position.y as i64 + movement.dy;
        if !frozen && self.admits(x) && self.admits(y) {
            Point { x: x as i32, y: position.y }
        } else {
            position
        }
    }

    /// Whether the coordinate `v` lies inside the world.
    pub fn admits(&self, v: i64) -> (inside: bool)
        ensures
            inside == self.within(v as int),
    {
        -(self.bound as i64) <= v && v <= self.bound as i64
    }
}

/// The square of a coordinate difference.
fn square(d: i64) -> (sq: u128)
    requires
        -0xFFFF_FFFF <= d <= 0xFFFF_FFFF,
    ensures
        sq == d * d,
        sq <= 0xFFFF_FFFF * 0xFFFF_FFFF,
{
    let a: u128 = if d < 0 {
        (-d) as u128
    } else {
        d as u128
    };
    assert(a * a == d * d && a * a <= 0xFFFF_FFFF * 0xFFFF_FFFF) by (nonlinear_arith)
        requires
            a == d || a == -d,
            0 <= a <= 0xFFFF_FFFF,
    ;
    a * a
}

/// One coordinate of the displacement of length `speed` along a direction.
fn share(d: i64, len_sq: u128, speed: u32) -> (part: i64)
    requires
        -0xFFFF_FFFF <= d <= 0xFFFF_FFFF,
        0 < len_sq,
        d * d <= len_sq,
    ensures
        part == axis_share(d as int, len_sq as int, speed as int),
        -speed <= part <= speed,
{
    let d_sq: u128 = square(d);
    let s: u128 = speed as u128;
    assert(s * s <= 0xFFFF_FFFF * 0xFFFF_FFFF) by (nonlinear_arith)
        requires
            0 <= s <= 0xFFFF_FFFF,
    ;
    let s_sq: u128 = s * s;
    assert(d_sq * s_sq <= (0xFFFF_FFFF * 0xFFFF_FFFF) * (0xFFFF_FFFF * 0xFFFF_FFFF))
        by (nonlinear_arith)
        requires
            0 <= d_sq <= 0xFFFF_FFFF * 0xFFFF_FFFF,
            0 <= s_sq <= 0xFFFF_FFFF * 0xFFFF_FFFF,
    ;
    let quotient: u128 = (d_sq * s_sq) / len_sq;
    let m: u64 = isqrt(quotient);
    proof {
        assert(quotient <= s_sq) by (nonlinear_arith)
            requires
                quotient == (d_sq * s_sq) / (len_sq as int),
                0 < len_sq,
                0 <= d_sq <= len_sq,
                0 <= s_sq,
        ;
        if m > s {
            lemma_square_monotonic(s as int + 1, m as int);
            assert((s + 1) * (s + 1) > s * s) by (nonlinear_arith)
                requires
                    0 <= s,
            ;
        }
        assert(m <= s);
    }
    if d < 0 {
        -(m as i64)
    } else {
        m as i64
    }
}

/// What `axis_share` is: in magnitude, the largest whole number `m` with
/// `m * length <= |d| * speed`, where `length` is the length of the
/// direction; in sign, that of `d`. It never exceeds the speed.
pub proof fn lemma_axis_share_rounds_down(d: int, len_sq: int, speed: int)
    requires
        0 < len_sq,
        d * d <= len_sq,
        0 <= speed,
    ensures
        ({
            let m = if d < 0 {
                -axis_share(d, len_sq, speed)
            } else {
                axis_share(d, len_sq, speed)
            };
            &&& 0 <= m <= speed
            &&& (m * m) * len_sq <= (d * d) * (speed * speed)
            &&& (d * d) * (speed * speed) < ((m + 1) * (m + 1)) * len_sq
        }),
{
    let product = (d * d) * (speed * speed);
    assert(0 <= product) by (nonlinear_arith)
        requires
            product == (d * d) * (speed * speed),
    ;
    let q = product / len_sq;
    assert(0 <= q && q * len_sq <= product < (q + 1) * len_sq) by (nonlinear_arith)
        requires
            q == product / len_sq,
            0 < len_sq,
            0 <= product,
    ;
    lemma_floor_sqrt(q);
    let m = floor_sqrt(q);
    assert((m * m) * len_sq <= q * len_sq) by (nonlinear_arith)
        requires
            m * m <= q,
            0 < len_sq,
    ;
    assert((q + 1) * len_sq <= ((m + 1) * (m + 1)) * len_sq) by (nonlinear_arith)
        requires
            q + 1 <= (m + 1) * (m + 1),
            0 < len_sq,
    ;
    assert(m <= speed) by {
        if m > speed {
            lemma_square_monotonic(speed + 1, m);
            assert((speed + 1) * (speed + 1) > speed * speed) by (nonlinear_arith)
                requires
                    0 <= speed,
            ;
            assert(product <= len_sq * (speed * speed)) by (nonlinear_arith)
                requires
                    product == (d * d) * (speed * speed),
                    d * d <= len_sq,
                    0 <= speed * speed,
            ;
            assert((m * m) * len_sq > len_sq * (speed * speed)) by (nonlinear_arith)
                requires
                    m * m > speed * speed,
                    0 < len_sq,
            ;
        }
    }
}

/// A direction that lies along one axis gives the whole speed to that axis.
pub proof fn lemma_axis_share_whole(d: int, speed: int)
    requires
        d != 0,
        0 <= speed,
    ensures
        axis_share(d, d * d, speed) == if d < 0 {
            -speed
        } else {
            speed
        },
        axis_share(0, d * d, speed) == 0,
{
    let len_sq = d * d;
    assert(len_sq > 0) by (nonlinear_arith)
        requires
            d != 0,
            len_sq == d * d,
    ;
    assert((len_sq * (speed * speed)) / len_sq == speed * speed) by (nonlinear_arith)
        requires
            len_sq > 0,
    ;
    assert((speed + 1) * (speed + 1) > speed * speed) by (nonlinear_arith)
        requires
            0 <= speed,
    ;
    lemma_floor_sqrt_is(speed * speed, speed);
    assert(((0int * 0int) * (speed * speed)) / len_sq == 0) by (nonlinear_arith)
        requires
            len_sq > 0,
    ;
    lemma_floor_sqrt_is(0, 0);
}

/// Along the first axis, an actor that has not reached its target asks for a
/// displacement of exactly `speed` toward it.
pub proof fn lemma_movement_along_axis(rule: MovementRule, position: Point, target: Point)
    requires
        target.y == position.y,
        !rule.arrived(position, target),
    ensures
        rule.spec_movement(position, target) == (Offset {
            dx: if target.x < position.x {
                (-(rule.speed as int)) as i64
            } else {
                rule.speed as i64
            },
            dy: 0,
        }),
{
    let d = target.x - position.x;
    assert(distance_sq(position, target) == d * d);
    assert(d != 0) by {
        if d == 0 {
            assert(d * d == 0);
            assert(rule.tolerance * rule.tolerance >= 0) by (nonlinear_arith);
        }
    }
    lemma_axis_share_whole(d, rule.speed as int);
}

/// A step never moves an actor along the second axis, and leaves an actor that
/// does move inside the world along the first.
pub proof fn lemma_step_moves_inside(
    rule: MovementRule,
    position: Point,
    target: Point,
    frozen: bool,
)
    ensures
        rule.spec_step(position, target, frozen).y == position.y,
        rule.spec_step(position, target, frozen) == position || rule.within(
            rule.spec_step(position, target, frozen).x as int,
        ),
        frozen ==> rule.spec_step(position, target, frozen) == position,
        rule.arrived(position, target) ==> rule.spec_step(position, target, frozen) == position,
{
}

/// A step keeps an actor inside the world.
pub proof fn lemma_step_contained(rule: MovementRule, position: Point, target: Point, frozen: bool)
    requires
        rule.contains(position),
    ensures
        rule.contains(rule.spec_step(position, target, frozen)),
{
}

} // verus!
