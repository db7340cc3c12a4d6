//! Replay: playing a span of ticks over a log of intents.
//!
//! Prediction and reconciliation are the same computation. What the laws of
//! this module say of a replay therefore holds of both.

use vstd::prelude::*;
use crate::input::{
    lemma_prune_idempotent, lemma_prune_keeps_lookup, target_at, unacknowledged, PlayerInput,
};
use crate::movement::{lemma_step_contained, MovementRule};
use crate::point::Point;

verus! {

/// Where an actor stands and where it is heading.
#[derive(Clone, Copy, Debug, PartialEq, Eq, Structural)]
pub struct Course {
    pub position: Point,
    pub target: Point,
}

/// The course of an actor after the ticks `from` to `to`, both included, have
/// been played from `course`.
///
/// At each tick the intent recorded for that tick, if there is one, becomes
/// the target; then the actor takes one step of the displacement law. A tick
/// without an intent keeps the target that was in force before it.
pub open spec fn replay(
    rule: MovementRule,
    intents: Seq<PlayerInput>,
    course: Course,
    from: int,
    to: int,
    frozen: bool,
) -> Course
    decreases to - from + 1,
{
    if from > to {
        course
    } else {
        let target = match target_at(intents, from) {
            Some(target) => target,
            None => course.target,
        };
        let position = rule.spec_step(course.position, target, frozen);
        replay(rule, intents, Course { position, target }, from + 1, to, frozen)
    }
}

/// The positions that an actor passes through while the ticks `from` to `to`
/// are played from `course`: one position per tick, in order.
pub open spec fn trajectory(
    rule: MovementRule,
    intents: Seq<PlayerInput>,
    course: Course,
    from: int,
    to: int,
    frozen: bool,
) -> Seq<Point>
    decreases to - from + 1,
{
    if from > to {
        Seq::empty()
    } else {
        let next = replay(rule, intents, course, from, from, frozen);
        seq![next.position] + trajectory(rule, intents, next, from + 1, to, frozen)
    }
}

/// What a movement intent commands, apart from who issued it: its tick and
/// its target.
pub open spec fn commands(intents: Seq<PlayerInput>) -> Seq<(u64, Point)> {
    intents.map_values(|input: PlayerInput| (input.tick, input.target))
}

/// The course on which a reconciliation leaves the local actor: the server's
/// position `pos` at `server_tick`, with the ticks up to `local_tick` played
/// again over the intents that the server has not acknowledged.
pub open spec fn reconciled(
    rule: MovementRule,
    intents: Seq<PlayerInput>,
    target: Point,
    pos: Point,
    server_tick: u64,
    local_tick: u64,
    frozen: bool,
) -> Course {
    replay(
        rule,
        unacknowledged(intents, server_tick),
        Course { position: pos, target },
        server_tick as int,
        local_tick as int,
        frozen,
    )
}

/// Playing no tick changes nothing, and playing one tick is one step toward
/// the target in force at that tick.
pub proof fn lemma_replay_one_tick(
    rule: MovementRule,
    intents: Seq<PlayerInput>,
    course: Course,
    tick: int,
    frozen: bool,
)
    ensures
        replay(rule, intents, course, tick, tick - 1, frozen) == course,
        replay(rule, intents, course, tick, tick, frozen).target == match target_at(
            intents,
            tick,
        ) {
            Some(target) => target,
            None => course.target,
        },
        replay(rule, intents, course, tick, tick, frozen).position == rule.spec_step(
            course.position,
            replay(rule, intents, course, tick, tick, frozen).target,
            frozen,
        ),
{
    let target = match target_at(intents, tick) {
        Some(target) => target,
        None => course.target,
    };
    let next = Course { position: rule.spec_step(course.position, target, frozen), target };
    assert(replay(rule, intents, next, tick + 1, tick, frozen) == next);
}

/// Playing the ticks `from` to `to` in one go gives the same course as
/// playing them up to `mid` and then going on from there.
pub proof fn lemma_replay_split(
    rule: MovementRule,
    intents: Seq<PlayerInput>,
    course: Course,
    from: int,
    mid: int,
    to: int,
    frozen: bool,
)
    requires
        from - 1 <= mid <= to,
    ensures
        replay(rule, intents, course, from, to, frozen) == replay(
            rule,
            intents,
            replay(rule, intents, course, from, mid, frozen),
            mid + 1,
            to,
            frozen,
        ),
    decreases mid - from + 1,
{
    if from <= mid {
        let target = match target_at(intents, from) {
            Some(target) => target,
            None => course.target,
        };
        let next = Course { position: rule.spec_step(course.position, target, frozen), target };
        lemma_replay_split(rule, intents, next, from + 1, mid, to, frozen);
    }
}

/// The course that a replay ends on, and every position on the way, depend
/// on the log only through what each tick of the window finds in it. Two
/// logs that answer alike give the same course and the same positions.
pub proof fn lemma_replay_determined_by_lookups(
    rule: MovementRule,
    first: Seq<PlayerInput>,
    second: Seq<PlayerInput>,
    course: Course,
    from: int,
    to: int,
    frozen: bool,
)
    requires
        forall|tick: int| from <= tick <= to ==> target_at(first, tick) == target_at(second, tick),
    ensures
        replay(rule, first, course, from, to, frozen) == replay(
            rule,
            second,
            course,
            from,
            to,
            frozen,
        ),
        trajectory(rule, first, course, from, to, frozen) == trajectory(
            rule,
            second,
            course,
            from,
            to,
            frozen,
        ),
    decreases to - from + 1,
{
    if from <= to {
        let target = match target_at(first, from) {
            Some(target) => target,
            None => course.target,
        };
        let next = Course { position: rule.spec_step(course.position, target, frozen), target };
        lemma_replay_one_tick(rule, first, course, from, frozen);
        lemma_replay_one_tick(rule, second, course, from, frozen);
        lemma_replay_determined_by_lookups(rule, first, second, next, from + 1, to, frozen);
    }
}

/// Two logs with the same ticks and targets, in the same order, answer every
/// tick alike.
pub proof fn lemma_commands_decide_lookup(
    first: Seq<PlayerInput>,
    second: Seq<PlayerInput>,
    tick: int,
)
    requires
        commands(first) == commands(second),
    ensures
        target_at(first, tick) == target_at(second, tick),
    decreases first.len(),
{
    assert(first.len() == commands(first).len());
    assert(second.len() == commands(second).len());
    if first.len() > 0 {
        let n = first.len() - 1;
        assert(commands(first)[n] == (first[n].tick, first[n].target));
        assert(commands(second)[n] == (second[n].tick, second[n].target));
        assert(commands(first.drop_last()) =~= commands(first).drop_last());
        assert(commands(second.drop_last()) =~= commands(second).drop_last());
        lemma_commands_decide_lookup(first.drop_last(), second.drop_last(), tick);
    }
}

/// From one start position and target, two runs over the same sequence of
/// ticks and targets pass through the same positions and end on the same
/// course.
pub proof fn lemma_runs_agree(
    rule: MovementRule,
    first: Seq<PlayerInput>,
    second: Seq<PlayerInput>,
    course: Course,
    from: int,
    to: int,
    frozen: bool,
)
    requires
        commands(first) == commands(second),
    ensures
        trajectory(rule, first, course, from, to, frozen) == trajectory(
            rule,
            second,
            course,
            from,
            to,
            frozen,
        ),
        replay(rule, first, course, from, to, frozen) == replay(
            rule,
            second,
            course,
            from,
            to,
            frozen,
        ),
{
    assert forall|tick: int| from <= tick <= to implies target_at(first, tick) == target_at(
        second,
        tick,
    ) by {
        lemma_commands_decide_lookup(first, second, tick);
    }
    lemma_replay_determined_by_lookups(rule, first, second, course, from, to, frozen);
}

/// A trajectory holds one position per tick played, and its last position is
/// where the replay ends.
pub proof fn lemma_trajectory_ends_at_replay(
    rule: MovementRule,
    intents: Seq<PlayerInput>,
    course: Course,
    from: int,
    to: int,
    frozen: bool,
)
    requires
        from <= to,
    ensures
        trajectory(rule, intents, course, from, to, frozen).len() == to - from + 1,
        trajectory(rule, intents, course, from, to, frozen).last() == replay(
            rule,
            intents,
            course,
            from,
            to,
            frozen,
        ).position,
    decreases to - from,
{
    let next = replay(rule, intents, course, from, from, frozen);
    lemma_replay_split(rule, intents, course, from, from, to, frozen);
    let rest = trajectory(rule, intents, next, from + 1, to, frozen);
    if from < to {
        lemma_trajectory_ends_at_replay(rule, intents, next, from + 1, to, frozen);
        assert((seq![next.position] + rest).last() == rest.last());
    } else {
        assert(rest =~= Seq::<Point>::empty());
        assert(replay(rule, intents, next, from + 1, to, frozen) == next);
    }
}

/// A replay that starts inside the world passes only through positions
/// inside the world, and ends inside it.
pub proof fn lemma_replay_contained(
    rule: MovementRule,
    intents: Seq<PlayerInput>,
    course: Course,
    from: int,
    to: int,
    frozen: bool,
)
    requires
        rule.contains(course.position),
    ensures
        rule.contains(replay(rule, intents, course, from, to, frozen).position),
        forall|i: int|
            0 <= i < trajectory(rule, intents, course, from, to, frozen).len() ==> rule.contains(
                #[trigger] trajectory(rule, intents, course, from, to, frozen)[i],
            ),
    decreases to - from + 1,
{
    if from <= to {
        let target = match target_at(intents, from) {
            Some(target) => target,
            None => course.target,
        };
        let next = Course { position: rule.spec_step(course.position, target, frozen), target };
        lemma_step_contained(rule, course.position, target, frozen);
        lemma_replay_one_tick(rule, intents, course, from, frozen);
        lemma_replay_contained(rule, intents, next, from + 1, to, frozen);
        let rest = trajectory(rule, intents, next, from + 1, to, frozen);
        assert forall|i: int|
            0 <= i < trajectory(
                rule,
                intents,
                course,
                from,
                to,
                frozen,
            ).len() implies rule.contains(
            #[trigger] trajectory(rule, intents, course, from, to, frozen)[i],
        ) by {
            if i > 0 {
                assert(trajectory(rule, intents, course, from, to, frozen)[i] == rest[i - 1]);
            }
        }
    }
}

/// While the clock is held, a replay moves nothing: the actor ends where it
/// started.
pub proof fn lemma_replay_frozen(
    rule: MovementRule,
    intents: Seq<PlayerInput>,
    course: Course,
    from: int,
    to: int,
)
    ensures
        replay(rule, intents, course, from, to, true).position == course.position,
    decreases to - from + 1,
{
    if from <= to {
        let target = match target_at(intents, from) {
            Some(target) => target,
            None => course.target,
        };
        let next = Course { position: course.position, target };
        lemma_replay_frozen(rule, intents, next, from + 1, to);
    }
}

/// When the first tick played carries an intent, the target that was in force
/// before has no part in the outcome.
pub proof fn lemma_replay_first_intent_decides(
    rule: MovementRule,
    intents: Seq<PlayerInput>,
    position: Point,
    one: Point,
    other: Point,
    from: int,
    to: int,
    frozen: bool,
)
    requires
        from <= to,
        target_at(intents, from) is Some,
    ensures
        replay(rule, intents, Course { position, target: one }, from, to, frozen) == replay(
            rule,
            intents,
            Course { position, target: other },
            from,
            to,
            frozen,
        ),
{
}

/// A reconciliation depends on the server's position, on the
/// intents issued at the server's tick or later, on the target in force, on
/// the two ticks and on whether the clock is held, and on nothing else.
/// Neither the position before it nor an intent that the server has
/// acknowledged has any part in it: the outcome is the replay over the log
/// as it stood, pruned or not.
pub proof fn lemma_reconciliation_pure(
    rule: MovementRule,
    intents: Seq<PlayerInput>,
    target: Point,
    pos: Point,
    server_tick: u64,
    local_tick: u64,
    frozen: bool,
)
    ensures
        reconciled(rule, intents, target, pos, server_tick, local_tick, frozen) == replay(
            rule,
            intents,
            Course { position: pos, target },
            server_tick as int,
            local_tick as int,
            frozen,
        ),
        server_tick > local_tick ==> reconciled(
            rule,
            intents,
            target,
            pos,
            server_tick,
            local_tick,
            frozen,
        ) == (Course { position: pos, target }),
{
    assert forall|tick: int| server_tick <= tick <= local_tick implies target_at(
        unacknowledged(intents, server_tick),
        tick,
    ) == target_at(intents, tick) by {
        lemma_prune_keeps_lookup(intents, server_tick, tick);
    }
    lemma_replay_determined_by_lookups(
        rule,
        unacknowledged(intents, server_tick),
        intents,
        Course { position: pos, target },
        server_tick as int,
        local_tick as int,
        frozen,
    );
}

/// Two logs that hold the same unacknowledged intents lead a
/// reconciliation to the same course, whatever else they hold.
pub proof fn lemma_reconciliation_reads_pending_only(
    rule: MovementRule,
    first: Seq<PlayerInput>,
    second: Seq<PlayerInput>,
    target: Point,
    pos: Point,
    server_tick: u64,
    local_tick: u64,
    frozen: bool,
)
    requires
        unacknowledged(first, server_tick) == unacknowledged(second, server_tick),
    ensures
        reconciled(rule, first, target, pos, server_tick, local_tick, frozen) == reconciled(
            rule,
            second,
            target,
            pos,
            server_tick,
            local_tick,
            frozen,
        ),
{
}

/// Reconciling a second time against the same snapshot changes
/// nothing, provided that the server is ahead of the clock or the server's
/// tick carries an intent.
pub proof fn lemma_reconciliation_repeatable(
    rule: MovementRule,
    intents: Seq<PlayerInput>,
    target: Point,
    pos: Point,
    server_tick: u64,
    local_tick: u64,
    frozen: bool,
)
    requires
        server_tick > local_tick || target_at(intents, server_tick as int) is Some,
    ensures
        reconciled(
            rule,
            unacknowledged(intents, server_tick),
            reconciled(rule, intents, target, pos, server_tick, local_tick, frozen).target,
            pos,
            server_tick,
            local_tick,
            frozen,
        ) == reconciled(rule, intents, target, pos, server_tick, local_tick, frozen),
{
    lemma_prune_idempotent(intents, server_tick);
    if server_tick <= local_tick {
        lemma_prune_keeps_lookup(intents, server_tick, server_tick as int);
        lemma_replay_first_intent_decides(
            rule,
            unacknowledged(intents, server_tick),
            pos,
            target,
            reconciled(rule, intents, target, pos, server_tick, local_tick, frozen).target,
            server_tick as int,
            local_tick as int,
            frozen,
        );
    }
}

} // verus!
