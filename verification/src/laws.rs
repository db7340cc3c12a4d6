//! What holds of a session whatever happens to it.

use vstd::prelude::*;
use crate::dispatch::Event;
use crate::messages::{NetworkMessage, NewPos};
use crate::movement::lemma_step_contained;
use crate::point::Point;
use crate::input::{
    ascending, lemma_prune_keeps_ascending, lemma_prune_keeps_exactly,
    lemma_record_keeps_ascending, target_at, unacknowledged, PlayerInput,
};
use crate::movement::MovementRule;
use crate::player::PlayerView;
use crate::replay::{
    lemma_reconciliation_pure, lemma_replay_contained, lemma_replay_determined_by_lookups,
    lemma_replay_first_intent_decides, lemma_replay_one_tick, lemma_replay_split, replay, Course,
};
use crate::session::SessionView;

verus! {

impl SessionView {
    /// The local actor stands inside the world.
    pub open spec fn inside(self) -> bool {
        self.rule.contains(self.local.position)
    }

    /// The server's word keeps the local actor inside the world: every
    /// position that it gives the local actor lies inside.
    pub open spec fn admits_all(self, snapshots: Seq<NewPos>) -> bool {
        forall|i: int|
            0 <= i < snapshots.len() && snapshots[i].id == self.local.id ==> self.rule.contains(
                #[trigger] snapshots[i].pos,
            )
    }
}

/// The event cannot put the local actor outside the world by decree: where
/// the server states the local actor's position, the position lies inside,
/// and a new game is not started in a world too small to hold the origin.
pub open spec fn lawful(session: SessionView, event: Event) -> bool {
    match event {
        Event::Message(NetworkMessage::GameUpdate(snapshots)) => session.admits_all(snapshots@),
        Event::Message(NetworkMessage::NewGame(_)) => session.rule.bound >= 0,
        Event::Park(home) => session.rule.contains(home),
        _ => true,
    }
}

/// Every event of the run is lawful when it happens.
pub open spec fn lawful_run(session: SessionView, events: Seq<Event>) -> bool
    decreases events.len(),
{
    events.len() > 0 ==> lawful_run(session, events.drop_last()) && lawful(
        session.after_all(events.drop_last()),
        events.last(),
    )
}

/// No event breaks the rule that no two actors share an id.
pub proof fn lemma_event_keeps_wf(session: SessionView, event: Event)
    requires
        session.wf(),
    ensures
        session.after(event).wf(),
{
    match event {
        Event::Message(message) => {
            lemma_message_keeps(session, message);
        },
        Event::Disconnect(id) => {
            lemma_disconnect_keeps_wf(session, id);
        },
        _ => {},
    }
}

/// Forgetting a remote actor leaves the others distinct, and none of them has
/// the id that was forgotten.
pub proof fn lemma_disconnect_keeps_wf(session: SessionView, id: u128)
    requires
        session.wf(),
    ensures
        session.disconnected(id).wf(),
        !session.disconnected(id).known(id),
        session.disconnected(id).local == session.local,
        session.disconnected(id).rule == session.rule,
{
    let after = session.disconnected(id);
    if session.known(id) {
        let slot = session.slot(id);
        assert forall|i: int| 0 <= i < after.remotes.len() implies after.remotes[i].id != id
            && after.remotes[i].id != session.local.id by {
            if i < slot {
                assert(after.remotes[i] == session.remotes[i]);
            } else {
                assert(after.remotes[i] == session.remotes[i + 1]);
            }
        }
        assert forall|i: int, j: int| 0 <= i < j < after.remotes.len() implies after.remotes[i].id
            != after.remotes[j].id by {
            let a = if i < slot {
                i
            } else {
                i + 1
            };
            let b = if j < slot {
                j
            } else {
                j + 1
            };
            assert(after.remotes[i] == session.remotes[a]);
            assert(after.remotes[j] == session.remotes[b]);
        }
    }
}

/// The server's word on one actor keeps the actors distinct, changes the
/// local actor only if it is about the local actor, and leaves the local
/// actor inside the world if the word is lawful.
pub proof fn lemma_update_keeps(session: SessionView, snapshot: NewPos)
    requires
        session.wf(),
    ensures
        session.updated(snapshot).wf(),
        session.updated(snapshot).rule == session.rule,
        session.updated(snapshot).clock == session.clock,
        session.updated(snapshot).local.id == session.local.id,
        snapshot.id != session.local.id ==> session.updated(snapshot).local == session.local,
        session.inside() && (snapshot.id == session.local.id ==> session.rule.contains(
            snapshot.pos,
        )) ==> session.updated(snapshot).inside(),
{
    let after = session.updated(snapshot);
    if snapshot.id == session.local.id {
        if session.rule.contains(snapshot.pos) {
            lemma_replay_contained(
                session.rule,
                unacknowledged(session.local.pending_inputs, snapshot.tick),
                Course { position: snapshot.pos, target: session.local.target },
                snapshot.tick as int,
                session.clock.tick as int,
                session.clock.frozen(),
            );
        }
    } else if session.known(snapshot.id) {
        let slot = session.slot(snapshot.id);
        assert forall|i: int, j: int| 0 <= i < j < after.remotes.len() implies after.remotes[i].id
            != after.remotes[j].id by {
            assert(after.remotes[i].id == session.remotes[i].id);
            assert(after.remotes[j].id == session.remotes[j].id);
        }
        assert forall|i: int| 0 <= i < after.remotes.len() implies after.remotes[i].id
            != after.local.id by {
            assert(after.remotes[i].id == session.remotes[i].id);
        }
    } else {
        assert forall|i: int, j: int| 0 <= i < j < after.remotes.len() implies after.remotes[i].id
            != after.remotes[j].id by {
            if j < session.remotes.len() {
                assert(after.remotes[i] == session.remotes[i]);
                assert(after.remotes[j] == session.remotes[j]);
            } else {
                assert(after.remotes[i] == session.remotes[i]);
            }
        }
    }
}

/// The same, for the server's word on several actors.
pub proof fn lemma_updates_keep(session: SessionView, snapshots: Seq<NewPos>)
    requires
        session.wf(),
    ensures
        session.updated_all(snapshots).wf(),
        session.updated_all(snapshots).rule == session.rule,
        session.updated_all(snapshots).clock == session.clock,
        session.updated_all(snapshots).local.id == session.local.id,
        session.inside() && session.admits_all(snapshots) ==> session.updated_all(
            snapshots,
        ).inside(),
    decreases snapshots.len(),
{
    if snapshots.len() > 0 {
        let front = snapshots.drop_last();
        lemma_updates_keep(session, front);
        lemma_update_keeps(session.updated_all(front), snapshots.last());
        if session.inside() && session.admits_all(snapshots) {
            assert(session.admits_all(front)) by {
                assert forall|i: int|
                    0 <= i < front.len() && front[i].id
                        == session.local.id implies session.rule.contains(
                    #[trigger] front[i].pos,
                ) by {
                    assert(front[i] == snapshots[i]);
                }
            }
            assert(snapshots.last() == snapshots[snapshots.len() - 1]);
        }
    }
}

/// A message from the server keeps the actors distinct and the displacement
/// law as it is, and a lawful one leaves the local actor inside the world.
pub proof fn lemma_message_keeps(session: SessionView, message: NetworkMessage)
    requires
        session.wf(),
    ensures
        session.received(message).wf(),
        session.received(message).rule == session.rule,
        session.inside() && lawful(session, Event::Message(message)) ==> session.received(
            message,
        ).inside(),
{
    let after = session.received(message);
    match message {
        NetworkMessage::GameUpdate(snapshots) => {
            lemma_updates_keep(session, snapshots@);
        },
        NetworkMessage::NewGame(game) => {
            lemma_disconnect_keeps_wf(session, game.id);
            assert forall|i: int| 0 <= i < after.remotes.len() implies after.remotes[i].id
                != game.id by {
                if after.remotes[i].id == game.id {
                    assert(session.disconnected(game.id).known(game.id));
                }
            }
        },
        NetworkMessage::DamagePlayer(damage) => {
            if damage.id != session.local.id && session.known(damage.id) {
                assert forall|i: int| 0 <= i < after.remotes.len() implies after.remotes[i].id
                    == session.remotes[i].id by {}
            }
        },
        NetworkMessage::ScoreUpdate(score) => {
            if score.id != session.local.id && session.known(score.id) {
                assert forall|i: int| 0 <= i < after.remotes.len() implies after.remotes[i].id
                    == session.remotes[i].id by {}
            }
        },
        _ => {},
    }
}

/// One event at a time: a lawful event leaves a local actor that stood inside
/// the world inside the world.
pub proof fn lemma_event_keeps_inside(session: SessionView, event: Event)
    requires
        session.wf(),
        session.inside(),
        lawful(session, event),
    ensures
        session.after(event).inside(),
        session.after(event).rule == session.rule,
{
    match event {
        Event::Step => {
            lemma_step_contained(
                session.rule,
                session.local.position,
                session.local.target,
                session.clock.frozen(),
            );
        },
        Event::Play => {
            lemma_step_contained(
                session.rule,
                session.local.position,
                session.local.target,
                session.clock.frozen(),
            );
        },
        Event::Message(message) => {
            lemma_message_keeps(session, message);
        },
        _ => {},
    }
}

/// Through any run of lawful events, a local actor that started inside the
/// world is inside the world after every one of them.
pub proof fn lemma_always_inside(session: SessionView, events: Seq<Event>, upto: int)
    requires
        session.wf(),
        session.inside(),
        lawful_run(session, events),
        0 <= upto <= events.len(),
    ensures
        session.after_all(events.take(upto)).wf(),
        session.after_all(events.take(upto)).inside(),
        session.after_all(events.take(upto)).rule == session.rule,
    decreases events.len(),
{
    if events.len() == 0 {
        assert(events.take(upto) =~= events);
    } else if upto == events.len() {
        assert(events.take(upto) =~= events);
        let front = events.drop_last();
        lemma_always_inside(session, front, front.len() as int);
        assert(front.take(front.len() as int) =~= front);
        lemma_event_keeps_wf(session.after_all(front), events.last());
        lemma_event_keeps_inside(session.after_all(front), events.last());
    } else {
        let front = events.drop_last();
        assert(events.take(upto) =~= front.take(upto));
        lemma_always_inside(session, front, upto);
    }
}

/// A session that has just begun is well formed, and its local actor stands
/// inside any world that holds the origin.
pub proof fn lemma_begun(id: u128, rule: MovementRule)
    ensures
        SessionView::begun(id, rule).wf(),
        rule.bound >= 0 ==> SessionView::begun(id, rule).inside(),
{
}

/// The course on which the server's word leaves the local actor is the replay
/// from the server's position over the log, and owes nothing to where the
/// actor stood before.
pub proof fn lemma_snapshot_overrides_position(
    session: SessionView,
    other: SessionView,
    snapshot: NewPos,
)
    requires
        snapshot.id == session.local.id,
        other == (SessionView {
            local: PlayerView { position: other.local.position, ..session.local },
            ..session
        }),
    ensures
        session.updated(snapshot) == other.updated(snapshot),
{
    lemma_reconciliation_pure(
        session.rule,
        session.local.pending_inputs,
        session.local.target,
        snapshot.pos,
        snapshot.tick,
        session.clock.tick,
        session.clock.frozen(),
    );
}

impl SessionView {
    /// The session after a stretch of prediction: one entry of `script` per
    /// fixed step, each being the command that the local user gave at that
    /// tick, if any, followed by the step.
    pub open spec fn predicted(self, script: Seq<Option<Point>>) -> Self
        decreases script.len(),
    {
        if script.len() == 0 {
            self
        } else {
            let before = self.predicted(script.drop_last());
            match script.last() {
                Some(target) => before.recorded(target).advanced(),
                None => before.advanced(),
            }
        }
    }

    /// Every intent of the log was issued before the clock's tick.
    pub open spec fn log_is_past(self) -> bool {
        forall|i: int|
            0 <= i < self.local.pending_inputs.len() ==> self.local.pending_inputs[i].tick
                < self.clock.tick
    }
}

/// An intent recorded after the others does not change what an earlier or
/// later tick finds, and is what its own tick finds if that tick found
/// nothing before.
pub proof fn lemma_lookup_after_record(
    intents: Seq<PlayerInput>,
    input: PlayerInput,
    tick: int,
)
    ensures
        target_at(intents.push(input), tick) == match target_at(intents, tick) {
            Some(target) => Some(target),
            None => if input.tick == tick {
                Some(input.target)
            } else {
                None
            },
        },
{
    assert(intents.push(input).drop_last() =~= intents);
}

/// A tick later than every tick of the log finds nothing in it.
pub proof fn lemma_lookup_beyond_log(intents: Seq<PlayerInput>, tick: int)
    requires
        forall|i: int| 0 <= i < intents.len() ==> intents[i].tick < tick,
    ensures
        target_at(intents, tick) is None,
    decreases intents.len(),
{
    if intents.len() > 0 {
        assert forall|i: int| 0 <= i < intents.drop_last().len() implies intents.drop_last()[i].tick
            < tick by {
            assert(intents.drop_last()[i] == intents[i]);
        }
        lemma_lookup_beyond_log(intents.drop_last(), tick);
    }
}

/// Replay reproduces prediction: after a stretch of prediction on a running
/// clock, with at most one command per tick, the local actor is on the course
/// that a replay of the same ticks over its log yields from where it started.
pub proof fn lemma_replay_reproduces_prediction(session: SessionView, script: Seq<Option<Point>>)
    requires
        session.clock.pause_count == 0,
        session.clock.tick + script.len() <= u64::MAX,
        session.log_is_past(),
    ensures
        session.predicted(script).clock.tick == session.clock.tick + script.len(),
        session.predicted(script).clock.pause_count == 0,
        session.predicted(script).rule == session.rule,
        session.predicted(script).log_is_past(),
        session.predicted(script).local.course() == replay(
            session.rule,
            session.predicted(script).local.pending_inputs,
            session.local.course(),
            session.clock.tick as int,
            session.clock.tick + script.len() - 1,
            false,
        ),
    decreases script.len(),
{
    if script.len() > 0 {
        let front = script.drop_last();
        let before = session.predicted(front);
        lemma_replay_reproduces_prediction(session, front);
        let from = session.clock.tick as int;
        let now = before.clock.tick as int;
        let log = before.local.pending_inputs;
        let after = session.predicted(script);
        let log_after = after.local.pending_inputs;
        lemma_lookup_beyond_log(log, now);
        match script.last() {
            Some(target) => {
                let input = before.local.intent(target, before.clock.tick);
                assert(log_after == log.push(input));
                assert forall|tick: int| from <= tick <= now - 1 implies target_at(log_after, tick)
                    == target_at(log, tick) by {
                    lemma_lookup_after_record(log, input, tick);
                }
                lemma_lookup_after_record(log, input, now);
                assert forall|i: int| 0 <= i < log_after.len() implies log_after[i].tick
                    < after.clock.tick by {
                    if i < log.len() {
                        assert(log_after[i] == log[i]);
                    }
                }
            },
            None => {
                assert(log_after == log);
            },
        }
        lemma_replay_determined_by_lookups(
            session.rule,
            log_after,
            log,
            session.local.course(),
            from,
            now - 1,
            false,
        );
        lemma_replay_split(session.rule, log_after, session.local.course(), from, now - 1, now, false);
        lemma_replay_one_tick(session.rule, log_after, before.local.course(), now, false);
        lemma_replay_one_tick(
            session.rule,
            log_after,
            replay(session.rule, log_after, session.local.course(), from, now - 1, false),
            now,
            false,
        );
    }
}

/// Reconciliation agrees with prediction: when the server confirms the
/// position from which a stretch of prediction started, and the stretch began
/// with a command, the reconciliation puts the local actor on its predicted
/// course, taken one tick further: the replay includes the clock's own tick,
/// which prediction has yet to play.
pub proof fn lemma_reconciliation_continues_prediction(
    session: SessionView,
    script: Seq<Option<Point>>,
    snapshot: NewPos,
)
    requires
        session.clock.pause_count == 0,
        session.clock.tick + script.len() <= u64::MAX,
        session.log_is_past(),
        script.len() > 0,
        script[0] is Some,
        snapshot.id == session.local.id,
        snapshot.tick == session.clock.tick,
        snapshot.pos == session.local.position,
    ensures
        session.predicted(script).updated(snapshot).local.course() == replay(
            session.rule,
            session.predicted(script).local.pending_inputs,
            session.predicted(script).local.course(),
            session.predicted(script).clock.tick as int,
            session.predicted(script).clock.tick as int,
            false,
        ),
{
    let after = session.predicted(script);
    let log = after.local.pending_inputs;
    let from = session.clock.tick as int;
    let now = after.clock.tick as int;
    lemma_replay_reproduces_prediction(session, script);
    lemma_first_command_is_found(session, script);
    lemma_reconciliation_pure(
        session.rule,
        log,
        after.local.target,
        snapshot.pos,
        snapshot.tick,
        after.clock.tick,
        false,
    );
    lemma_replay_split(
        session.rule,
        log,
        Course { position: snapshot.pos, target: after.local.target },
        from,
        now - 1,
        now,
        false,
    );
    lemma_predicted_keeps_id(session, script);
    assert(replay(
        session.rule,
        log,
        Course { position: snapshot.pos, target: after.local.target },
        from,
        now - 1,
        false,
    ) == replay(session.rule, log, session.local.course(), from, now - 1, false)) by {
        lemma_replay_first_intent_decides(
            session.rule,
            log,
            snapshot.pos,
            after.local.target,
            session.local.target,
            from,
            now - 1,
            false,
        );
    }
}

/// Prediction leaves the local actor's id alone.
pub proof fn lemma_predicted_keeps_id(session: SessionView, script: Seq<Option<Point>>)
    ensures
        session.predicted(script).local.id == session.local.id,
    decreases script.len(),
{
    if script.len() > 0 {
        lemma_predicted_keeps_id(session, script.drop_last());
    }
}

/// A command given at the first tick of a stretch of prediction is what that
/// tick finds in the log afterwards.
pub proof fn lemma_first_command_is_found(session: SessionView, script: Seq<Option<Point>>)
    requires
        session.log_is_past(),
        script.len() > 0,
        script[0] is Some,
    ensures
        target_at(session.predicted(script).local.pending_inputs, session.clock.tick as int)
            == script[0],
    decreases script.len(),
{
    let front = script.drop_last();
    let before = session.predicted(front);
    let tick = session.clock.tick as int;
    if script.len() == 1 {
        assert(front =~= Seq::<Option<Point>>::empty());
        lemma_lookup_beyond_log(session.local.pending_inputs, tick);
        lemma_lookup_after_record(
            session.local.pending_inputs,
            session.local.intent(script[0]->0, session.clock.tick),
            tick,
        );
    } else {
        assert(front[0] == script[0]);
        lemma_first_command_is_found(session, front);
        match script.last() {
            Some(target) => {
                lemma_lookup_after_record(
                    before.local.pending_inputs,
                    before.local.intent(target, before.clock.tick),
                    tick,
                );
            },
            None => {},
        }
    }
}

impl SessionView {
    /// The log of the local actor is in order: its intents come in ascending
    /// order of their ticks, and none is from a tick that the clock has yet
    /// to reach.
    pub open spec fn log_in_order(self) -> bool {
        &&& ascending(self.local.pending_inputs)
        &&& forall|i: int|
            0 <= i < self.local.pending_inputs.len() ==> self.local.pending_inputs[i].tick
                <= self.clock.tick
    }
}

/// The event does not turn the clock back.
pub open spec fn forward(session: SessionView, event: Event) -> bool {
    match event {
        Event::Step => session.clock.can_advance(),
        Event::Tick => session.clock.can_advance(),
        Event::Message(NetworkMessage::SyncClient(sync)) => sync.tick_adjustment >= 0
            || !session.clock.can_adjust(sync.tick_adjustment),
        _ => true,
    }
}

/// The log stays in order: as long as the clock is not turned back, no event
/// takes the log of the local actor out of the ascending order of its ticks.
pub proof fn lemma_log_stays_in_order(session: SessionView, event: Event)
    requires
        session.wf(),
        session.log_in_order(),
        forward(session, event),
    ensures
        session.after(event).log_in_order(),
{
    let log = session.local.pending_inputs;
    match event {
        Event::Command(target) => {
            let input = session.local.intent(target, session.clock.tick);
            lemma_record_keeps_ascending(log, input);
            assert forall|i: int| 0 <= i < log.push(input).len() implies log.push(input)[i].tick
                <= session.clock.tick by {
                if i < log.len() {
                    assert(log.push(input)[i] == log[i]);
                }
            }
        },
        Event::Message(message) => {
            match message {
                NetworkMessage::GameUpdate(snapshots) => {
                    lemma_updates_keep_log_in_order(session, snapshots@);
                },
                _ => {},
            }
        },
        _ => {},
    }
}

/// The server's word on one actor leaves the log in order.
pub proof fn lemma_update_keeps_log_in_order(session: SessionView, snapshot: NewPos)
    requires
        session.log_in_order(),
    ensures
        session.updated(snapshot).log_in_order(),
{
    if snapshot.id == session.local.id {
        let log = session.local.pending_inputs;
        let kept = unacknowledged(log, snapshot.tick);
        lemma_prune_keeps_ascending(log, snapshot.tick);
        lemma_prune_keeps_exactly(log, snapshot.tick);
        assert forall|k: int| 0 <= k < kept.len() implies kept[k].tick <= session.clock.tick by {
            assert(log.contains(kept[k]));
            let i = choose|i: int| 0 <= i < log.len() && log[i] == kept[k];
            assert(log[i].tick <= session.clock.tick);
        }
    }
}

/// The server's word on several actors leaves the log in order.
pub proof fn lemma_updates_keep_log_in_order(session: SessionView, snapshots: Seq<NewPos>)
    requires
        session.log_in_order(),
    ensures
        session.updated_all(snapshots).log_in_order(),
    decreases snapshots.len(),
{
    if snapshots.len() > 0 {
        lemma_updates_keep_log_in_order(session, snapshots.drop_last());
        lemma_update_keeps_log_in_order(
            session.updated_all(snapshots.drop_last()),
            snapshots.last(),
        );
    }
}

/// The server has acknowledged the intent: some word of `snapshots` on the
/// actor `local` is from a tick after the intent's.
pub open spec fn acknowledged(local: u128, snapshots: Seq<NewPos>, input: PlayerInput) -> bool {
    exists|j: int|
        0 <= j < snapshots.len() && snapshots[j].id == local && input.tick < snapshots[j].tick
}

/// The event starts a new session, with a log of its own.
pub open spec fn starts_anew(event: Event) -> bool {
    event matches Event::Message(NetworkMessage::NewGame(_))
}

/// The server's word on one actor adds no intent to the log of the local
/// actor, and takes none from it but those that it acknowledges.
pub proof fn lemma_update_removes_acknowledged_only(session: SessionView, snapshot: NewPos)
    ensures
        session.updated(snapshot).local.id == session.local.id,
        forall|k: int|
            0 <= k < session.updated(snapshot).local.pending_inputs.len()
                ==> session.local.pending_inputs.contains(
                #[trigger] session.updated(snapshot).local.pending_inputs[k],
            ),
        forall|i: int|
            0 <= i < session.local.pending_inputs.len() ==> session.updated(
                snapshot,
            ).local.pending_inputs.contains(#[trigger] session.local.pending_inputs[i]) || (
            snapshot.id == session.local.id && session.local.pending_inputs[i].tick
                < snapshot.tick),
{
    let log = session.local.pending_inputs;
    if snapshot.id == session.local.id {
        lemma_prune_keeps_exactly(log, snapshot.tick);
    } else {
        let after = session.updated(snapshot).local.pending_inputs;
        assert(after == log);
        assert forall|i: int| 0 <= i < log.len() implies after.contains(#[trigger] log[i]) by {
            assert(after[i] == log[i]);
        }
    }
}

/// The server's word on several actors adds no intent to the log of the
/// local actor, and takes none from it but those that it acknowledges.
pub proof fn lemma_updates_remove_acknowledged_only(session: SessionView, snapshots: Seq<NewPos>)
    ensures
        session.updated_all(snapshots).local.id == session.local.id,
        forall|k: int|
            0 <= k < session.updated_all(snapshots).local.pending_inputs.len()
                ==> session.local.pending_inputs.contains(
                #[trigger] session.updated_all(snapshots).local.pending_inputs[k],
            ),
        forall|i: int|
            0 <= i < session.local.pending_inputs.len() ==> session.updated_all(
                snapshots,
            ).local.pending_inputs.contains(#[trigger] session.local.pending_inputs[i])
                || acknowledged(session.local.id, snapshots, session.local.pending_inputs[i]),
    decreases snapshots.len(),
{
    let log = session.local.pending_inputs;
    if snapshots.len() == 0 {
        assert forall|i: int| 0 <= i < log.len() implies log.contains(#[trigger] log[i]) by {}
    } else {
        let front = snapshots.drop_last();
        let last = snapshots.last();
        let before = session.updated_all(front);
        let middle = before.local.pending_inputs;
        let after = before.updated(last).local.pending_inputs;
        lemma_updates_remove_acknowledged_only(session, front);
        lemma_update_removes_acknowledged_only(before, last);
        assert forall|k: int| 0 <= k < after.len() implies log.contains(#[trigger] after[k]) by {
            assert(middle.contains(after[k]));
            let m = choose|m: int| 0 <= m < middle.len() && middle[m] == after[k];
            assert(log.contains(middle[m]));
        }
        assert forall|i: int| 0 <= i < log.len() implies after.contains(#[trigger] log[i])
            || acknowledged(session.local.id, snapshots, log[i]) by {
            if acknowledged(session.local.id, front, log[i]) {
                let j = choose|j: int|
                    0 <= j < front.len() && front[j].id == session.local.id && log[i].tick
                        < front[j].tick;
                assert(snapshots[j] == front[j]);
            } else {
                assert(middle.contains(log[i]));
                let m = choose|m: int| 0 <= m < middle.len() && middle[m] == log[i];
                if !after.contains(middle[m]) {
                    assert(snapshots[snapshots.len() - 1] == last);
                }
            }
        }
    }
}

/// Intents leave the log by acknowledgement alone: within a session, an
/// intent that was in the log before an event is in it afterwards, unless
/// the event is the server's word and acknowledges the intent.
pub proof fn lemma_intents_leave_by_acknowledgement_alone(session: SessionView, event: Event)
    requires
        !starts_anew(event),
    ensures
        forall|i: int|
            0 <= i < session.local.pending_inputs.len() ==> session.after(
                event,
            ).local.pending_inputs.contains(#[trigger] session.local.pending_inputs[i]) || (
            event matches Event::Message(NetworkMessage::GameUpdate(snapshots)) && acknowledged(
                session.local.id,
                snapshots@,
                session.local.pending_inputs[i],
            )),
{
    let log = session.local.pending_inputs;
    let after = session.after(event).local.pending_inputs;
    match event {
        Event::Message(NetworkMessage::GameUpdate(snapshots)) => {
            lemma_updates_remove_acknowledged_only(session, snapshots@);
        },
        Event::Command(target) => {
            assert forall|i: int| 0 <= i < log.len() implies after.contains(#[trigger] log[i]) by {
                assert(after[i] == log[i]);
            }
        },
        _ => {
            assert(after == log);
            assert forall|i: int| 0 <= i < log.len() implies after.contains(#[trigger] log[i]) by {
                assert(after[i] == log[i]);
            }
        },
    }
}

} // verus!
