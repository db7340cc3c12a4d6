//! What each message from the server, and each event, does to a session.
//!
//! Messages reach the session in batches: the transport queues what arrives,
//! and the queue is emptied into the session once per fixed step, before the
//! step is taken, so that a step never sees half of what had arrived.

use vstd::prelude::*;
use crate::input::PlayerInput;
use crate::messages::{NetworkMessage, NewPos};
use crate::point::Point;
use crate::session::{game_loop, Session, SessionView};

verus! {

impl SessionView {
    /// The session after the server's word on several actors, taken in order.
    pub open spec fn updated_all(self, snapshots: Seq<NewPos>) -> Self
        decreases snapshots.len(),
    {
        if snapshots.len() == 0 {
            self
        } else {
            self.updated_all(snapshots.drop_last()).updated(snapshots.last())
        }
    }

    /// The session after one message from the server.
    ///
    /// Positions drive reconciliation and mirroring; a new game resets the
    /// clock and the local actor; scores and hits change scores and lifetimes
    /// and move nobody; a synchronisation moves the clock. The roster and the
    /// ping are not the session's concern and leave it as it is.
    pub open spec fn received(self, message: NetworkMessage) -> Self {
        match message {
            NetworkMessage::GameUpdate(snapshots) => self.updated_all(snapshots@),
            NetworkMessage::GameState(_) => self,
            NetworkMessage::NewGame(game) => self.restarted(
                game.id,
                game.server_tick,
                game.rng_seed,
            ),
            NetworkMessage::Ping => self,
            NetworkMessage::DamagePlayer(damage) => self.damaged(
                damage.id,
                damage.secs_alive,
                damage.score,
            ),
            NetworkMessage::ScoreUpdate(score) => self.scored(score.id, score.score),
            NetworkMessage::SyncClient(sync) => self.synchronized(sync.tick_adjustment),
        }
    }

    /// The session after a batch of messages, taken in order.
    pub open spec fn received_all(self, messages: Seq<NetworkMessage>) -> Self
        decreases messages.len(),
    {
        if messages.len() == 0 {
            self
        } else {
            self.received_all(messages.drop_last()).received(messages.last())
        }
    }
}

/// Something that happens to a session.
pub enum Event {
    /// The local user gives a command.
    Command(Point),
    /// A fixed simulation step is due.
    Step,
    /// A round of play without a step of the clock.
    Play,
    /// A step of the clock without a round of play.
    Tick,
    /// A dot is laid out.
    Dot(Point),
    /// A message from the server is taken from the queue.
    Message(NetworkMessage),
    /// A remote actor is reported gone.
    Disconnect(u128),
    /// The clock is held for a number of steps.
    Pause(u64),
    /// The local actor's game is over, and it is taken off the field.
    Park(Point),
    /// The local user asks for another game.
    Revive,
}

impl SessionView {
    /// The session after an event.
    pub open spec fn after(self, event: Event) -> Self {
        match event {
            Event::Command(target) => self.recorded(target),
            Event::Step => self.advanced(),
            Event::Play => self.played(),
            Event::Tick => self.ticked(),
            Event::Dot(dot) => self.dotted(dot),
            Event::Message(message) => self.received(message),
            Event::Disconnect(id) => self.disconnected(id),
            Event::Pause(n) => SessionView { clock: self.clock.spec_pause(n), ..self },
            Event::Park(home) => self.parked(home),
            Event::Revive => self.revived(),
        }
    }

    /// The session after a run of events, in order.
    pub open spec fn after_all(self, events: Seq<Event>) -> Self
        decreases events.len(),
    {
        if events.len() == 0 {
            self
        } else {
            self.after_all(events.drop_last()).after(events.last())
        }
    }
}

/// The event can be taken: a step of the clock stays within the counter's
/// range, and so does a hold.
pub open spec fn permitted(session: SessionView, event: Event) -> bool {
    match event {
        Event::Step => session.clock.can_advance(),
        Event::Tick => session.clock.can_advance(),
        Event::Pause(n) => session.clock.pause_count + n <= u64::MAX,
        _ => true,
    }
}

/// Takes the server's word on several actors, in order.
pub fn apply_snapshots(session: &mut Session, snapshots: &Vec<NewPos>)
    requires
        old(session).wf(),
    ensures
        final(session).wf(),
        final(session)@ == old(session)@.updated_all(snapshots@),
{
    let mut i: usize = 0;
    proof {
        assert(snapshots@.take(0) =~= Seq::<NewPos>::empty());
    }
    while i < snapshots.len()
        invariant
            i <= snapshots.len(),
            session.wf(),
            session@ == old(session)@.updated_all(snapshots@.take(i as int)),
        decreases snapshots.len() - i,
    {
        proof {
            assert(snapshots@.take(i + 1).drop_last() =~= snapshots@.take(i as int));
        }
        session.apply_snapshot(&snapshots[i]);
        i = i + 1;
    }
    proof {
        assert(snapshots@.take(i as int) =~= snapshots@);
    }
}

/// Takes one message from the server.
pub fn handle_message(session: &mut Session, message: &NetworkMessage)
    requires
        old(session).wf(),
    ensures
        final(session).wf(),
        final(session)@ == old(session)@.received(*message),
{
    match message {
        NetworkMessage::GameUpdate(snapshots) => {
            apply_snapshots(session, snapshots);
        },
        NetworkMessage::GameState(_) => {},
        NetworkMessage::NewGame(game) => {
            session.restart(game.id, game.server_tick, game.rng_seed);
        },
        NetworkMessage::Ping => {},
        NetworkMessage::DamagePlayer(damage) => {
            session.apply_damage(damage.id, damage.secs_alive, damage.score);
        },
        NetworkMessage::ScoreUpdate(score) => {
            session.apply_score(score.id, score.score);
        },
        NetworkMessage::SyncClient(sync) => {
            session.synchronize(sync.tick_adjustment);
        },
    }
}

/// Takes a batch of messages from the server, in the order in which they
/// arrived.
pub fn handle_server(session: &mut Session, inbox: &Vec<NetworkMessage>)
    requires
        old(session).wf(),
    ensures
        final(session).wf(),
        final(session)@ == old(session)@.received_all(inbox@),
{
    let mut i: usize = 0;
    proof {
        assert(inbox@.take(0) =~= Seq::<NetworkMessage>::empty());
    }
    while i < inbox.len()
        invariant
            i <= inbox.len(),
            session.wf(),
            session@ == old(session)@.received_all(inbox@.take(i as int)),
        decreases inbox.len() - i,
    {
        proof {
            assert(inbox@.take(i + 1).drop_last() =~= inbox@.take(i as int));
        }
        handle_message(session, &inbox[i]);
        i = i + 1;
    }
    proof {
        assert(inbox@.take(i as int) =~= inbox@);
    }
}

/// Takes one event, whatever it is. Returns what the server is to be told
/// of it: the intent, for a command of the local user, and nothing else.
pub fn handle_event(session: &mut Session, event: &Event) -> (sent: Option<PlayerInput>)
    requires
        old(session).wf(),
        permitted(old(session)@, *event),
    ensures
        final(session).wf(),
        final(session)@ == old(session)@.after(*event),
        sent == match *event {
            Event::Command(target) => Some(
                old(session)@.local.intent(target, old(session)@.clock.tick),
            ),
            _ => None,
        },
{
    match event {
        Event::Command(target) => Some(session.record_intent(*target)),
        Event::Step => {
            session.advance_tick();
            None
        },
        Event::Play => {
            game_loop(session);
            None
        },
        Event::Tick => {
            session.tick();
            None
        },
        Event::Dot(dot) => {
            session.add_dot(*dot);
            None
        },
        Event::Message(message) => {
            handle_message(session, message);
            None
        },
        Event::Disconnect(id) => {
            session.disconnect(*id);
            None
        },
        Event::Pause(n) => {
            session.pause(*n);
            None
        },
        Event::Park(home) => {
            session.park(*home);
            None
        },
        Event::Revive => {
            session.revive();
            None
        },
    }
}

} // verus!
