//! The actors of a session: the local one, which is predicted and reconciled,
//! and the remote ones, which mirror what the server says.

use vstd::prelude::*;
use crate::clock::ClientTick;
use crate::input::{unacknowledged, InputBuffer, PlayerInput};
use crate::movement::MovementRule;
use crate::point::{Offset, Point};
use crate::replay::{reconciled, replay, Course};

verus! {

/// The locally controlled actor.
pub struct Player {
    pub position: Point,
    pub target: Point,
    pub id: u128,
    pub score: usize,
    pub pending_inputs: InputBuffer,
    /// Seconds the actor had lived when it died, once it has.
    pub death_time: Option<u64>,
}

/// What a local actor is, as a value: its fields, with the log of intents as
/// a sequence.
#[verifier::ext_equal]
pub struct PlayerView {
    pub position: Point,
    pub target: Point,
    pub id: u128,
    pub score: usize,
    pub pending_inputs: Seq<PlayerInput>,
    pub death_time: Option<u64>,
}

impl View for Player {
    type V = PlayerView;

    open spec fn view(&self) -> PlayerView {
        PlayerView {
            position: self.position,
            target: self.target,
            id: self.id,
            score: self.score,
            pending_inputs: self.pending_inputs@,
            death_time: self.death_time,
        }
    }
}

impl PlayerView {
    /// An actor at the start of a session, standing at `home`.
    pub open spec fn fresh(id: u128, home: Point) -> Self {
        PlayerView {
            position: home,
            target: Point::spec_origin(),
            id,
            score: 0,
            pending_inputs: Seq::empty(),
            death_time: None,
        }
    }

    /// The actor taken off the field to `home`, with nowhere to go. The log
    /// of intents, the score and the lifetime stay as they are.
    pub open spec fn parked(self, home: Point) -> Self {
        PlayerView { position: home, target: Point::spec_origin(), ..self }
    }

    /// The actor with no score, alive again.
    pub open spec fn revived(self) -> Self {
        PlayerView { score: 0, death_time: None, ..self }
    }

    /// Where the actor stands and where it is heading.
    pub open spec fn course(self) -> Course {
        Course { position: self.position, target: self.target }
    }

    /// The intent that a command of the local user at `tick` makes.
    pub open spec fn intent(self, target: Point, tick: u64) -> PlayerInput {
        PlayerInput { target, id: self.id, tick, in_game: true }
    }

    /// The actor after a command of the local user at `tick`: the command is
    /// the target now, and the log ends with it.
    pub open spec fn recorded(self, target: Point, tick: u64) -> Self {
        PlayerView {
            target,
            pending_inputs: self.pending_inputs.push(self.intent(target, tick)),
            ..self
        }
    }

    /// The actor after one tick of movement.
    pub open spec fn moved(self, rule: MovementRule, frozen: bool) -> Self {
        PlayerView { position: rule.spec_step(self.position, self.target, frozen), ..self }
    }

    /// The actor after a reconciliation against the server's word that it
    /// stood at `pos` at `server_tick`.
    pub open spec fn corrected(
        self,
        rule: MovementRule,
        clock: ClientTick,
        pos: Point,
        server_tick: u64,
    ) -> Self {
        let course = reconciled(
            rule,
            self.pending_inputs,
            self.target,
            pos,
            server_tick,
            clock.tick,
            clock.frozen(),
        );
        PlayerView {
            position: course.position,
            target: course.target,
            pending_inputs: unacknowledged(self.pending_inputs, server_tick),
            ..self
        }
    }
}

impl Player {
    /// A new actor at the origin, with nowhere to go and nothing recorded.
    pub fn new(id: u128) -> (player: Self)
        ensures
            player@ == PlayerView::fresh(id, Point::spec_origin()),
    {
        Player {
            position: Point::origin(),
            target: Point::origin(),
            id,
            score: 0,
            pending_inputs: InputBuffer::new(),
            death_time: None,
        }
    }

    /// Takes a new command from the local user at `tick`: the command becomes
    /// the current target and is logged for replay. Returns the intent, which
    /// is what the server is to be told.
    pub fn record(&mut self, target: Point, tick: u64) -> (input: PlayerInput)
        ensures
            input == old(self)@.intent(target, tick),
            final(self)@ == old(self)@.recorded(target, tick),
    {
        let input = PlayerInput::new(target, self.id, tick, true);
        self.pending_inputs.record(input);
        self.target = target;
        input
    }

    /// Takes the actor off the field to `home`, with nowhere to go. The log
    /// of intents stays as it is: intents leave it only when the server
    /// acknowledges them. Score and lifetime stay too.
    pub fn park(&mut self, home: Point)
        ensures
            final(self)@ == old(self)@.parked(home),
    {
        self.position = home;
        self.target = Point::origin();
    }

    /// Clears the score and the time of death.
    pub fn revive(&mut self)
        ensures
            final(self)@ == old(self)@.revived(),
    {
        self.score = 0;
        self.death_time = None;
    }

    /// Makes the actor the actor of a new session, standing at `home`:
    /// nowhere to go, no score, alive, and with a log of its own, in which
    /// nothing is recorded yet. The log of the session before goes with that
    /// session.
    pub fn reset(&mut self, home: Point)
        ensures
            final(self)@ == PlayerView::fresh(old(self).id, home),
    {
        self.position = home;
        self.target = Point::origin();
        self.score = 0;
        self.pending_inputs = InputBuffer::new();
        self.death_time = None;
    }

    /// The displacement that the next tick asks for.
    pub fn calculate_movement(&self, rule: &MovementRule) -> (movement: Offset)
        ensures
            movement == rule.spec_movement(self.position, self.target),
    {
        rule.movement(self.position, self.target)
    }

    /// One tick of movement toward the current target. A held clock freezes
    /// the actor.
    pub fn apply_input(&mut self, rule: &MovementRule, client_tick: &ClientTick)
        ensures
            final(self)@ == old(self)@.moved(*rule, client_tick.frozen()),
    {
        self.position = rule.step(self.position, self.target, client_tick.is_frozen());
    }

    /// Corrects the actor against the server's word that it stood at `pos` at
    /// `server_tick`.
    ///
    /// The intents issued before `server_tick` are dropped: their effect is
    /// part of `pos`. The position becomes `pos`, and the ticks from
    /// `server_tick` to the clock's tick, both included, are played again over
    /// the intents that are left. If the server is ahead of the clock, nothing
    /// is played and the actor stands at `pos`.
    pub fn server_reconciliation(
        &mut self,
        rule: &MovementRule,
        client_tick: &ClientTick,
        pos: Point,
        server_tick: u64,
    )
        ensures
            final(self)@ == old(self)@.corrected(*rule, *client_tick, pos, server_tick),
    {
        self.pending_inputs.prune(server_tick);
        self.position = pos;
        if server_tick <= client_tick.tick {
            let ghost intents = self.pending_inputs@;
            let ghost goal = replay(
                *rule,
                intents,
                self@.course(),
                server_tick as int,
                client_tick.tick as int,
                client_tick.frozen(),
            );
            let mut sim_tick: u64 = server_tick;
            loop
                invariant_except_break
                    server_tick <= sim_tick <= client_tick.tick,
                    goal == replay(
                        *rule,
                        intents,
                        self@.course(),
                        sim_tick as int,
                        client_tick.tick as int,
                        client_tick.frozen(),
                    ),
                invariant
                    self.pending_inputs@ == intents,
                    self.id == old(self).id,
                    self.score == old(self).score,
                    self.death_time == old(self).death_time,
                ensures
                    self@.course() == goal,
                decreases client_tick.tick - sim_tick,
            {
                if let Some(target) = self.pending_inputs.find(sim_tick) {
                    self.target = target;
                }
                self.apply_input(rule, client_tick);
                assert(goal == replay(
                    *rule,
                    intents,
                    self@.course(),
                    sim_tick + 1,
                    client_tick.tick as int,
                    client_tick.frozen(),
                ));
                if sim_tick == client_tick.tick {
                    break;
                }
                sim_tick = sim_tick + 1;
            }
        }
    }
}

/// An actor controlled elsewhere.
#[derive(Clone, Copy, Debug, PartialEq, Eq, Structural)]
pub struct Enemy {
    pub position: Point,
    pub target: Point,
    pub id: u128,
    pub score: usize,
    /// Seconds the actor has lived, as the server last said.
    pub time_alive: u64,
    pub alive: bool,
}

impl Enemy {
    /// An actor seen for the first time, standing and heading where the
    /// server says.
    pub open spec fn first_seen(id: u128, position: Point, target: Point) -> Self {
        Enemy { position, target, id, score: 0, time_alive: 0, alive: true }
    }

    /// The actor with the place and aim that the server gives it.
    pub open spec fn mirrored(self, position: Point, target: Point) -> Self {
        Enemy { position, target, ..self }
    }

    /// The actor after one tick of the displacement law.
    pub open spec fn moved(self, rule: MovementRule, frozen: bool) -> Self {
        Enemy { position: rule.spec_step(self.position, self.target, frozen), ..self }
    }

    /// An actor seen for the first time, standing and heading where the
    /// server says.
    pub fn new(id: u128, position: Point, target: Point) -> (enemy: Self)
        ensures
            enemy == Self::first_seen(id, position, target),
    {
        Enemy { position, target, id, score: 0, time_alive: 0, alive: true }
    }

    /// Takes over what the server says of the actor's place and aim.
    pub fn mirror(&mut self, position: Point, target: Point)
        ensures
            *final(self) == old(self).mirrored(position, target),
    {
        self.position = position;
        self.target = target;
    }

    /// The displacement that the displacement law asks of this actor for one
    /// tick.
    pub fn calculate_movement(&self, rule: &MovementRule) -> (movement: Offset)
        ensures
            movement == rule.spec_movement(self.position, self.target),
    {
        rule.movement(self.position, self.target)
    }

    /// One tick of the displacement law toward the actor's target. A held
    /// clock freezes the actor.
    pub fn apply_input(&mut self, rule: &MovementRule, client_tick: &ClientTick)
        ensures
            *final(self) == old(self).moved(*rule, client_tick.frozen()),
    {
        self.position = rule.step(self.position, self.target, client_tick.is_frozen());
    }
}

} // verus!
