//! A session: the clock, the displacement law, the local actor and the remote
//! actors, and what each event does to them.

use vstd::prelude::*;
use crate::clock::ClientTick;
use crate::dots::{lemma_swept_one_more, swept, Dots};
use crate::input::PlayerInput;
use crate::messages::NewPos;
use crate::movement::MovementRule;
use crate::player::{Enemy, Player, PlayerView};
use crate::point::Point;

verus! {

/// The state of one client for the length of one connection.
///
/// It is made when the connection is, handed to each step by reference, and
/// dropped with the connection. Nothing else holds simulation state.
pub struct Session {
    clock: ClientTick,
    rule: MovementRule,
    local: Player,
    remotes: Vec<Enemy>,
    dots: Dots,
}

/// What a session is, as a value.
#[verifier::ext_equal]
pub struct SessionView {
    pub clock: ClientTick,
    pub rule: MovementRule,
    pub local: PlayerView,
    /// The remote actors, in the order in which they were first seen.
    pub remotes: Seq<Enemy>,
    /// The dots that no actor has picked up yet.
    pub dots: Seq<Point>,
    /// The seed that the server gave for the session, once it has.
    pub rng_seed: Option<u64>,
}

impl View for Session {
    type V = SessionView;

    closed spec fn view(&self) -> SessionView {
        SessionView {
            clock: self.clock,
            rule: self.rule,
            local: self.local@,
            remotes: self.remotes@,
            dots: self.dots.pos@,
            rng_seed: self.dots.rng_seed,
        }
    }
}

impl SessionView {
    /// No two actors of the session share an id.
    pub open spec fn wf(self) -> bool {
        &&& forall|i: int, j: int|
            0 <= i < j < self.remotes.len() ==> self.remotes[i].id != self.remotes[j].id
        &&& forall|i: int| 0 <= i < self.remotes.len() ==> self.remotes[i].id != self.local.id
    }

    /// A remote actor with this id is known.
    pub open spec fn known(self, id: u128) -> bool {
        exists|i: int| 0 <= i < self.remotes.len() && self.remotes[i].id == id
    }

    /// The place of the remote actor with this id among the remote actors.
    pub open spec fn slot(self, id: u128) -> int {
        choose|i: int| 0 <= i < self.remotes.len() && self.remotes[i].id == id
    }

    /// Where the actor with this id stands, if the session has such an actor.
    pub open spec fn position_of(self, id: u128) -> Option<Point> {
        if id == self.local.id {
            Some(self.local.position)
        } else if self.known(id) {
            Some(self.remotes[self.slot(id)].position)
        } else {
            None
        }
    }

    /// A session that has just begun for the local actor `id`.
    pub open spec fn begun(id: u128, rule: MovementRule) -> Self {
        SessionView {
            clock: ClientTick { tick: 0, pause_count: 0 },
            rule,
            local: PlayerView::fresh(id, Point::spec_origin()),
            remotes: Seq::empty(),
            dots: Seq::empty(),
            rng_seed: None,
        }
    }

    /// Where the actors stand: the local one first, then the remote ones in
    /// their order.
    pub open spec fn places(self) -> Seq<Point> {
        seq![self.local.position] + self.remotes.map_values(|enemy: Enemy| enemy.position)
    }

    /// The session with one more dot laid out.
    pub open spec fn dotted(self, dot: Point) -> Self {
        SessionView { dots: self.dots.push(dot), ..self }
    }

    /// The session after a command of the local user.
    pub open spec fn recorded(self, target: Point) -> Self {
        SessionView { local: self.local.recorded(target, self.clock.tick), ..self }
    }

    /// The session after one round of play: the local actor takes one step
    /// toward its target, then every actor picks up the dots that it touches.
    /// Remote actors stay where the server put them.
    pub open spec fn played(self) -> Self {
        let moved = SessionView {
            local: self.local.moved(self.rule, self.clock.frozen()),
            ..self
        };
        SessionView { dots: swept(self.dots, moved.places()), ..moved }
    }

    /// The session after a step of the clock alone.
    pub open spec fn ticked(self) -> Self {
        SessionView { clock: self.clock.spec_advance(), ..self }
    }

    /// The session after one fixed simulation step: a round of play, then a
    /// step of the clock.
    pub open spec fn advanced(self) -> Self {
        self.played().ticked()
    }

    /// The session after the server's word on one actor.
    ///
    /// The local actor is reconciled. A known remote actor takes over the
    /// position and the target. An unknown id is a remote actor seen for the
    /// first time.
    pub open spec fn updated(self, snapshot: NewPos) -> Self {
        if snapshot.id == self.local.id {
            SessionView {
                local: self.local.corrected(self.rule, self.clock, snapshot.pos, snapshot.tick),
                ..self
            }
        } else if self.known(snapshot.id) {
            let slot = self.slot(snapshot.id);
            SessionView {
                remotes: self.remotes.update(
                    slot,
                    self.remotes[slot].mirrored(snapshot.pos, snapshot.input),
                ),
                ..self
            }
        } else {
            SessionView {
                remotes: self.remotes.push(
                    Enemy::first_seen(snapshot.id, snapshot.pos, snapshot.input),
                ),
                ..self
            }
        }
    }

    /// The session without the remote actor `id`.
    pub open spec fn disconnected(self, id: u128) -> Self {
        if self.known(id) {
            SessionView { remotes: self.remotes.remove(self.slot(id)), ..self }
        } else {
            self
        }
    }

    /// The session at the start of a new game: the clock runs from the
    /// server's tick, the local actor is `id` and stands at the origin with
    /// a log of its own, still empty, and no dot is laid out. Remote actors
    /// stay, but for one that had the id.
    pub open spec fn restarted(self, id: u128, server_tick: u64, rng_seed: u64) -> Self {
        SessionView {
            clock: ClientTick { tick: server_tick, pause_count: 0 },
            local: PlayerView::fresh(id, Point::spec_origin()),
            remotes: self.disconnected(id).remotes,
            dots: Seq::empty(),
            rng_seed: Some(rng_seed),
            ..self
        }
    }

    /// The session with the local actor taken off the field to `home`.
    pub open spec fn parked(self, home: Point) -> Self {
        SessionView { local: self.local.parked(home), ..self }
    }

    /// The session with the local actor's score cleared, alive again.
    pub open spec fn revived(self) -> Self {
        SessionView { local: self.local.revived(), ..self }
    }

    /// The session after the server gave the actor `id` a new score. No actor
    /// moves.
    pub open spec fn scored(self, id: u128, score: usize) -> Self {
        if id == self.local.id {
            SessionView { local: PlayerView { score, ..self.local }, ..self }
        } else if self.known(id) {
            let slot = self.slot(id);
            SessionView {
                remotes: self.remotes.update(slot, Enemy { score, ..self.remotes[slot] }),
                ..self
            }
        } else {
            self
        }
    }

    /// The session after the actor `id` was hit, with `score` points after
    /// `secs_alive` seconds. No actor moves.
    pub open spec fn damaged(self, id: u128, secs_alive: u64, score: usize) -> Self {
        if id == self.local.id {
            SessionView {
                local: PlayerView { score, death_time: Some(secs_alive), ..self.local },
                ..self
            }
        } else if self.known(id) {
            let slot = self.slot(id);
            SessionView {
                remotes: self.remotes.update(
                    slot,
                    Enemy { score, time_alive: secs_alive, alive: false, ..self.remotes[slot] },
                ),
                ..self
            }
        } else {
            self
        }
    }

    /// The session after the server asked for the tick to move by `delta`. A
    /// request that would take the tick out of the counter's range is dropped.
    pub open spec fn synchronized(self, delta: i64) -> Self {
        if self.clock.can_adjust(delta) {
            SessionView { clock: self.clock.spec_adjust(delta), ..self }
        } else {
            self
        }
    }

    /// What the client tells the server on a fixed cadence, every `cadence`
    /// ticks: during a game the local actor's target at the clock's tick,
    /// outside a game the origin.
    pub open spec fn due(self, cadence: u64, in_game: bool) -> Option<PlayerInput> {
        if cadence > 0 && self.clock.tick % cadence == 0 {
            Some(
                PlayerInput {
                    target: if in_game {
                        self.local.target
                    } else {
                        Point::spec_origin()
                    },
                    id: self.local.id,
                    tick: self.clock.tick,
                    in_game,
                },
            )
        } else {
            None
        }
    }
}

/// The place that `slot` names is the only one with the id.
pub proof fn lemma_slot_unique(session: SessionView, id: u128, i: int)
    requires
        session.wf(),
        0 <= i < session.remotes.len(),
        session.remotes[i].id == id,
    ensures
        session.known(id),
        session.slot(id) == i,
        id != session.local.id,
{
    let j = session.slot(id);
    if i < j {
        assert(session.remotes[i].id != session.remotes[j].id);
    } else if j < i {
        assert(session.remotes[j].id != session.remotes[i].id);
    }
}

impl Session {
    /// No two actors of the session share an id.
    pub open spec fn wf(&self) -> bool {
        self@.wf()
    }

    /// A session for the local actor `id` under the displacement law `rule`:
    /// the clock at zero, the actor at the origin, no remote actor known.
    pub fn new(id: u128, rule: MovementRule) -> (session: Self)
        ensures
            session.wf(),
            session@ == SessionView::begun(id, rule),
    {
        Session {
            clock: ClientTick::new(),
            rule,
            local: Player::new(id),
            remotes: Vec::new(),
            dots: Dots::new(),
        }
    }

    /// The clock.
    pub fn clock(&self) -> (clock: ClientTick)
        ensures
            clock == self@.clock,
    {
        self.clock
    }

    /// The displacement law.
    pub fn rule(&self) -> (rule: MovementRule)
        ensures
            rule == self@.rule,
    {
        self.rule
    }

    /// The local actor.
    pub fn local(&self) -> (local: &Player)
        ensures
            local@ == self@.local,
    {
        &self.local
    }

    /// The number of remote actors known.
    pub fn remote_count(&self) -> (n: usize)
        ensures
            n == self@.remotes.len(),
    {
        self.remotes.len()
    }

    /// The remote actor at place `index`, if there are that many.
    pub fn remote(&self, index: usize) -> (enemy: Option<Enemy>)
        ensures
            enemy == if index < self@.remotes.len() {
                Some(self@.remotes[index as int])
            } else {
                None
            },
    {
        if index < self.remotes.len() {
            Some(self.remotes[index])
        } else {
            None
        }
    }

    /// The seed that the server gave for the session, once it has.
    pub fn rng_seed(&self) -> (seed: Option<u64>)
        ensures
            seed == self@.rng_seed,
    {
        self.dots.rng_seed
    }

    /// The number of dots that no actor has picked up yet.
    pub fn dot_count(&self) -> (n: usize)
        ensures
            n == self@.dots.len(),
    {
        self.dots.pos.len()
    }

    /// The dot at place `index`, if there are that many.
    pub fn dot(&self, index: usize) -> (dot: Option<Point>)
        ensures
            dot == if index < self@.dots.len() {
                Some(self@.dots[index as int])
            } else {
                None
            },
    {
        if index < self.dots.pos.len() {
            Some(self.dots.pos[index])
        } else {
            None
        }
    }

    /// Lays out one more dot.
    pub fn add_dot(&mut self, dot: Point)
        requires
            old(self).wf(),
        ensures
            final(self).wf(),
            final(self)@ == old(self)@.dotted(dot),
    {
        self.dots.pos.push(dot);
    }

    /// The place of the remote actor `id` among the remote actors, if it is
    /// known.
    pub fn find_remote(&self, id: u128) -> (place: Option<usize>)
        requires
            self.wf(),
        ensures
            place is Some == self@.known(id),
            place is Some ==> place->0 == self@.slot(id) && place->0 < self@.remotes.len(),
    {
        let mut i: usize = 0;
        while i < self.remotes.len()
            invariant
                i <= self.remotes.len(),
                self.wf(),
                forall|k: int| 0 <= k < i ==> self.remotes@[k].id != id,
            decreases self.remotes.len() - i,
        {
            if self.remotes[i].id == id {
                proof {
                    lemma_slot_unique(self@, id, i as int);
                }
                return Some(i);
            }
            i = i + 1;
        }
        None
    }

    /// Where the actor `actor_id` stands, if the session has such an actor.
    pub fn current_position(&self, actor_id: u128) -> (position: Option<Point>)
        requires
            self.wf(),
        ensures
            position == self@.position_of(actor_id),
    {
        if actor_id == self.local.id {
            Some(self.local.position)
        } else {
            match self.find_remote(actor_id) {
                Some(place) => Some(self.remotes[place].position),
                None => None,
            }
        }
    }

    /// Takes a command from the local user at the clock's tick: the command
    /// becomes the local actor's target and is logged for replay. Returns the
    /// intent, which is what the server is to be told.
    pub fn record_intent(&mut self, target: Point) -> (input: PlayerInput)
        requires
            old(self).wf(),
        ensures
            final(self).wf(),
            final(self)@ == old(self)@.recorded(target),
            input == old(self)@.local.intent(target, old(self)@.clock.tick),
    {
        self.local.record(target, self.clock.tick)
    }

    /// One step of the clock, and nothing else: uses up one unit of the hold
    /// if there is one, else moves the tick forward by one.
    pub fn tick(&mut self)
        requires
            old(self).wf(),
            old(self)@.clock.can_advance(),
        ensures
            final(self).wf(),
            final(self)@ == old(self)@.ticked(),
    {
        self.clock.advance();
    }

    /// One fixed simulation step: a round of play, then a step of the clock.
    pub fn advance_tick(&mut self)
        requires
            old(self).wf(),
            old(self)@.clock.can_advance(),
        ensures
            final(self).wf(),
            final(self)@ == old(self)@.advanced(),
    {
        game_loop(self);
        self.tick();
    }

    /// Takes the server's word on one actor.
    ///
    /// For the local actor this is a reconciliation; for a remote actor a
    /// plain copy of position and target; for an id not seen before, a new
    /// remote actor.
    pub fn apply_snapshot(&mut self, snapshot: &NewPos)
        requires
            old(self).wf(),
        ensures
            final(self).wf(),
            final(self)@ == old(self)@.updated(*snapshot),
    {
        if snapshot.id == self.local.id {
            self.local.server_reconciliation(&self.rule, &self.clock, snapshot.pos, snapshot.tick);
        } else {
            match self.find_remote(snapshot.id) {
                Some(place) => {
                    let mut enemy = self.remotes[place];
                    enemy.mirror(snapshot.pos, snapshot.input);
                    self.remotes.set(place, enemy);
                },
                None => {
                    self.remotes.push(Enemy::new(snapshot.id, snapshot.pos, snapshot.input));
                },
            }
        }
    }
    /// Forgets the remote actor `id`, which has left. Reports whether such an
    /// actor was known.
    pub fn disconnect(&mut self, id: u128) -> (was_known: bool)
        requires
            old(self).wf(),
        ensures
            final(self).wf(),
            final(self)@ == old(self)@.disconnected(id),
            was_known == old(self)@.known(id),
    {
        match self.find_remote(id) {
            Some(place) => {
                self.remotes.remove(place);
                true
            },
            None => false,
        }
    }

    /// Starts a new game: the clock runs from `server_tick`, the local actor
    /// is `id` and stands at the origin with a log of its own, still empty.
    pub fn restart(&mut self, id: u128, server_tick: u64, rng_seed: u64)
        requires
            old(self).wf(),
        ensures
            final(self).wf(),
            final(self)@ == old(self)@.restarted(id, server_tick, rng_seed),
    {
        self.disconnect(id);
        self.clock = ClientTick { tick: server_tick, pause_count: 0 };
        self.local.id = id;
        self.local.reset(Point::origin());
        self.dots.pos.clear();
        self.dots.rng_seed = Some(rng_seed);
    }

    /// Takes the local actor off the field to `home` when its game is over,
    /// with nowhere to go. Its log of intents stays as it is, and so do its
    /// score and lifetime, to be shown.
    pub fn park(&mut self, home: Point)
        requires
            old(self).wf(),
        ensures
            final(self).wf(),
            final(self)@ == old(self)@.parked(home),
    {
        self.local.park(home);
    }

    /// Clears the local actor's score and time of death, for another game.
    pub fn revive(&mut self)
        requires
            old(self).wf(),
        ensures
            final(self).wf(),
            final(self)@ == old(self)@.revived(),
    {
        self.local.revive();
    }

    /// Takes the server's word on the score of the actor `id`.
    pub fn apply_score(&mut self, id: u128, score: usize)
        requires
            old(self).wf(),
        ensures
            final(self).wf(),
            final(self)@ == old(self)@.scored(id, score),
    {
        if id == self.local.id {
            self.local.score = score;
        } else {
            match self.find_remote(id) {
                Some(place) => {
                    let mut enemy = self.remotes[place];
                    enemy.score = score;
                    self.remotes.set(place, enemy);
                },
                None => {},
            }
        }
    }

    /// Takes the server's word that the actor `id` was hit.
    pub fn apply_damage(&mut self, id: u128, secs_alive: u64, score: usize)
        requires
            old(self).wf(),
        ensures
            final(self).wf(),
            final(self)@ == old(self)@.damaged(id, secs_alive, score),
    {
        if id == self.local.id {
            self.local.score = score;
            self.local.death_time = Some(secs_alive);
        } else {
            match self.find_remote(id) {
                Some(place) => {
                    let mut enemy = self.remotes[place];
                    enemy.score = score;
                    enemy.time_alive = secs_alive;
                    enemy.alive = false;
                    self.remotes.set(place, enemy);
                },
                None => {},
            }
        }
    }

    /// Moves the clock's tick by `delta` as the server asks, unless that would
    /// take it out of the counter's range. Reports whether the tick moved.
    pub fn synchronize(&mut self, delta: i64) -> (applied: bool)
        requires
            old(self).wf(),
        ensures
            final(self).wf(),
            final(self)@ == old(self)@.synchronized(delta),
            applied == old(self)@.clock.can_adjust(delta),
    {
        if self.clock.adjustable(delta) {
            self.clock.adjust(delta);
            true
        } else {
            false
        }
    }

    /// Holds the clock for `n` more steps.
    pub fn pause(&mut self, n: u64)
        requires
            old(self).wf(),
            old(self)@.clock.pause_count + n <= u64::MAX,
        ensures
            final(self).wf(),
            final(self)@ == (SessionView { clock: old(self)@.clock.spec_pause(n), ..old(self)@ }),
    {
        self.clock.pause(n);
    }

    /// What is due to the server at this tick on a cadence of `cadence`
    /// ticks: every `cadence` ticks the local actor's target (outside a game,
    /// the origin), and nothing in between. A cadence of zero never sends.
    pub fn heartbeat(&self, cadence: u64, in_game: bool) -> (input: Option<PlayerInput>)
        ensures
            input == self@.due(cadence, in_game),
    {
        if cadence > 0 && self.clock.tick % cadence == 0 {
            let target = if in_game {
                self.local.target
            } else {
                Point::origin()
            };
            Some(PlayerInput::new(target, self.local.id, self.clock.tick, in_game))
        } else {
            None
        }
    }
}

/// One round of play: the local actor takes one step toward its target, then
/// every actor picks up the dots that it touches.
pub fn game_loop(session: &mut Session)
    requires
        old(session).wf(),
    ensures
        final(session).wf(),
        final(session)@ == old(session)@.played(),
{
    session.local.apply_input(&session.rule, &session.clock);
    let ghost before = old(session)@.dots;
    let ghost places = session@.places();
    session.dots.collect(session.local.position);
    proof {
        assert(places.take(1) =~= seq![session.local.position]);
    }
    let mut i: usize = 0;
    while i < session.remotes.len()
        invariant
            i <= session.remotes.len(),
            places == session@.places(),
            places.len() == session.remotes.len() + 1,
            session.dots.pos@ == swept(before, places.take(i + 1)),
            session.wf(),
            session@ == (SessionView { dots: session@.dots, ..old(session)@.played() }),
        decreases session.remotes.len() - i,
    {
        proof {
            lemma_swept_one_more(before, places.take(i + 1), session.remotes@[i as int].position);
            assert(places.take(i + 1).push(session.remotes@[i as int].position) =~= places.take(
                i + 2,
            ));
        }
        session.dots.collect(session.remotes[i].position);
        i = i + 1;
    }
    proof {
        assert(places.take(i + 1) =~= places);
    }
}

} // verus!
