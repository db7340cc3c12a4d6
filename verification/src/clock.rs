//! The discrete simulation clock.
//!
//! Ticks are the only measure of time in the simulation. The clock steps once
//! per fixed simulation step, can be held for a number of steps, and can be
//! moved by a signed amount to line up with the server's count.

use vstd::prelude::*;
use crate::messages::SyncMessage;

verus! {

/// The client's tick counter, with a countdown that holds it still.
///
/// While `pause_count` is above zero, each step of the clock uses up one unit
/// of it and leaves `tick` alone.
#[derive(Clone, Copy, Debug, PartialEq, Eq, Structural)]
pub struct ClientTick {
    pub tick: u64,
    pub pause_count: u64,
}

impl ClientTick {
    /// The clock is being held: its next step will not move `tick`.
    pub open spec fn frozen(self) -> bool {
        self.pause_count > 0
    }

    /// The clock after one step.
    pub open spec fn spec_advance(self) -> Self {
        if self.pause_count > 0 {
            ClientTick { tick: self.tick, pause_count: (self.pause_count - 1) as u64 }
        } else {
            ClientTick { tick: (self.tick + 1) as u64, pause_count: 0 }
        }
    }

    /// The clock after `steps` steps.
    pub open spec fn spec_advance_by(self, steps: nat) -> Self
        decreases steps,
    {
        if steps == 0 {
            self
        } else {
            self.spec_advance().spec_advance_by((steps - 1) as nat)
        }
    }

    /// The clock with `n` more steps to hold.
    pub open spec fn spec_pause(self, n: u64) -> Self {
        ClientTick { tick: self.tick, pause_count: (self.pause_count + n) as u64 }
    }

    /// A step of the clock stays within the counter's range.
    pub open spec fn can_advance(self) -> bool {
        self.pause_count > 0 || self.tick < u64::MAX
    }

    /// Moving the tick by `delta` stays within the counter's range.
    pub open spec fn can_adjust(self, delta: i64) -> bool {
        0 <= self.tick + delta <= u64::MAX
    }

    /// The clock with its tick moved by `delta`.
    pub open spec fn spec_adjust(self, delta: i64) -> Self {
        ClientTick { tick: (self.tick + delta) as u64, pause_count: self.pause_count }
    }

    /// A clock at tick zero that is not held.
    pub fn new() -> (clock: Self)
        ensures
            clock == (ClientTick { tick: 0, pause_count: 0 }),
    {
        ClientTick { tick: 0, pause_count: 0 }
    }

    /// Whether the clock is being held.
    pub fn is_frozen(&self) -> (held: bool)
        ensures
            held == self.frozen(),
    {
        self.pause_count > 0
    }

    /// One step of the clock: uses up one unit of the hold if there is one,
    /// else moves `tick` forward by one.
    pub fn advance(&mut self)
        requires
            old(self).can_advance(),
        ensures
            *final(self) == old(self).spec_advance(),
    {
        if self.pause_count > 0 {
            self.pause_count = self.pause_count - 1;
        } else {
            self.tick = self.tick + 1;
        }
    }

    /// Holds the clock for `n` more steps.
    pub fn pause(&mut self, n: u64)
        requires
            old(self).pause_count + n <= u64::MAX,
        ensures
            *final(self) == old(self).spec_pause(n),
    {
        self.pause_count = self.pause_count + n;
    }

    /// Whether moving the tick by `delta` stays within the counter's range.
    pub fn adjustable(&self, delta: i64) -> (fits: bool)
        ensures
            fits == self.can_adjust(delta),
    {
        let moved: i128 = self.tick as i128 + delta as i128;
        0 <= moved && moved <= u64::MAX as i128
    }

    /// Moves the tick by `delta`, backward or forward, in a single step.
    pub fn adjust(&mut self, delta: i64)
        requires
            old(self).can_adjust(delta),
        ensures
            *final(self) == old(self).spec_adjust(delta),
            final(self).tick == old(self).tick + delta,
    {
        let moved: i128 = self.tick as i128 + delta as i128;
        self.tick = moved as u64;
    }

    /// Applies a server's request to move the tick, if the result stays within
    /// the counter's range; reports whether it did.
    pub fn synchronize(&mut self, message: &SyncMessage) -> (applied: bool)
        ensures
            applied == old(self).can_adjust(message.tick_adjustment),
            applied ==> *final(self) == old(self).spec_adjust(message.tick_adjustment),
            !applied ==> *final(self) == *old(self),
    {
        if self.adjustable(message.tick_adjustment) {
            self.adjust(message.tick_adjustment);
            true
        } else {
            false
        }
    }
}

/// One fixed simulation step of the clock.
pub fn tick(client_tick: &mut ClientTick)
    requires
        old(client_tick).can_advance(),
    ensures
        *final(client_tick) == old(client_tick).spec_advance(),
{
    client_tick.advance();
}

/// While the hold lasts, steps only count it down.
pub proof fn lemma_held_steps(clock: ClientTick, steps: nat)
    requires
        steps <= clock.pause_count,
    ensures
        clock.spec_advance_by(steps).tick == clock.tick,
        clock.spec_advance_by(steps).pause_count == clock.pause_count - steps,
    decreases steps,
{
    if steps > 0 {
        lemma_held_steps(clock.spec_advance(), (steps - 1) as nat);
    }
}

/// Steps taken one after another add up.
pub proof fn lemma_advance_by_split(clock: ClientTick, first: nat, second: nat)
    ensures
        clock.spec_advance_by(first + second) == clock.spec_advance_by(first).spec_advance_by(
            second,
        ),
    decreases first,
{
    if first > 0 {
        lemma_advance_by_split(clock.spec_advance(), (first - 1) as nat, second);
    }
}

/// Holding a running clock for `n` steps makes exactly the next `n` steps
/// leave the tick where it is; the step after them moves it forward by one.
pub proof fn lemma_pause_semantics(clock: ClientTick, n: u64, steps: nat)
    requires
        clock.pause_count == 0,
        clock.tick < u64::MAX,
        steps <= n,
    ensures
        clock.spec_pause(n).spec_advance_by(steps).tick == clock.tick,
        clock.spec_pause(n).spec_advance_by(n as nat + 1).tick == clock.tick + 1,
        clock.spec_pause(n).spec_advance_by(n as nat + 1).pause_count == 0,
{
    let held = clock.spec_pause(n);
    lemma_held_steps(held, steps);
    lemma_held_steps(held, n as nat);
    lemma_advance_by_split(held, n as nat, 1);
    let released = held.spec_advance_by(n as nat);
    assert(released.spec_advance_by(1) == released.spec_advance()) by {
        assert(released.spec_advance().spec_advance_by(0) == released.spec_advance());
    }
}

} // verus!
