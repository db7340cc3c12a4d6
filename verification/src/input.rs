//! The log of movement intents that a local actor has issued and the server
//! has not yet acknowledged.

use vstd::prelude::*;
use crate::point::Point;

verus! {

/// A movement intent: where an actor wants to go, and the tick at which it
/// said so.
#[derive(Clone, Copy, Debug, PartialEq, Eq, Structural)]
pub struct PlayerInput {
    pub target: Point,
    pub id: u128,
    pub tick: u64,
    pub in_game: bool,
}

impl PlayerInput {
    /// The intent with the given fields.
    pub fn new(target: Point, id: u128, tick: u64, in_game: bool) -> (input: Self)
        ensures
            input == (PlayerInput { target, id, tick, in_game }),
    {
        PlayerInput { target, id, tick, in_game }
    }
}

/// The intents of `intents` issued at `ack` or later, in their order.
pub open spec fn unacknowledged(intents: Seq<PlayerInput>, ack: u64) -> Seq<PlayerInput> {
    intents.filter(|input: PlayerInput| input.tick >= ack)
}

/// The target of the earliest-recorded intent of `intents` that was issued at
/// `tick`, if there is one.
pub open spec fn target_at(intents: Seq<PlayerInput>, tick: int) -> Option<Point>
    decreases intents.len(),
{
    if intents.len() == 0 {
        None
    } else {
        match target_at(intents.drop_last(), tick) {
            Some(target) => Some(target),
            None => if intents.last().tick == tick {
                Some(intents.last().target)
            } else {
                None
            },
        }
    }
}

/// The intents come in ascending order of their ticks.
pub open spec fn ascending(intents: Seq<PlayerInput>) -> bool {
    forall|i: int, j: int| 0 <= i <= j < intents.len() ==> intents[i].tick <= intents[j].tick
}

/// An ordered log of movement intents.
///
/// Intents enter at the end through `record` and leave through `prune`, and
/// in no other way.
pub struct InputBuffer {
    intents: Vec<PlayerInput>,
}

impl View for InputBuffer {
    type V = Seq<PlayerInput>;

    closed spec fn view(&self) -> Seq<PlayerInput> {
        self.intents@
    }
}

impl InputBuffer {
    /// A log without intents.
    pub fn new() -> (buffer: Self)
        ensures
            buffer@ == Seq::<PlayerInput>::empty(),
    {
        InputBuffer { intents: Vec::new() }
    }

    /// The number of intents in the log.
    pub fn len(&self) -> (n: usize)
        ensures
            n == self@.len(),
    {
        self.intents.len()
    }

    /// Whether the log holds no intent.
    pub fn is_empty(&self) -> (empty: bool)
        ensures
            empty == (self@.len() == 0),
    {
        self.intents.len() == 0
    }

    /// The intent at place `index` of the log, if the log is that long.
    pub fn get(&self, index: usize) -> (input: Option<PlayerInput>)
        ensures
            input == if index < self@.len() {
                Some(self@[index as int])
            } else {
                None
            },
    {
        if index < self.intents.len() {
            Some(self.intents[index])
        } else {
            None
        }
    }

    /// Appends an intent to the log.
    pub fn record(&mut self, input: PlayerInput)
        ensures
            final(self)@ == old(self)@.push(input),
    {
        self.intents.push(input);
    }

    /// Removes every intent issued before `server_ack_tick` and keeps the
    /// others in their order.
    pub fn prune(&mut self, server_ack_tick: u64)
        ensures
            final(self)@ == unacknowledged(old(self)@, server_ack_tick),
            forall|i: int| 0 <= i < final(self)@.len() ==> final(self)@[i].tick >= server_ack_tick,
    {
        let ghost before = self.intents@;
        let ghost keep = |input: PlayerInput| input.tick >= server_ack_tick;
        let mut kept: Vec<PlayerInput> = Vec::new();
        let mut i: usize = 0;
        proof {
            reveal(Seq::filter);
            assert(before.take(0) =~= Seq::<PlayerInput>::empty());
        }
        while i < self.intents.len()
            invariant
                i <= self.intents.len(),
                self.intents@ == before,
                keep == |input: PlayerInput| input.tick >= server_ack_tick,
                kept@ == before.take(i as int).filter(keep),
            decreases self.intents.len() - i,
        {
            let input = self.intents[i];
            proof {
                reveal(Seq::filter);
                assert(before.take(i + 1).drop_last() =~= before.take(i as int));
                assert(before.take(i + 1).last() == input);
            }
            if input.tick >= server_ack_tick {
                kept.push(input);
            }
            i = i + 1;
        }
        proof {
            assert(before.take(i as int) =~= before);
            assert forall|k: int| 0 <= k < before.filter(keep).len() implies before.filter(
                keep,
            )[k].tick >= server_ack_tick by {
                before.lemma_filter_pred(keep, k);
            }
        }
        self.intents = kept;
    }

    /// The target of the earliest-recorded intent issued at `tick`, if the
    /// log holds one.
    pub fn find(&self, tick: u64) -> (target: Option<Point>)
        ensures
            target == target_at(self@, tick as int),
    {
        let mut i: usize = 0;
        proof {
            assert(self.intents@.take(0) =~= Seq::<PlayerInput>::empty());
        }
        while i < self.intents.len()
            invariant
                i <= self.intents.len(),
                target_at(self.intents@.take(i as int), tick as int) is None,
            decreases self.intents.len() - i,
        {
            let input = self.intents[i];
            proof {
                assert(self.intents@.take(i + 1).drop_last() =~= self.intents@.take(i as int));
                assert(self.intents@.take(i + 1).last() == input);
            }
            if input.tick == tick {
                proof {
                    lemma_target_at_prefix(self.intents@, i + 1, tick as int);
                }
                return Some(input.target);
            }
            i = i + 1;
        }
        proof {
            assert(self.intents@.take(i as int) =~= self.intents@);
        }
        None
    }
}

/// An intent found in the first `n` intents of a log is the one found in the
/// whole log.
pub proof fn lemma_target_at_prefix(intents: Seq<PlayerInput>, n: int, tick: int)
    requires
        0 <= n <= intents.len(),
        target_at(intents.take(n), tick) is Some,
    ensures
        target_at(intents, tick) == target_at(intents.take(n), tick),
    decreases intents.len() - n,
{
    if n == intents.len() {
        assert(intents.take(n) =~= intents);
    } else {
        assert(intents.take(n + 1).drop_last() =~= intents.take(n));
        lemma_target_at_prefix(intents, n + 1, tick);
    }
}

/// What `target_at` finds: the first intent of the log, in recording order,
/// that carries the tick; and nothing exactly when no intent carries it.
pub proof fn lemma_target_at(intents: Seq<PlayerInput>, tick: int)
    ensures
        target_at(intents, tick) is None <==> (forall|i: int|
            0 <= i < intents.len() ==> intents[i].tick != tick),
        target_at(intents, tick) is Some ==> (exists|i: int|
            0 <= i < intents.len() && intents[i].tick == tick && target_at(intents, tick)
                == Some(intents[i].target) && (forall|j: int|
                0 <= j < i ==> intents[j].tick != tick)),
    decreases intents.len(),
{
    if intents.len() > 0 {
        let front = intents.drop_last();
        lemma_target_at(front, tick);
        assert(forall|i: int| 0 <= i < front.len() ==> front[i] == intents[i]);
        if target_at(front, tick) is Some {
            let i = choose|i: int|
                0 <= i < front.len() && front[i].tick == tick && target_at(front, tick) == Some(
                    front[i].target,
                ) && (forall|j: int| 0 <= j < i ==> front[j].tick != tick);
            assert(intents[i].tick == tick);
            assert(0 <= i < intents.len() && intents[i].tick == tick && target_at(intents, tick)
                == Some(intents[i].target) && (forall|j: int|
                0 <= j < i ==> intents[j].tick != tick));
        } else if intents.last().tick == tick {
            let i = intents.len() - 1;
            assert(0 <= i < intents.len() && intents[i].tick == tick && target_at(intents, tick)
                == Some(intents[i].target) && (forall|j: int|
                0 <= j < i ==> intents[j].tick != tick));
        } else {
            assert forall|i: int| 0 <= i < intents.len() implies intents[i].tick != tick by {
                if i < front.len() {
                    assert(front[i] == intents[i]);
                }
            }
        }
    }
}

/// Pruning at `ack` changes nothing for the ticks from `ack` on: each of
/// them finds the intent that it found before.
pub proof fn lemma_prune_keeps_lookup(intents: Seq<PlayerInput>, ack: u64, tick: int)
    requires
        tick >= ack,
    ensures
        target_at(unacknowledged(intents, ack), tick) == target_at(intents, tick),
    decreases intents.len(),
{
    reveal(Seq::filter);
    if intents.len() > 0 {
        lemma_prune_keeps_lookup(intents.drop_last(), ack, tick);
        let kept_front = unacknowledged(intents.drop_last(), ack);
        if intents.last().tick >= ack {
            let kept = kept_front.push(intents.last());
            assert(kept.drop_last() =~= kept_front);
        }
    }
}

/// Pruning a second time at the same tick removes nothing more.
pub proof fn lemma_prune_idempotent(intents: Seq<PlayerInput>, ack: u64)
    ensures
        unacknowledged(unacknowledged(intents, ack), ack) == unacknowledged(intents, ack),
    decreases intents.len(),
{
    reveal(Seq::filter);
    if intents.len() > 0 {
        lemma_prune_idempotent(intents.drop_last(), ack);
        let kept_front = unacknowledged(intents.drop_last(), ack);
        if intents.last().tick >= ack {
            let kept = kept_front.push(intents.last());
            assert(kept.drop_last() =~= kept_front);
        }
    }
}

/// Every intent that pruning keeps was in the log before, and pruning keeps
/// every intent of the log that was issued at `ack` or later.
pub proof fn lemma_prune_keeps_exactly(intents: Seq<PlayerInput>, ack: u64)
    ensures
        forall|k: int|
            0 <= k < unacknowledged(intents, ack).len() ==> intents.contains(
                #[trigger] unacknowledged(intents, ack)[k],
            ) && unacknowledged(intents, ack)[k].tick >= ack,
        forall|i: int|
            0 <= i < intents.len() && intents[i].tick >= ack ==> unacknowledged(
                intents,
                ack,
            ).contains(#[trigger] intents[i]),
        unacknowledged(intents, ack).len() <= intents.len(),
    decreases intents.len(),
{
    reveal(Seq::filter);
    let kept = unacknowledged(intents, ack);
    if intents.len() > 0 {
        let front = intents.drop_last();
        let kept_front = unacknowledged(front, ack);
        lemma_prune_keeps_exactly(front, ack);
        assert forall|k: int| 0 <= k < kept.len() implies intents.contains(#[trigger] kept[k])
            && kept[k].tick >= ack by {
            if k < kept_front.len() {
                assert(kept[k] == kept_front[k]);
                let i = choose|i: int| 0 <= i < front.len() && front[i] == kept_front[k];
                assert(intents[i] == kept[k]);
            } else {
                assert(kept[k] == intents[intents.len() - 1]);
            }
        }
        assert forall|i: int| 0 <= i < intents.len() && intents[i].tick >= ack implies kept.contains(
            #[trigger] intents[i],
        ) by {
            if i < front.len() {
                assert(front[i] == intents[i]);
                let k = choose|k: int| 0 <= k < kept_front.len() && kept_front[k] == front[i];
                assert(kept[k] == intents[i]);
            } else {
                assert(kept[kept.len() - 1] == intents[i]);
            }
        }
    }
}

/// A log in ascending order stays so when an intent with a tick no earlier
/// than its last one is recorded.
pub proof fn lemma_record_keeps_ascending(intents: Seq<PlayerInput>, input: PlayerInput)
    requires
        ascending(intents),
        intents.len() > 0 ==> intents.last().tick <= input.tick,
    ensures
        ascending(intents.push(input)),
{
    let after = intents.push(input);
    assert forall|i: int, j: int| 0 <= i <= j < after.len() implies after[i].tick
        <= after[j].tick by {
        if j < intents.len() {
            assert(after[i] == intents[i] && after[j] == intents[j]);
        } else if i < intents.len() {
            assert(after[i] == intents[i]);
            assert(intents[i].tick <= intents.last().tick);
        }
    }
}

/// A log in ascending order stays so when it is pruned.
pub proof fn lemma_prune_keeps_ascending(intents: Seq<PlayerInput>, ack: u64)
    requires
        ascending(intents),
    ensures
        ascending(unacknowledged(intents, ack)),
    decreases intents.len(),
{
    reveal(Seq::filter);
    let kept = unacknowledged(intents, ack);
    if intents.len() > 0 {
        let front = intents.drop_last();
        let kept_front = unacknowledged(front, ack);
        assert(ascending(front)) by {
            assert forall|i: int, j: int| 0 <= i <= j < front.len() implies front[i].tick
                <= front[j].tick by {
                assert(front[i] == intents[i] && front[j] == intents[j]);
            }
        }
        lemma_prune_keeps_ascending(front, ack);
        lemma_prune_keeps_exactly(front, ack);
        assert forall|i: int, j: int| 0 <= i <= j < kept.len() implies kept[i].tick
            <= kept[j].tick by {
            if j < kept_front.len() {
                assert(kept[i] == kept_front[i] && kept[j] == kept_front[j]);
            } else if i < kept_front.len() {
                assert(kept[i] == kept_front[i]);
                assert(front.contains(kept_front[i]));
                let k = choose|k: int| 0 <= k < front.len() && front[k] == kept_front[i];
                assert(intents[k] == kept[i]);
                assert(kept[j] == intents[intents.len() - 1]);
            }
        }
    }
}

} // verus!
