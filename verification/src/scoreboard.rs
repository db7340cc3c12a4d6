//! The order and the figures of the score board.

use vstd::prelude::*;

verus! {

/// Points that complete the challenge.
pub const CHALLENGE: usize = 21;

/// Whether a score completes the challenge.
pub fn challenge_complete(score: usize) -> (complete: bool)
    ensures
        complete == (score == CHALLENGE),
{
    score == CHALLENGE
}

/// A number of seconds as a clock shows it: minutes and seconds, each below
/// sixty. Whole hours are not shown.
pub fn clock_face(seconds: u64) -> (face: (u64, u64))
    ensures
        face.0 == (seconds / 60) % 60,
        face.1 == seconds % 60,
{
    ((seconds / 60) % 60, seconds % 60)
}

/// `order` lists each place of a board of `len` lines exactly once.
pub open spec fn is_ordering(order: Seq<usize>, len: nat) -> bool {
    &&& order.len() == len
    &&& forall|i: int| 0 <= i < order.len() ==> order[i] < len
    &&& forall|i: int, j: int| 0 <= i < j < order.len() ==> order[i] != order[j]
}

/// Read in the order `order`, the scores never rise.
pub open spec fn descending(scores: Seq<usize>, order: Seq<usize>) -> bool {
    forall|i: int, j: int|
        0 <= i < j < order.len() ==> scores[order[i] as int] >= scores[order[j] as int]
}

/// The order in which to show the lines of a score board: the places of
/// `scores`, highest score first.
pub fn rank(scores: &Vec<usize>) -> (order: Vec<usize>)
    ensures
        is_ordering(order@, scores@.len()),
        descending(scores@, order@),
{
    let mut order: Vec<usize> = Vec::new();
    let mut next: usize = 0;
    while next < scores.len()
        invariant
            next <= scores.len(),
            order@.len() == next,
            forall|i: int| 0 <= i < order@.len() ==> order@[i] < next,
            forall|i: int, j: int| 0 <= i < j < order@.len() ==> order@[i] != order@[j],
            descending(scores@, order@),
        decreases scores.len() - next,
    {
        let score = scores[next];
        let mut place: usize = 0;
        while place < order.len() && scores[order[place]] >= score
            invariant
                place <= order@.len(),
                order@.len() == next,
                next < scores.len(),
                score == scores@[next as int],
                forall|i: int| 0 <= i < order@.len() ==> order@[i] < next,
                forall|i: int| 0 <= i < place ==> scores@[order@[i] as int] >= score,
            decreases order@.len() - place,
        {
            place = place + 1;
        }
        let ghost before = order@;
        order.insert(place, next);
        proof {
            let after = order@;
            assert forall|i: int| 0 <= i < after.len() implies after[i] < next + 1 by {
                if i < place {
                    assert(after[i] == before[i]);
                } else if i > place {
                    assert(after[i] == before[i - 1]);
                }
            }
            assert forall|i: int, j: int| 0 <= i < j < after.len() implies after[i] != after[j]
                && scores@[after[i] as int] >= scores@[after[j] as int] by {
                let a = if i < place {
                    i
                } else {
                    i - 1
                };
                let b = if j < place {
                    j
                } else {
                    j - 1
                };
                if i != place {
                    assert(after[i] == before[a]);
                }
                if j != place {
                    assert(after[j] == before[b]);
                }
                if i == place {
                    assert(before[b] < next);
                    assert(scores@[before[place as int] as int] < score);
                    assert(scores@[before[place as int] as int] >= scores@[before[b] as int]);
                }
            }
        }
        next = next + 1;
    }
    order
}

} // verus!
