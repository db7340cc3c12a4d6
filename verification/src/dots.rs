//! The dots that lie about the world until an actor comes by.

use vstd::prelude::*;
use crate::point::{Point, UNIT};

verus! {

/// The dots of a session, in the order in which they were laid out, and the
/// seed from which they are laid out.
pub struct Dots {
    pub pos: Vec<Point>,
    pub rng_seed: Option<u64>,
}

/// An actor at `at` touches the dot: they are less than one world unit apart
/// along each axis.
pub open spec fn near(dot: Point, at: Point) -> bool {
    -UNIT < dot.x - at.x < UNIT && -UNIT < dot.y - at.y < UNIT
}

/// No actor at one of `places` touches the dot.
pub open spec fn clear_of(dot: Point, places: Seq<Point>) -> bool {
    forall|i: int| 0 <= i < places.len() ==> !near(dot, #[trigger] places[i])
}

/// The dots that are left once the actors at `places` have picked up what
/// they touch, in their order.
pub open spec fn swept(dots: Seq<Point>, places: Seq<Point>) -> Seq<Point> {
    dots.filter(|dot: Point| clear_of(dot, places))
}

/// Filtering twice is filtering once by both conditions.
pub proof fn lemma_filter_twice<A>(
    s: Seq<A>,
    first: spec_fn(A) -> bool,
    second: spec_fn(A) -> bool,
    both: spec_fn(A) -> bool,
)
    requires
        forall|a: A| #[trigger] both(a) == (first(a) && second(a)),
    ensures
        s.filter(first).filter(second) == s.filter(both),
    decreases s.len(),
{
    reveal(Seq::filter);
    if s.len() > 0 {
        lemma_filter_twice(s.drop_last(), first, second, both);
        if first(s.last()) {
            let kept = s.drop_last().filter(first).push(s.last());
            assert(kept.drop_last() =~= s.drop_last().filter(first));
        }
    }
}

/// Picking up at one more place, after the others, leaves what picking up at
/// all of them at once leaves.
pub proof fn lemma_swept_one_more(dots: Seq<Point>, places: Seq<Point>, place: Point)
    ensures
        swept(swept(dots, places), seq![place]) == swept(dots, places.push(place)),
{
    let first = |dot: Point| clear_of(dot, places);
    let second = |dot: Point| clear_of(dot, seq![place]);
    let both = |dot: Point| clear_of(dot, places.push(place));
    assert forall|dot: Point| #[trigger] both(dot) == (first(dot) && second(dot)) by {
        let all = places.push(place);
        if first(dot) && second(dot) {
            assert(seq![place][0] == place);
            assert forall|i: int| 0 <= i < all.len() implies !near(dot, #[trigger] all[i]) by {
                if i < places.len() {
                    assert(all[i] == places[i]);
                }
            }
        }
        if both(dot) {
            assert forall|i: int| 0 <= i < places.len() implies !near(
                dot,
                #[trigger] places[i],
            ) by {
                assert(all[i] == places[i]);
            }
            assert(all[places.len() as int] == place);
        }
    }
    lemma_filter_twice(dots, first, second, both);
}

/// Whether an actor at `at` touches the dot.
pub fn touches(dot: Point, at: Point) -> (touch: bool)
    ensures
        touch == near(dot, at),
{
    let dx: i64 = dot.x as i64 - at.x as i64;
    let dy: i64 = dot.y as i64 - at.y as i64;
    let unit: i64 = UNIT as i64;
    -unit < dx && dx < unit && -unit < dy && dy < unit
}

impl Dots {
    /// No dots yet, and no seed.
    pub fn new() -> (dots: Self)
        ensures
            dots.pos@ == Seq::<Point>::empty(),
            dots.rng_seed is None,
    {
        Dots { pos: Vec::new(), rng_seed: None }
    }

    /// An actor at `at` picks up every dot that it touches. The other dots
    /// stay, in their order. Returns the number of dots picked up.
    pub fn collect(&mut self, at: Point) -> (taken: usize)
        ensures
            final(self).pos@ == swept(old(self).pos@, seq![at]),
            final(self).rng_seed == old(self).rng_seed,
            taken == old(self).pos@.len() - final(self).pos@.len(),
    {
        let ghost before = self.pos@;
        let ghost keep = |dot: Point| clear_of(dot, seq![at]);
        let mut left: Vec<Point> = Vec::new();
        let mut i: usize = 0;
        proof {
            reveal(Seq::filter);
            assert(before.take(0) =~= Seq::<Point>::empty());
        }
        while i < self.pos.len()
            invariant
                i <= self.pos.len(),
                self.pos@ == before,
                self.rng_seed == old(self).rng_seed,
                keep == |dot: Point| clear_of(dot, seq![at]),
                left@ == before.take(i as int).filter(keep),
                left@.len() <= i,
            decreases self.pos.len() - i,
        {
            let dot = self.pos[i];
            proof {
                reveal(Seq::filter);
                assert(before.take(i + 1).drop_last() =~= before.take(i as int));
                assert(before.take(i + 1).last() == dot);
                assert(seq![at][0] == at);
                assert(keep(dot) == !near(dot, at));
            }
            if !touches(dot, at) {
                left.push(dot);
            }
            i = i + 1;
        }
        proof {
            assert(before.take(i as int) =~= before);
        }
        let taken = self.pos.len() - left.len();
        self.pos = left;
        taken
    }
}

} // verus!
