//! What holds of a container over several calls.

use vstd::prelude::*;

use crate::iter::Iter;
use crate::{Array, Vekk};

verus! {

/// Once in the heap state, a container stays there through any number of pops, down to no
/// element at all; and `n` pops leave what `n` elements fewer leave.
pub proof fn heap_outlasts_pops<A: Array>(states: Seq<Vekk<A>>, outs: Seq<Option<A::Item>>)
    requires
        states.len() == outs.len() + 1,
        states[0].is_heap(),
        forall|i: int|
            0 <= i < outs.len() ==> Vekk::popped(#[trigger] states[i], states[i + 1], outs[i]),
    ensures
        forall|i: int| 0 <= i < states.len() ==> (#[trigger] states[i]).is_heap(),
        outs.len() <= states[0]@.len() ==> states.last()@ == states[0]@.take(
            states[0]@.len() - outs.len(),
        ),
        outs.len() >= states[0]@.len() ==> states.last()@.len() == 0,
    decreases outs.len(),
{
    if outs.len() > 0 {
        let last = outs.len() - 1;
        heap_outlasts_pops(states.drop_last(), outs.drop_last());
        assert(Vekk::popped(states[last], states[last + 1], outs[last]));
        assert forall|i: int| 0 <= i < states.len() implies (#[trigger] states[i]).is_heap() by {
            if i <= last {
                assert(states.drop_last()[i] == states[i]);
            }
        }
    }
}

/// Calls of `next` that each hand out an element hand out the first elements of what was to
/// come, in their order, and leave the rest.
pub proof fn handed_in_order<A: Array>(states: Seq<Iter<A>>, handed: Seq<A::Item>)
    requires
        states.len() == handed.len() + 1,
        forall|i: int|
            0 <= i < handed.len() ==> Iter::stepped(
                #[trigger] states[i],
                states[i + 1],
                Some(handed[i]),
            ),
    ensures
        handed.len() <= states[0]@.len(),
        handed == states[0]@.take(handed.len() as int),
        states.last()@ == states[0]@.skip(handed.len() as int),
    decreases handed.len(),
{
    let all = states[0]@;
    if handed.len() == 0 {
        assert(handed =~= all.take(0));
        assert(states.last()@ =~= all.skip(0));
    } else {
        let last = handed.len() - 1;
        let earlier = states.drop_last();
        let given = handed.drop_last();
        assert forall|i: int| 0 <= i < given.len() implies Iter::stepped(
            #[trigger] earlier[i],
            earlier[i + 1],
            Some(given[i]),
        ) by {
            assert(Iter::stepped(states[i], states[i + 1], Some(handed[i])));
        }
        handed_in_order(earlier, given);
        assert(earlier.last() == states[last]);
        assert(Iter::stepped(states[last], states[last + 1], Some(handed[last])));
        assert(handed =~= given.push(all[last]));
        assert(all.take(last + 1) =~= all.take(last).push(all[last]));
        assert(all.skip(last).drop_first() =~= all.skip(last + 1));
    }
}

/// Round trip: a container built from what the iterator of another hands out, call by call
/// until nothing is left, holds what the other held, in the same order.
pub proof fn round_trip<A: Array>(
    origin: Vekk<A>,
    states: Seq<Iter<A>>,
    handed: Seq<A::Item>,
    rebuilt: Vekk<A>,
)
    requires
        states.len() == handed.len() + 1,
        states[0]@ == origin@,
        forall|i: int|
            0 <= i < handed.len() ==> Iter::stepped(
                #[trigger] states[i],
                states[i + 1],
                Some(handed[i]),
            ),
        states.last()@.len() == 0,
        rebuilt@ == handed,
    ensures
        rebuilt@ == origin@,
{
    handed_in_order(states, handed);
    assert(origin@.take(handed.len() as int) =~= origin@);
}

/// The round trip, made: a container built by `from_iter` from the iterator that `into_iter`
/// makes of `origin` holds what `origin` held, in the same order.
pub fn round_trip_made<A: Array>(origin: Vekk<A>) -> (rebuilt: Vekk<A>) where A::Item: Default
    requires
        origin.wf(),
    ensures
        rebuilt.wf(),
        rebuilt@ == origin@,
{
    let iter = origin.into_iter();
    // The count is a `usize`, which is all that `from_iter` asks to know of it.
    let _ = Iter::size_hint(&iter);
    Vekk::from_iter(iter)
}

} // verus!
