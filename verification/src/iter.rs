//! Owned iteration: a container handed over element by element, first to last.
//!
//! An inline container hands over its array, from which the elements are taken slot by slot;
//! a heap container hands over its buffer, whose own iteration does the rest.

use thin_vec::IntoIter;
use vstd::prelude::*;
use vstd::std_specs::iter::IteratorSpecImpl;

use crate::heap::{heap_into_iter, heap_next, heap_size_hint, iter_items};
use crate::{is_placeholder, placeholder, Array, Repr, Vekk};

verus! {

/// What is left of a container that is being handed out.
pub struct Iter<A: Array>(IterRepr<A>);

enum IterRepr<A: Array> {
    Inline(InlineIter<A>),
    Heap(IntoIter<A::Item>),
}

/// The inline state under iteration: the slots from `pos` up to `len` are still to come.
struct InlineIter<A: Array> {
    pos: u16,
    len: u16,
    array: A,
}

impl<A: Array> InlineIter<A> {
    spec fn wf(&self) -> bool {
        self.pos <= self.len <= A::CAPACITY
    }

    spec fn rest(&self) -> Seq<A::Item> {
        self.array.slots().subrange(self.pos as int, self.len as int)
    }

    /// Takes the element at the cursor out of its slot, leaves a placeholder there, and moves
    /// the cursor on. At the end bound nothing is taken and nothing changes.
    fn next(&mut self) -> (r: Option<A::Item>) where A::Item: Default
        requires
            old(self).wf(),
        ensures
            final(self).wf(),
            final(self).len == old(self).len,
            final(self).array.slots().len() == old(self).array.slots().len(),
            old(self).pos == old(self).len ==> r is None && *final(self) == *old(self),
            old(self).pos < old(self).len ==> r == Some(
                old(self).array.slots()[old(self).pos as int],
            ) && final(self).pos == old(self).pos + 1 && is_placeholder(
                final(self).array.slots()[old(self).pos as int],
            ),
            forall|j: int|
                0 <= j < A::CAPACITY && j != old(self).pos
                    ==> final(self).array.slots()[j] == old(self).array.slots()[j],
            old(self).rest().len() == 0 ==> r is None && final(self).rest() == old(self).rest(),
            old(self).rest().len() > 0 ==> r == Some(old(self).rest()[0]) && final(self).rest()
                == old(self).rest().drop_first(),
    {
        proof {
            self.array.slots_len();
        }
        if self.pos == self.len {
            None
        } else {
            let mut item = placeholder::<A::Item>();
            let slice = self.array.as_slice_mut();
            core::mem::swap(&mut slice[self.pos as usize], &mut item);
            self.pos += 1;
            Some(item)
        }
    }

    fn size_hint(&self) -> (r: (usize, Option<usize>))
        requires
            self.wf(),
        ensures
            r.0 == self.rest().len(),
            r.0 == self.len - self.pos,
            r.1 == Some(r.0),
    {
        proof {
            self.array.slots_len();
        }
        let remaining = (self.len - self.pos) as usize;
        (remaining, Some(remaining))
    }
}

impl<A: Array> View for Iter<A> {
    type V = Seq<A::Item>;

    /// The elements still to come, in the order in which they come.
    closed spec fn view(&self) -> Seq<A::Item> {
        match self.0 {
            IterRepr::Inline(iter) => iter.rest(),
            IterRepr::Heap(iter) => iter_items(iter),
        }
    }
}

impl<A: Array> Iter<A> {
    /// What every iterator that `into_iter` makes satisfies, and `next` keeps: an inline
    /// iteration has its cursor no further than its end, and its end within the slots.
    pub closed spec fn wf(&self) -> bool {
        match self.0 {
            IterRepr::Inline(iter) => iter.wf(),
            IterRepr::Heap(iter) => true,
        }
    }

    /// The iteration is over a heap buffer.
    pub closed spec fn is_heap(&self) -> bool {
        self.0 is Heap
    }

    /// The slots of the array that an inline iteration is over, first to last; none where it
    /// is over a heap buffer.
    pub closed spec fn slots(&self) -> Seq<A::Item> {
        match self.0 {
            IterRepr::Inline(iter) => iter.array.slots(),
            IterRepr::Heap(iter) => Seq::empty(),
        }
    }

    /// The slot that an inline iteration takes its next element from: as many elements as it
    /// has handed out.
    pub closed spec fn cursor(&self) -> nat {
        match self.0 {
            IterRepr::Inline(iter) => iter.pos as nat,
            IterRepr::Heap(iter) => 0,
        }
    }

    /// What is still to come of an inline iteration stands in the slots from the cursor on.
    pub proof fn rest_in_slots(&self)
        requires
            self.wf(),
        ensures
            self.is_heap() ==> self.slots().len() == 0 && self.cursor() == 0,
            !self.is_heap() ==> self.slots().len() == A::CAPACITY && self.cursor() + self@.len()
                <= A::CAPACITY && self@ == self.slots().subrange(
                self.cursor() as int,
                (self.cursor() + self@.len()) as int,
            ),
    {
        match self.0 {
            IterRepr::Inline(iter) => {
                iter.array.slots_len();
            },
            IterRepr::Heap(iter) => {},
        }
    }

    /// How one `next` takes an iterator from `before` to `after`, handing out `out`: the first
    /// of what was still to come, or nothing where nothing was.
    pub open spec fn stepped(before: Self, after: Self, out: Option<A::Item>) -> bool {
        &&& after.wf()
        &&& before@.len() == 0 ==> out is None && after@ == before@
        &&& before@.len() > 0 ==> out == Some(before@[0]) && after@ == before@.drop_first()
    }

    /// What one `next` does to the slots of an iterator that goes from `before` to `after`
    /// and hands out `out`. An inline iteration that hands out an element leaves a
    /// placeholder in the slot it took it from and moves its cursor on by one; no other slot
    /// changes, and none at all where nothing is handed out or the iteration is over a buffer.
    pub open spec fn vacated(before: Self, after: Self, out: Option<A::Item>) -> bool where
        A::Item: Default,
    {
        &&& after.is_heap() == before.is_heap()
        &&& after.slots().len() == before.slots().len()
        &&& after.cursor() == before.cursor() + if out is Some && !before.is_heap() {
            1int
        } else {
            0int
        }
        &&& out is Some && !before.is_heap() ==> is_placeholder(
            after.slots()[before.cursor() as int],
        )
        &&& forall|j: int|
            0 <= j < before.slots().len() && (j != before.cursor() || out is None)
                ==> after.slots()[j] == before.slots()[j]
    }

    /// Hands out the next element, or `None` once nothing is left, and from then on.
    pub fn next(&mut self) -> (r: Option<A::Item>) where A::Item: Default
        requires
            old(self).wf(),
        ensures
            Self::stepped(*old(self), *final(self), r),
            Self::vacated(*old(self), *final(self), r),
    {
        proof {
            self.rest_in_slots();
        }
        match &mut self.0 {
            IterRepr::Inline(iter) => iter.next(),
            IterRepr::Heap(iter) => heap_next(iter),
        }
    }

    /// The number of elements still to come, as lower and as upper bound.
    pub fn size_hint(&self) -> (r: (usize, Option<usize>))
        requires
            self.wf(),
        ensures
            r.0 == self@.len(),
            r.1 == Some(r.0),
    {
        match &self.0 {
            IterRepr::Inline(inline) => inline.size_hint(),
            IterRepr::Heap(heap) => heap_size_hint(heap),
        }
    }
}

impl<A: Array> Vekk<A> {
    /// Gives the container up for iteration: its elements come out in their order. An inline
    /// container hands its array over as it is, a heap container its buffer.
    pub fn into_iter(self) -> (iter: Iter<A>)
        requires
            self.wf(),
        ensures
            iter.wf(),
            iter@ == self@,
            iter.is_heap() == self.is_heap(),
            iter.slots() == self.slots(),
            iter.cursor() == 0,
    {
        match self.repr {
            Repr::Inline { len, array } => {
                proof {
                    array.slots_len();
                }
                Iter(IterRepr::Inline(InlineIter { pos: 0, len, array }))
            },
            Repr::Heap(vec) => Iter(IterRepr::Heap(heap_into_iter(vec))),
        }
    }
}

impl<A: Array> Iter<A> {
    /// Decides `wf`.
    fn is_wf(&self) -> (b: bool)
        ensures
            b == self.wf(),
    {
        match &self.0 {
            IterRepr::Inline(iter) => iter.pos <= iter.len && iter.len as usize <= A::CAPACITY,
            IterRepr::Heap(_) => true,
        }
    }
}

/// The iterator as one of std. These functions ask nothing of their callers: they test what
/// `Iter::next` and `Iter::size_hint` ask, which holds of every iterator that `into_iter`
/// made, and do as those do.
impl<A: Array> Iterator for Iter<A> where A::Item: Default {
    type Item = A::Item;

    fn next(&mut self) -> (r: Option<A::Item>)
        ensures
            old(self).wf() ==> Iter::stepped(*old(self), *final(self), r) && Iter::vacated(
                *old(self),
                *final(self),
                r,
            ),
            !old(self).wf() ==> r is None && *final(self) == *old(self),
    {
        if self.is_wf() {
            Iter::next(self)
        } else {
            None
        }
    }

    fn size_hint(&self) -> (r: (usize, Option<usize>))
        ensures
            self.wf() ==> r.0 == self@.len() && r.1 == Some(r.0),
            !self.wf() ==> r.0 == 0 && r.1 is None,
    {
        if self.is_wf() {
            Iter::size_hint(self)
        } else {
            (0, None)
        }
    }
}

impl<A: Array> IteratorSpecImpl for Iter<A> where A::Item: Default {
    open spec fn obeys_prophetic_iter_laws(&self) -> bool {
        self.wf()
    }

    open spec fn remaining(&self) -> Seq<A::Item> {
        self@
    }

    open spec fn will_return_none(&self) -> bool {
        true
    }

    open spec fn decrease(&self) -> Option<nat> {
        Some(self@.len())
    }

    open spec fn initial_value_relation(&self, init: &Self) -> bool {
        init@ == self@
    }

    open spec fn peek(&self, index: int) -> Option<A::Item> {
        if 0 <= index < self@.len() {
            Some(self@[index])
        } else {
            None
        }
    }
}

} // verus!
