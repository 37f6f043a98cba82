//! A growable sequence that keeps its first few elements inline, in an array of its own, and
//! moves them to a heap buffer once they no longer fit.
//!
//! A [`Vekk`] is in one of two states. In the inline state its elements are the first slots of
//! an [`Array`], counted by a `u16`; in the heap state they are what a `thin_vec::ThinVec`
//! holds. The step from the first to the second is taken when an element has no slot left, and
//! is never taken back: a container that pops down to nothing in the heap state stays there.
//!
//! To callers a container is the sequence of its elements, `v@`, the state it is in, and in
//! the inline state the slots of its array, `v.slots()`, of which the elements are the first.
//! Every function says what it does to the sequence and to the slots, and when the state
//! changes. A container that the library hands out
//! is well formed, `v.wf()`, and the functions ask that of the containers they are given.
//!
//! Memory is asked of the allocator by the heap buffer alone; where it cannot be had, the
//! process ends there, and no function returns to say so.

use thin_vec::ThinVec;
use vstd::prelude::*;
use vstd::std_specs::convert::FromSpecImpl;
use vstd::std_specs::iter::IteratorSpec;

pub mod heap;
pub mod iter;
pub mod laws;

use crate::heap::{can_hold, can_hold_now, heap_items, heap_slice};

verus! {

/// Fixed storage for the inline state: `CAPACITY` slots, each of which holds a value at all
/// times.
pub trait Array: Sized {
    /// What a slot holds.
    type Item;

    /// The number of slots.
    const CAPACITY: usize;

    /// The slots, first to last.
    spec fn slots(&self) -> Seq<Self::Item>;

    /// There are as many slots as the capacity says.
    proof fn slots_len(&self)
        ensures
            self.slots().len() == Self::CAPACITY,
    ;

    /// A clone of the array holds, in each slot, a clone of what stood there.
    proof fn clone_slots(&self, copy: &Self) where Self: Clone, Self::Item: Clone
        requires
            cloned::<Self>(*self, *copy),
        ensures
            forall|i: int|
                0 <= i < Self::CAPACITY ==> cloned::<Self::Item>(
                    #[trigger] self.slots()[i],
                    copy.slots()[i],
                ),
    ;

    /// An array to start from. What its slots hold is for nobody to read.
    fn default() -> (a: Self);

    /// All the slots.
    fn as_slice(&self) -> (s: &[Self::Item])
        ensures
            s@ == self.slots(),
    ;

    /// All the slots, open to change: what the slice holds when the caller lets go of it is
    /// what the slots hold.
    fn as_slice_mut(&mut self) -> (s: &mut [Self::Item])
        ensures
            s@ == old(self).slots(),
            final(s)@ == final(self).slots(),
    ;
}

impl<T: Default, const N: usize> Array for [T; N] {
    type Item = T;

    const CAPACITY: usize = N;

    open spec fn slots(&self) -> Seq<T> {
        self@
    }

    proof fn slots_len(&self) {
    }

    proof fn clone_slots(&self, copy: &Self) where Self: Clone, T: Clone {
    }

    fn default() -> (a: Self)
        ensures
            forall|i: int| 0 <= i < N ==> is_placeholder(#[trigger] a@[i]),
    {
        filled()
    }

    fn as_slice(&self) -> (s: &[T]) {
        self
    }

    fn as_slice_mut(&mut self) -> (s: &mut [T]) {
        self
    }
}

/// Whether `value` is what `T::default()` gives: it stands in a slot that holds no element.
pub open spec fn is_placeholder<T: Default>(value: T) -> bool {
    call_ensures(T::default, (), value)
}

/// A new placeholder: what `T::default()` returns.
fn placeholder<T: Default>() -> (value: T)
    ensures
        is_placeholder(value),
{
    T::default()
}

/// `core::array::from_fn`: a new array, each slot of which holds what one call of
/// `placeholder` returned.
#[verifier::external_body]
fn filled<T: Default, const N: usize>() -> (a: [T; N])
    ensures
        forall|i: int| 0 <= i < N ==> is_placeholder(#[trigger] a@[i]),
{
    core::array::from_fn(|_| placeholder())
}

/// An array has as many slots as its type says. Verus does not see what `CAPACITY` is outside
/// this module: `broadcast use vekk::array_capacity;` tells it.
pub broadcast proof fn array_capacity<T: Default, const N: usize>()
    ensures
        #[trigger] <[T; N] as Array>::CAPACITY == N,
{
}

/// `Iterator::size_hint`: the upper bound that an iterator gives for the number of elements it
/// still holds. An iterator may give any bound, so nothing is said of it.
#[verifier::external_body]
fn upper_bound<I: Iterator>(iter: &I) -> (upper: Option<usize>) {
    iter.size_hint().1
}

/// The room to ask of a new buffer that is meant for `capacity` elements: that much where it
/// can be asked for, and none where it cannot.
fn askable<T>(capacity: usize) -> (room: usize)
    ensures
        room == if can_hold::<T>(capacity as nat) {
            capacity
        } else {
            0
        },
{
    if can_hold_now::<T>(capacity) {
        capacity
    } else {
        0
    }
}

/// A new, empty buffer, asked to make the room that `askable` gives for `capacity`.
fn buffer<T>(capacity: usize) -> (vec: ThinVec<T>)
    ensures
        heap_items(vec) == Seq::<T>::empty(),
{
    ThinVec::with_capacity(askable::<T>(capacity))
}

/// The container. `v@` is the sequence of its elements.
pub struct Vekk<A: Array> {
    repr: Repr<A>,
}

enum Repr<A: Array> {
    /// The elements are the first `len` slots of `array`.
    Inline { len: u16, array: A },
    /// The elements are what the buffer holds.
    Heap(ThinVec<A::Item>),
}

impl<A: Array> View for Vekk<A> {
    type V = Seq<A::Item>;

    closed spec fn view(&self) -> Seq<A::Item> {
        match self.repr {
            Repr::Inline { len, array } => array.slots().take(len as int),
            Repr::Heap(vec) => heap_items(vec),
        }
    }
}

impl<A: Array> Vekk<A> {
    /// The most elements the inline state holds: one for each slot, but no more than a `u16`
    /// counts.
    pub open spec fn effective_capacity() -> nat {
        if A::CAPACITY <= 0xffff {
            A::CAPACITY as nat
        } else {
            0xffff
        }
    }

    /// The slots of the container's own array, first to last, while it is in the inline
    /// state: the elements are the first of them. None in the heap state.
    pub closed spec fn slots(&self) -> Seq<A::Item> {
        match self.repr {
            Repr::Inline { len, array } => array.slots(),
            Repr::Heap(vec) => Seq::empty(),
        }
    }

    /// Whether the slots from `from` on are as `A::default()` left them in some new array:
    /// no element has stood in them yet.
    pub open spec fn untouched(slots: Seq<A::Item>, from: int) -> bool {
        exists|made: A| #[trigger]
            call_ensures(A::default, (), made) && forall|j: int|
                from <= j < A::CAPACITY ==> slots[j] == made.slots()[j]
    }

    /// The heap state.
    pub closed spec fn spec_is_heap(&self) -> bool {
        self.repr is Heap
    }

    /// The inline state: the one that is not the heap state.
    pub open spec fn spec_is_inline(&self) -> bool {
        !self.is_heap()
    }

    /// What every container that this library hands out satisfies, and asks back: the inline
    /// state counts no more elements than it may hold.
    pub closed spec fn wf(&self) -> bool {
        match self.repr {
            Repr::Inline { len, array } => len <= Self::effective_capacity(),
            Repr::Heap(vec) => true,
        }
    }

    /// The inline state holds no more than its capacity, in the first of its slots; the heap
    /// state has no slots.
    pub proof fn inline_fits(&self)
        requires
            self.wf(),
        ensures
            self.is_inline() ==> self@.len() <= Self::effective_capacity(),
            self.is_inline() ==> self.slots().len() == A::CAPACITY && self@ == self.slots().take(
                self@.len() as int,
            ),
            self.is_heap() ==> self.slots().len() == 0,
    {
        match self.repr {
            Repr::Inline { len, array } => {
                array.slots_len();
            },
            Repr::Heap(vec) => {},
        }
    }

    /// Whether the elements are kept in the container's own array.
    #[verifier::when_used_as_spec(spec_is_inline)]
    pub fn is_inline(&self) -> (b: bool)
        ensures
            b == self.is_inline(),
    {
        match &self.repr {
            Repr::Inline { .. } => true,
            Repr::Heap(_) => false,
        }
    }

    /// Whether the elements are kept in a heap buffer.
    #[verifier::when_used_as_spec(spec_is_heap)]
    pub fn is_heap(&self) -> (b: bool)
        ensures
            b == self.is_heap(),
    {
        match &self.repr {
            Repr::Inline { .. } => false,
            Repr::Heap(_) => true,
        }
    }

    /// The number of elements.
    pub fn len(&self) -> (n: usize)
        requires
            self.wf(),
        ensures
            n == self@.len(),
    {
        match &self.repr {
            Repr::Inline { len, array } => {
                proof {
                    array.slots_len();
                }
                *len as usize
            },
            Repr::Heap(vec) => vec.len(),
        }
    }

    /// The elements, and no slot beyond them.
    pub fn as_slice(&self) -> (s: &[A::Item])
        requires
            self.wf(),
        ensures
            s@ == self@,
    {
        match &self.repr {
            Repr::Inline { len, array } => {
                proof {
                    array.slots_len();
                }
                vstd::slice::slice_subrange(array.as_slice(), 0, *len as usize)
            },
            Repr::Heap(vec) => heap_slice(vec),
        }
    }

    /// The elements, open to change in place. What the slice holds when the caller lets go of
    /// it is what the container holds; their number and the state stay.
    pub fn as_mut_slice(&mut self) -> (s: &mut [A::Item])
        requires
            old(self).wf(),
        ensures
            s@ == old(self)@,
            final(self)@ == final(s)@,
            final(self).wf(),
            final(self).is_heap() == old(self).is_heap(),
            final(self).slots().len() == old(self).slots().len(),
            forall|j: int|
                old(self)@.len() <= j < old(self).slots().len() ==> final(self).slots()[j] == old(
                    self,
                ).slots()[j],
    {
        match &mut self.repr {
            Repr::Inline { len, array } => {
                proof {
                    array.slots_len();
                    final(array).slots_len();
                }
                let slice = array.as_slice_mut();
                let (head, _tail) = slice.split_at_mut(*len as usize);
                head
            },
            Repr::Heap(vec) => vec.as_mut_slice(),
        }
    }

    /// Appends `item`. See `push_inner`.
    pub fn push(&mut self, item: A::Item) where A::Item: Default
        requires
            old(self).wf(),
            old(self)@.len() < usize::MAX,
        ensures
            final(self).wf(),
            final(self)@ == old(self)@.push(item),
            final(self).is_heap() <==> old(self).is_heap() || old(self)@.len()
                == Self::effective_capacity(),
            final(self).is_inline() ==> final(self).slots() == old(self).slots().update(
                old(self)@.len() as int,
                item,
            ),
    {
        self.push_inner(item);
    }

    /// Appends each element that `iter` hands out, in its order.
    pub fn extend<I: Iterator<Item = A::Item>>(&mut self, iter: I) where A::Item: Default
        requires
            old(self).wf(),
            iter.obeys_prophetic_iter_laws(),
            iter.decrease() is Some,
            old(self)@.len() + iter.remaining().len() <= usize::MAX,
        ensures
            final(self).wf(),
            final(self)@ == old(self)@ + iter.remaining(),
            final(self).is_heap() <==> old(self).is_heap() || old(self)@.len()
                + iter.remaining().len() > Self::effective_capacity(),
            final(self).is_inline() ==> final(self).slots() == final(self)@ + old(
                self,
            ).slots().skip(final(self)@.len() as int),
    {
        let mut source = iter;
        let ghost all = iter.remaining();
        let ghost mut done: int = 0;
        proof {
            self.inline_fits();
            if self.is_inline() {
                assert(self.slots() =~= self@ + self.slots().skip(self@.len() as int));
            }
        }
        loop
            invariant
                self.wf(),
                source.obeys_prophetic_iter_laws(),
                source.decrease() is Some,
                0 <= done <= all.len(),
                source.remaining() == all.skip(done),
                self@ == old(self)@ + all.take(done),
                self.is_inline() ==> self.slots() == self@ + old(self).slots().skip(
                    self@.len() as int,
                ),
                old(self).is_inline() ==> old(self).slots().len() == A::CAPACITY,
                old(self)@.len() + all.len() <= usize::MAX,
                self.is_heap() <==> old(self).is_heap() || old(self)@.len() + done
                    > Self::effective_capacity(),
            ensures
                done == all.len(),
            decreases source.decrease()->0,
        {
            match source.next() {
                Some(item) => {
                    let ghost held = self.slots();
                    let ghost count = self@.len() as int;
                    proof {
                        self.inline_fits();
                    }
                    self.push_inner(item);
                    proof {
                        done = done + 1;
                        if self.is_inline() {
                            self.inline_fits();
                            assert(held.len() == A::CAPACITY);
                            assert(self.slots() =~= self@ + old(self).slots().skip(count + 1));
                        }
                    }
                },
                None => {
                    break ;
                },
            }
        }
    }

    /// How one `pop` takes a container from `before` to `after`, handing out `out`: the last
    /// element leaves, or nothing changes where there is none, and the state stays what it was.
    pub open spec fn popped(before: Self, after: Self, out: Option<A::Item>) -> bool {
        &&& after.wf()
        &&& after.is_heap() == before.is_heap()
        &&& before@.len() == 0 ==> out is None && after@ == before@
        &&& before@.len() > 0 ==> out == Some(before@.last()) && after@ == before@.drop_last()
    }

    /// Takes the last element off, or returns `None` from an empty container. A container in
    /// the heap state stays there, whatever is left in it.
    pub fn pop(&mut self) -> (r: Option<A::Item>) where A::Item: Default
        requires
            old(self).wf(),
        ensures
            Self::popped(*old(self), *final(self), r),
            final(self).slots().len() == old(self).slots().len(),
            r is Some && old(self).is_inline() ==> is_placeholder(
                final(self).slots()[old(self)@.len() - 1],
            ),
            forall|j: int|
                0 <= j < old(self).slots().len() && j != old(self)@.len() - 1
                    ==> final(self).slots()[j] == old(self).slots()[j],
    {
        let r = match &mut self.repr {
            Repr::Inline { len, array } => {
                if *len > 0 {
                    proof {
                        array.slots_len();
                    }
                    let mut item = placeholder::<A::Item>();
                    let slice = array.as_slice_mut();
                    core::mem::swap(&mut slice[(*len - 1) as usize], &mut item);
                    *len -= 1;
                    Some(item)
                } else {
                    None
                }
            },
            Repr::Heap(vec) => vec.pop(),
        };
        assert(old(self)@.len() > 0 ==> self@ =~= old(self)@.drop_last());
        assert(old(self)@.len() == 0 ==> self@ =~= old(self)@);
        r
    }

    /// Puts `element` at `index` and moves what stood there or later one place up. A full
    /// inline state goes to the heap first. An index past the end is the caller's error: it is
    /// ruled out here, not reported.
    pub fn insert(&mut self, index: usize, element: A::Item) where A::Item: Default
        requires
            old(self).wf(),
            index <= old(self)@.len(),
            old(self)@.len() < usize::MAX,
        ensures
            final(self).wf(),
            final(self)@ == old(self)@.insert(index as int, element),
            final(self).is_heap() <==> old(self).is_heap() || old(self)@.len()
                == Self::effective_capacity(),
            final(self).is_inline() ==> final(self).slots() == final(self)@ + old(
                self,
            ).slots().skip(final(self)@.len() as int),
    {
        match &mut self.repr {
            Repr::Inline { len, array } => {
                proof {
                    array.slots_len();
                }
                if *len as usize == Self::inline_capacity() {
                    let mut vec = Self::thinvec_from_array(
                        array,
                        *len as usize,
                        Self::inline_capacity() + 1,
                    );
                    vec.insert(index, element);
                    self.repr = Repr::Heap(vec);
                } else {
                    // Each slot from `index` on takes what the slot before it held: `carry`
                    // is what the slot at hand is owed.
                    let slice = array.as_slice_mut();
                    let ghost before = slice@;
                    let count = *len as usize;
                    let mut carry = element;
                    let mut i = index;
                    while i <= count
                        invariant
                            index <= i <= count + 1,
                            count < slice@.len(),
                            slice@.len() == before.len(),
                            forall|j: int| 0 <= j < index ==> slice@[j] == before[j],
                            forall|j: int| index < j < i ==> slice@[j] == before[j - 1],
                            forall|j: int| i <= j < slice@.len() ==> slice@[j] == before[j],
                            i == index ==> carry == element,
                            i > index ==> slice@[index as int] == element && carry == before[i
                                - 1],
                        decreases count + 1 - i,
                    {
                        core::mem::swap(&mut slice[i], &mut carry);
                        i += 1;
                    }
                    *len += 1;
                    assert(slice@.take(count + 1) =~= before.take(count as int).insert(
                        index as int,
                        element,
                    ));
                }
            },
            Repr::Heap(vec) => {
                vec.insert(index, element);
            },
        }
    }

    fn inline_capacity() -> (c: usize)
        ensures
            c == Self::effective_capacity(),
    {
        if A::CAPACITY <= 0xffff {
            A::CAPACITY
        } else {
            0xffff
        }
    }

    /// Moves the first `len` slots of `array`, in their order, into a new buffer that was
    /// asked to take `capacity` elements, and leaves placeholders where they stood.
    fn thinvec_from_array(array: &mut A, len: usize, capacity: usize) -> (vec: ThinVec<
        A::Item,
    >) where A::Item: Default
        requires
            len <= A::CAPACITY,
        ensures
            heap_items(vec) == old(array).slots().take(len as int),
            forall|j: int| 0 <= j < len ==> is_placeholder(#[trigger] final(array).slots()[j]),
            forall|j: int|
                len <= j < A::CAPACITY ==> final(array).slots()[j] == old(array).slots()[j],
    {
        proof {
            array.slots_len();
        }
        let mut vec = buffer(capacity);
        let slice = array.as_slice_mut();
        let ghost before = slice@;
        let mut i: usize = 0;
        while i < len
            invariant
                i <= len <= slice@.len(),
                slice@.len() == before.len(),
                heap_items(vec) == before.take(i as int),
                forall|j: int| 0 <= j < i ==> is_placeholder(#[trigger] slice@[j]),
                forall|j: int| i <= j < slice@.len() ==> slice@[j] == before[j],
            decreases len - i,
        {
            let mut item = placeholder::<A::Item>();
            core::mem::swap(&mut slice[i], &mut item);
            vec.push(item);
            i += 1;
        }
        vec
    }

    /// Appends `item`: into the next free slot while there is one, else into the heap buffer,
    /// to which a full inline state moves first, element by element in their order.
    pub fn push_inner(&mut self, item: A::Item) where A::Item: Default
        requires
            old(self).wf(),
            old(self)@.len() < usize::MAX,
        ensures
            final(self).wf(),
            final(self)@ == old(self)@.push(item),
            final(self).is_heap() <==> old(self).is_heap() || old(self)@.len()
                == Self::effective_capacity(),
            final(self).is_inline() ==> final(self).slots() == old(self).slots().update(
                old(self)@.len() as int,
                item,
            ),
    {
        match &mut self.repr {
            Repr::Inline { len, array } => {
                proof {
                    array.slots_len();
                }
                if *len as usize == Self::inline_capacity() {
                    let mut vec = Self::thinvec_from_array(
                        array,
                        *len as usize,
                        Self::inline_capacity() + 1,
                    );
                    vec.push(item);
                    self.repr = Repr::Heap(vec);
                } else {
                    let slice = array.as_slice_mut();
                    slice[*len as usize] = item;
                    *len += 1;
                }
            },
            Repr::Heap(vec) => {
                vec.push(item);
            },
        }
    }

    /// Whether a container built from `count` elements, announced with the upper bound
    /// `upper`, ends in the heap state: it does where the bound passes the slot count, and
    /// where the elements pass what the inline state holds.
    pub open spec fn spills(count: nat, upper: Option<usize>) -> bool {
        ||| upper matches Some(bound) && bound > A::CAPACITY
        ||| count > Self::effective_capacity()
    }

    /// Builds a container from what `iter` hands out, where `upper` is the upper bound that
    /// the caller has for the number of elements, if any. The bound decides where the elements
    /// go first; it need not hold.
    pub fn from_iter_hinted<I: Iterator<Item = A::Item>>(iter: I, upper: Option<usize>) -> (v:
        Self) where A::Item: Default
        requires
            iter.obeys_prophetic_iter_laws(),
            iter.decrease() is Some,
            iter.remaining().len() <= usize::MAX,
        ensures
            v.wf(),
            v@ == iter.remaining(),
            v.is_heap() <==> Self::spills(iter.remaining().len(), upper),
            v.is_inline() ==> Self::untouched(v.slots(), v@.len() as int),
    {
        let ghost all = iter.remaining();
        if let Some(bound) = upper {
            if bound > A::CAPACITY {
                let mut vec = buffer(bound);
                Self::drain(iter, &mut vec);
                return Vekk { repr: Repr::Heap(vec) };
            }
        }
        let mut source = iter;
        let mut array = A::default();
        let ghost made = array;
        proof {
            array.slots_len();
        }
        let capacity = Self::inline_capacity();
        let mut len: usize = 0;
        loop
            invariant
                source.obeys_prophetic_iter_laws(),
                source.decrease() is Some,
                all == iter.remaining(),
                capacity == Self::effective_capacity(),
                len <= capacity,
                len <= all.len() <= usize::MAX,
                array.slots().len() == A::CAPACITY,
                source.remaining() == all.skip(len as int),
                array.slots().take(len as int) == all.take(len as int),
                call_ensures(A::default, (), made),
                forall|j: int| len <= j < A::CAPACITY ==> array.slots()[j] == made.slots()[j],
                !(upper matches Some(bound) && bound > A::CAPACITY),
            ensures
                len == all.len(),
            decreases source.decrease()->0,
        {
            match source.next() {
                None => {
                    break ;
                },
                Some(item) => {
                    if len >= capacity {
                        let rest = upper_bound(&source);
                        let room = Self::room_for(capacity, rest);
                        let mut vec = Self::thinvec_from_array(&mut array, len, room);
                        vec.push(item);
                        assert(heap_items(vec) == all.take(len + 1));
                        assert(source.remaining() == all.skip(len + 1));
                        Self::drain(source, &mut vec);
                        assert(all.take(len + 1) + all.skip(len + 1) == all);
                        return Vekk { repr: Repr::Heap(vec) };
                    }
                    let slice = array.as_slice_mut();
                    slice[len] = item;
                    len += 1;
                    assert(array.slots().take(len as int) == all.take(len as int));
                },
            }
        }
        assert(all.take(len as int) == all);
        Vekk { repr: Repr::Inline { len: len as u16, array } }
    }

    /// Builds a container from what `iter` hands out, going by the upper bound that `iter`
    /// itself gives for their number. Whatever that bound is, the elements are those of
    /// `iter`, and more than the inline state holds are in the heap state.
    pub fn from_iter<I: Iterator<Item = A::Item>>(iter: I) -> (v: Self) where A::Item: Default
        requires
            iter.obeys_prophetic_iter_laws(),
            iter.decrease() is Some,
            iter.remaining().len() <= usize::MAX,
        ensures
            v.wf(),
            v@ == iter.remaining(),
            v@.len() > Self::effective_capacity() ==> v.is_heap(),
            v.is_inline() ==> Self::untouched(v.slots(), v@.len() as int),
    {
        let upper = upper_bound(&iter);
        Self::from_iter_hinted(iter, upper)
    }

    /// The room to ask for when the inline state overflows: for the `held` elements it had,
    /// for the one that did not fit, and for as many more as `rest` announces; `usize::MAX`
    /// where that is more than a `usize` counts.
    spec fn room_wanted(held: usize, rest: Option<usize>) -> usize {
        let more: usize = match rest {
            Some(n) => n,
            None => 0,
        };
        if held + 1 + more <= usize::MAX {
            (held + 1 + more) as usize
        } else {
            usize::MAX
        }
    }

    fn room_for(held: usize, rest: Option<usize>) -> (room: usize)
        requires
            held <= 0xffff,
        ensures
            room == Self::room_wanted(held, rest),
    {
        let more = match rest {
            Some(n) => n,
            None => 0,
        };
        if more < usize::MAX - held {
            held + 1 + more
        } else {
            usize::MAX
        }
    }

    /// Moves everything that `iter` still holds to the end of `vec`, in its order.
    fn drain<I: Iterator<Item = A::Item>>(iter: I, vec: &mut ThinVec<A::Item>)
        requires
            iter.obeys_prophetic_iter_laws(),
            iter.decrease() is Some,
            heap_items(*old(vec)).len() + iter.remaining().len() <= usize::MAX,
        ensures
            heap_items(*final(vec)) == heap_items(*old(vec)) + iter.remaining(),
    {
        let mut source = iter;
        let ghost all = iter.remaining();
        let ghost mut done: int = 0;
        loop
            invariant
                source.obeys_prophetic_iter_laws(),
                source.decrease() is Some,
                0 <= done <= all.len(),
                source.remaining() == all.skip(done),
                heap_items(*vec) == heap_items(*old(vec)) + all.take(done),
                heap_items(*old(vec)).len() + all.len() <= usize::MAX,
            ensures
                done == all.len(),
            decreases source.decrease()->0,
        {
            match source.next() {
                Some(item) => {
                    vec.push(item);
                    proof {
                        done = done + 1;
                    }
                },
                None => {
                    break ;
                },
            }
        }
        assert(all.take(done) == all);
    }
}

impl<A: Array> Default for Vekk<A> {
    /// An empty container in the inline state.
    fn default() -> (v: Self)
        ensures
            v.wf(),
            v.is_inline(),
            v@ == Seq::<A::Item>::empty(),
            Self::untouched(v.slots(), 0),
    {
        let array = A::default();
        assert(call_ensures(A::default, (), array));
        Self { repr: Repr::Inline { len: 0, array } }
    }
}

impl<A: Array + Clone> Clone for Vekk<A> where A::Item: Clone {
    /// A container in the same state that holds a clone of each element in its place.
    fn clone(&self) -> (v: Self)
        ensures
            v.is_heap() == self.is_heap(),
            self.wf() ==> v.wf() && v@.len() == self@.len(),
            self.wf() ==> forall|i: int|
                0 <= i < self@.len() ==> cloned::<A::Item>(#[trigger] self@[i], v@[i]),
            v.slots().len() == self.slots().len(),
            forall|i: int|
                0 <= i < self.slots().len() ==> cloned::<A::Item>(
                    #[trigger] self.slots()[i],
                    v.slots()[i],
                ),
    {
        match &self.repr {
            Repr::Inline { len, array } => {
                let copy = array.clone();
                proof {
                    array.slots_len();
                    copy.slots_len();
                    array.clone_slots(&copy);
                }
                Self { repr: Repr::Inline { len: *len, array: copy } }
            },
            Repr::Heap(vec) => Self { repr: Repr::Heap(vec.clone()) },
        }
    }
}

impl<A: Array> From<A> for Vekk<A> where A::Item: Default {
    /// A full container: every slot of `value` is an element. It is in the inline state
    /// unless there are more slots than a `u16` counts, which go to the heap with the rest.
    fn from(value: A) -> (v: Self)
        ensures
            v.wf(),
            v@ == value.slots(),
            v.is_inline() <==> A::CAPACITY <= 0xffff,
            v.is_inline() ==> v.slots() == value.slots(),
    {
        proof {
            value.slots_len();
        }
        if A::CAPACITY <= 0xffff {
            Self { repr: Repr::Inline { len: A::CAPACITY as u16, array: value } }
        } else {
            let mut array = value;
            let vec = Self::thinvec_from_array(&mut array, A::CAPACITY, A::CAPACITY);
            Self { repr: Repr::Heap(vec) }
        }
    }
}

impl<A: Array> FromSpecImpl<A> for Vekk<A> where A::Item: Default {
    /// Two containers of the same elements may differ in what their free slots hold, so the
    /// conversion owes no one value: what it gives is stated on `from`.
    open spec fn obeys_from_spec() -> bool {
        false
    }

    open spec fn from_spec(value: A) -> Self {
        choose|v: Self| v.wf() && v@ == value.slots()
    }
}

impl<A: Array> From<Vec<A::Item>> for Vekk<A> where A::Item: Default {
    /// A container of the elements of `value`, in the inline state where they fit.
    fn from(value: Vec<A::Item>) -> (v: Self)
        ensures
            v.wf(),
            v@ == value@,
            v.is_inline() <==> value@.len() <= Self::effective_capacity(),
            v.is_inline() ==> Self::untouched(v.slots(), v@.len() as int),
    {
        let count = value.len();
        Self::from_iter_hinted(value.into_iter(), Some(count))
    }
}

impl<A: Array> FromSpecImpl<Vec<A::Item>> for Vekk<A> where A::Item: Default {
    open spec fn obeys_from_spec() -> bool {
        false
    }

    open spec fn from_spec(value: Vec<A::Item>) -> Self {
        choose|v: Self| v.wf() && v@ == value@
    }
}

} // verus!
