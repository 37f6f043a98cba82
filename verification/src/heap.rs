//! What the library takes on trust of `thin_vec::ThinVec`, the buffer behind the heap state,
//! and of `thin_vec::IntoIter`, its owned iteration.
//!
//! Verus does not read the buffer's code. Each item below gives one of its functions the
//! contract that the library's proofs rest on, read off release 0.2.19 of `thin-vec`, to which
//! the dependency is held: later releases keep the length of a buffer of zero-sized elements
//! where the pointer is, and their `insert` writes through it.
//!
//! The contracts speak of the elements that a buffer holds, `heap_items`, and of those that an
//! iteration still holds, `iter_items`, and not of the room a buffer has. Room is what a
//! buffer happens to have asked for, and how it grows is its own affair. So one failure stays
//! outside the contracts: a full buffer that has to grow and can get no memory, or would pass
//! `isize::MAX` bytes, ends the process or panics, as `Vec` does. What does depend on the
//! arguments alone is ruled out by `requires`.

use core::mem::{align_of, size_of};

use thin_vec::{IntoIter, ThinVec};
use vstd::prelude::*;
use vstd::std_specs::convert::FromSpec;
use vstd::std_specs::iter::IteratorSpec;

verus! {

#[verifier::external_type_specification]
#[verifier::external_body]
#[verifier::reject_recursive_types(T)]
pub struct ExThinVec<T>(ThinVec<T>);

/// The elements that a buffer holds, first to last: those of the `Vec` that it converts into.
pub open spec fn heap_items<T>(v: ThinVec<T>) -> Seq<T> {
    <Vec<T> as FromSpec<ThinVec<T>>>::from_spec(v)@
}

/// Whether room for `cap` elements can be asked for. The buffer puts a header of two words
/// before the elements, pads it up to their alignment, and rounds the whole up to that
/// alignment; it panics where this passes `isize::MAX` bytes. The bound here counts four
/// words and two alignments, which is never less than the buffer counts.
pub open spec fn can_hold<T>(cap: nat) -> bool {
    cap * vstd::layout::size_of::<T>() + 2 * vstd::layout::align_of::<T>() + 4
        * vstd::layout::size_of::<usize>() <= isize::MAX
}

/// Decides `can_hold`.
pub(crate) fn can_hold_now<T>(cap: usize) -> (b: bool)
    ensures
        b == can_hold::<T>(cap as nat),
{
    let size: usize = size_of::<T>();
    let align: usize = align_of::<T>();
    let word: usize = size_of::<usize>();
    assert(cap * size <= 0xffff_ffff_ffff_ffff * 0xffff_ffff_ffff_ffff) by (nonlinear_arith)
        requires
            cap <= 0xffff_ffff_ffff_ffff,
            size <= 0xffff_ffff_ffff_ffff,
    ;
    let elements: u128 = (cap as u128) * (size as u128);
    if elements > isize::MAX as u128 {
        false
    } else {
        elements + 2 * (align as u128) + 4 * (word as u128) <= isize::MAX as u128
    }
}

/// `ThinVec::with_capacity`: the new buffer is empty, whatever room was asked for. The call
/// panics where that room cannot be asked for, which is left out; for no room at all it
/// allocates nothing.
pub assume_specification<T>[ ThinVec::<T>::with_capacity ](cap: usize) -> (v: ThinVec<T>)
    requires
        cap == 0 || can_hold::<T>(cap as nat),
    ensures
        heap_items(v) == Seq::<T>::empty(),
;

/// `ThinVec::len`: the number of elements held.
pub assume_specification<T>[ ThinVec::<T>::len ](v: &ThinVec<T>) -> (n: usize)
    ensures
        n == heap_items(*v).len(),
;

/// `ThinVec::push`: the element goes to the end, and the others stay as they were. A buffer
/// of `usize::MAX` elements panics, since its length could count no more: it is left out.
pub assume_specification<T>[ ThinVec::<T>::push ](v: &mut ThinVec<T>, val: T)
    requires
        heap_items(*old(v)).len() < usize::MAX,
    ensures
        heap_items(*final(v)) == heap_items(*old(v)).push(val),
;

/// `ThinVec::pop`: the last element leaves and is returned; an empty buffer gives `None` and
/// stays empty.
pub assume_specification<T>[ ThinVec::<T>::pop ](v: &mut ThinVec<T>) -> (r: Option<T>)
    ensures
        heap_items(*old(v)).len() == 0 ==> r is None && heap_items(*final(v)) == heap_items(
            *old(v),
        ),
        heap_items(*old(v)).len() > 0 ==> r == Some(heap_items(*old(v)).last()) && heap_items(
            *final(v),
        ) == heap_items(*old(v)).drop_last(),
;

/// `ThinVec::insert`: the element lands at `idx`, and what stood there or later moves one
/// place up. The call panics on `idx > len` and on a buffer of `usize::MAX` elements: both
/// are left out.
pub assume_specification<T>[ ThinVec::<T>::insert ](v: &mut ThinVec<T>, idx: usize, elem: T)
    requires
        idx <= heap_items(*old(v)).len(),
        heap_items(*old(v)).len() < usize::MAX,
    ensures
        heap_items(*final(v)) == heap_items(*old(v)).insert(idx as int, elem),
;

/// `ThinVec::as_slice`: a slice of exactly the elements held.
#[verifier::external_body]
pub(crate) fn heap_slice<T>(v: &ThinVec<T>) -> (s: &[T])
    ensures
        s@ == heap_items(*v),
{
    v.as_slice()
}

/// `ThinVec::as_mut_slice`: a slice of exactly the elements held; what it holds when the
/// caller lets go of it is what the buffer holds from then on.
pub assume_specification<T>[ ThinVec::<T>::as_mut_slice ](v: &mut ThinVec<T>) -> (s: &mut [T])
    ensures
        s@ == heap_items(*old(v)),
        heap_items(*final(v)) == final(s)@,
;

/// `Clone::clone` of a buffer: a buffer of the same length that holds, in each place, what
/// `clone` made of the element there.
pub assume_specification<T: Clone>[ <ThinVec<T> as Clone>::clone ](v: &ThinVec<T>) -> (copy:
    ThinVec<T>)
    ensures
        heap_items(copy).len() == heap_items(*v).len(),
        forall|i: int|
            0 <= i < heap_items(*v).len() ==> cloned::<T>(
                #[trigger] heap_items(*v)[i],
                heap_items(copy)[i],
            ),
;

#[verifier::external_type_specification]
#[verifier::external_body]
#[verifier::reject_recursive_types(T)]
pub struct ExIntoIter<T>(IntoIter<T>);

/// The elements that the owned iteration of a buffer still holds, in the order in which they
/// come: as many as its measure counts, each the one it lets a caller look ahead to.
pub open spec fn iter_items<T>(it: IntoIter<T>) -> Seq<T> {
    Seq::new(
        match IteratorSpec::decrease(&it) {
            Some(count) => count,
            None => 0,
        },
        |i: int| IteratorSpec::peek(&it, i)->0,
    )
}

/// `IntoIterator::into_iter` of a buffer: the iteration starts at the first element and holds
/// all of them.
#[verifier::external_body]
pub(crate) fn heap_into_iter<T>(v: ThinVec<T>) -> (it: IntoIter<T>)
    ensures
        iter_items(it) == heap_items(v),
{
    v.into_iter()
}

/// `Iterator::next` of a buffer's owned iteration: the first element still held leaves and is
/// returned; with none left it gives `None`, and nothing changes.
#[verifier::external_body]
pub(crate) fn heap_next<T>(it: &mut IntoIter<T>) -> (r: Option<T>)
    ensures
        iter_items(*old(it)).len() == 0 ==> r is None && iter_items(*final(it)) == iter_items(
            *old(it),
        ),
        iter_items(*old(it)).len() > 0 ==> r == Some(iter_items(*old(it))[0]) && iter_items(
            *final(it),
        ) == iter_items(*old(it)).drop_first(),
{
    it.next()
}

/// `Iterator::size_hint` of a buffer's owned iteration: the number of elements still held, as
/// lower and as upper bound.
#[verifier::external_body]
pub(crate) fn heap_size_hint<T>(it: &IntoIter<T>) -> (r: (usize, Option<usize>))
    ensures
        r.0 == iter_items(*it).len(),
        r.1 == Some(r.0),
{
    it.size_hint()
}

} // verus!
