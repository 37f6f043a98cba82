use core::mem::size_of;

use vekk::iter::Iter;
use vekk::laws::round_trip_made;
use vekk::{Array, Vekk};

/// An iterator over `items` that gives no upper bound for their number.
struct Unbounded<T> {
    items: Vec<T>,
}

impl<T> Unbounded<T> {
    fn over(mut items: Vec<T>) -> Self {
        items.reverse();
        Unbounded { items }
    }
}

impl<T> Iterator for Unbounded<T> {
    type Item = T;

    fn next(&mut self) -> Option<T> {
        self.items.pop()
    }

    fn size_hint(&self) -> (usize, Option<usize>) {
        (0, None)
    }
}

fn chars(text: &str) -> Vec<char> {
    text.chars().collect()
}

#[test]
fn scenario_push_twice_then_pop() {
    let mut v: Vekk<[u32; 1]> = Default::default();
    v.push(1);
    assert!(v.is_inline());
    assert_eq!(v.as_slice(), &[1]);
    v.push(2);
    assert!(v.is_heap());
    assert_eq!(v.as_slice(), &[1, 2]);
    assert_eq!(v.pop(), Some(2));
    assert!(v.is_heap());
    assert_eq!(v.as_slice(), &[1]);
}

#[test]
fn scenario_insert_into_full_inline() {
    let mut v: Vekk<[char; 4]> = chars("abde").into();
    assert!(v.is_inline());
    assert_eq!(v.len(), 4);
    v.insert(2, 'c');
    assert!(v.is_heap());
    assert_eq!(v.as_slice(), &['a', 'b', 'c', 'd', 'e']);
}

#[test]
fn scenario_no_slots() {
    let v: Vekk<[u32; 0]> = Vekk::from_iter(Vec::new().into_iter());
    assert!(v.is_inline());
    assert_eq!(v.len(), 0);
    assert_eq!(v.as_slice(), &[] as &[u32]);

    let v: Vekk<[u32; 0]> = Vekk::from_iter(vec![42].into_iter());
    assert!(v.is_heap());
    assert_eq!(v.as_slice(), &[42]);
}

#[test]
fn scenario_inserts_fill_then_spill() {
    let mut v: Vekk<[char; 4]> = Default::default();
    v.insert(0, 'a');
    assert!(v.is_inline());
    assert_eq!(v.as_slice(), &['a']);
    v.insert(1, 'b');
    assert!(v.is_inline());
    assert_eq!(v.as_slice(), &['a', 'b']);
    v.insert(2, 'c');
    assert!(v.is_inline());
    assert_eq!(v.as_slice(), &['a', 'b', 'c']);
    v.insert(3, 'd');
    assert!(v.is_inline());
    assert_eq!(v.as_slice(), &['a', 'b', 'c', 'd']);
    v.insert(4, 'e');
    assert!(v.is_heap());
    assert_eq!(v.as_slice(), &['a', 'b', 'c', 'd', 'e']);
}

#[test]
fn short_sequences_stay_inline() {
    for count in 0..=4usize {
        let items: Vec<usize> = (0..count).collect();
        let v: Vekk<[usize; 4]> = items.clone().into();
        assert!(v.is_inline());
        assert_eq!(v.len(), count);
        assert_eq!(v.as_slice(), items.as_slice());

        let v: Vekk<[usize; 4]> = Vekk::from_iter(items.clone().into_iter());
        assert!(v.is_inline());
        assert_eq!(v.as_slice(), items.as_slice());
    }
}

#[test]
fn long_sequences_go_to_the_heap() {
    for count in 5..=9usize {
        let items: Vec<usize> = (0..count).collect();
        let v: Vekk<[usize; 4]> = items.clone().into();
        assert!(v.is_heap());
        assert_eq!(v.len(), count);
        assert_eq!(v.as_slice(), items.as_slice());

        let v: Vekk<[usize; 4]> = Vekk::from_iter(items.clone().into_iter());
        assert!(v.is_heap());
        assert_eq!(v.as_slice(), items.as_slice());
    }
}

#[test]
fn heap_state_outlasts_pops() {
    let mut v: Vekk<[u8; 2]> = vec![1, 2, 3].into();
    assert!(v.is_heap());
    assert_eq!(v.pop(), Some(3));
    assert!(v.is_heap());
    assert_eq!(v.pop(), Some(2));
    assert!(v.is_heap());
    assert_eq!(v.as_slice(), &[1]);
    assert_eq!(v.pop(), Some(1));
    assert!(v.is_heap());
    assert_eq!(v.len(), 0);
    assert_eq!(v.pop(), None);
    assert!(v.is_heap());
    assert_eq!(v.pop(), None);
    assert!(v.is_heap());
    v.push(7);
    assert!(v.is_heap());
    assert_eq!(v.as_slice(), &[7]);
}

#[test]
fn round_trip_keeps_elements_and_order() {
    let inline: Vekk<[u32; 4]> = vec![3, 1, 2].into();
    let rebuilt: Vekk<[u32; 4]> = Vekk::from_iter(inline.into_iter());
    assert!(rebuilt.is_inline());
    assert_eq!(rebuilt.as_slice(), &[3, 1, 2]);

    let heap: Vekk<[u32; 2]> = vec![9, 8, 7, 6, 5].into();
    assert!(heap.is_heap());
    let rebuilt: Vekk<[u32; 2]> = Vekk::from_iter(heap.into_iter());
    assert!(rebuilt.is_heap());
    assert_eq!(rebuilt.as_slice(), &[9, 8, 7, 6, 5]);
}

#[test]
fn size_does_not_follow_the_element() {
    assert_eq!(size_of::<Vekk<[u8; 1]>>(), 16);
    assert_eq!(size_of::<Vekk<[u32; 1]>>(), 16);
    assert_eq!(size_of::<Vekk<[u64; 1]>>(), 16);
}

#[test]
fn insert_moves_every_later_element_up() {
    let mut v: Vekk<[u32; 8]> = vec![1, 2, 3, 4].into();
    v.insert(1, 9);
    assert!(v.is_inline());
    assert_eq!(v.as_slice(), &[1, 9, 2, 3, 4]);
    v.insert(0, 8);
    assert_eq!(v.as_slice(), &[8, 1, 9, 2, 3, 4]);
    v.insert(6, 7);
    assert_eq!(v.as_slice(), &[8, 1, 9, 2, 3, 4, 7]);
    v.insert(3, 6);
    assert!(v.is_inline());
    assert_eq!(v.as_slice(), &[8, 1, 9, 6, 2, 3, 4, 7]);
    v.insert(4, 5);
    assert!(v.is_heap());
    assert_eq!(v.as_slice(), &[8, 1, 9, 6, 5, 2, 3, 4, 7]);
    v.insert(0, 0);
    assert_eq!(v.as_slice(), &[0, 8, 1, 9, 6, 5, 2, 3, 4, 7]);
}

#[test]
fn bound_above_the_slots_goes_straight_to_the_heap() {
    let v: Vekk<[u32; 4]> = Vekk::from_iter_hinted(vec![1, 2].into_iter(), Some(10));
    assert!(v.is_heap());
    assert_eq!(v.as_slice(), &[1, 2]);

    let v: Vekk<[u32; 4]> = Vekk::from_iter_hinted(Vec::new().into_iter(), Some(5));
    assert!(v.is_heap());
    assert_eq!(v.len(), 0);

    let v: Vekk<[u32; 4]> = Vekk::from_iter((0..10).filter(|n| n % 5 == 0));
    assert!(v.is_heap());
    assert_eq!(v.as_slice(), &[0, 5]);
}

#[test]
fn bound_within_the_slots_fills_them_first() {
    let v: Vekk<[u32; 4]> = Vekk::from_iter_hinted(vec![1, 2].into_iter(), Some(4));
    assert!(v.is_inline());
    assert_eq!(v.as_slice(), &[1, 2]);

    let v: Vekk<[u32; 4]> = Vekk::from_iter_hinted(vec![1, 2, 3, 4].into_iter(), None);
    assert!(v.is_inline());
    assert_eq!(v.as_slice(), &[1, 2, 3, 4]);
}

#[test]
fn bound_that_falls_short_loses_nothing() {
    let v: Vekk<[u32; 2]> = Vekk::from_iter_hinted(vec![1, 2, 3, 4, 5].into_iter(), Some(0));
    assert!(v.is_heap());
    assert_eq!(v.as_slice(), &[1, 2, 3, 4, 5]);

    let v: Vekk<[u32; 2]> = Vekk::from_iter_hinted(vec![1, 2, 3].into_iter(), None);
    assert!(v.is_heap());
    assert_eq!(v.as_slice(), &[1, 2, 3]);

    let v: Vekk<[u32; 1]> = Vekk::from_iter(Unbounded::over(vec![1, 2, 3]));
    assert!(v.is_heap());
    assert_eq!(v.as_slice(), &[1, 2, 3]);

    let v: Vekk<[u32; 3]> = Vekk::from_iter(Unbounded::over(vec![1, 2, 3]));
    assert!(v.is_inline());
    assert_eq!(v.as_slice(), &[1, 2, 3]);
}

#[test]
fn array_becomes_a_full_container() {
    let v: Vekk<[u32; 3]> = [7, 8, 9].into();
    assert!(v.is_inline());
    assert_eq!(v.len(), 3);
    assert_eq!(v.as_slice(), &[7, 8, 9]);

    let v: Vekk<[u32; 0]> = [].into();
    assert!(v.is_inline());
    assert_eq!(v.len(), 0);
}

#[test]
fn array_of_more_slots_than_the_count_holds_goes_to_the_heap() {
    let mut slots = [0u8; 70000];
    for (place, slot) in slots.iter_mut().enumerate() {
        *slot = (place % 251) as u8;
    }
    let v: Vekk<[u8; 70000]> = slots.into();
    assert!(v.is_heap());
    assert_eq!(v.len(), 70000);
    assert_eq!(v.as_slice(), &slots[..]);
}

#[test]
fn inline_state_ends_at_what_the_count_holds() {
    let mut v: Vekk<[u8; 70000]> = Default::default();
    for n in 0..65535usize {
        v.push((n % 7) as u8);
    }
    assert!(v.is_inline());
    assert_eq!(v.len(), 65535);
    v.push(9);
    assert!(v.is_heap());
    assert_eq!(v.len(), 65536);
    assert_eq!(v.as_slice()[65534], (65534 % 7) as u8);
    assert_eq!(v.as_slice()[65535], 9);

    let items: Vec<u8> = (0..65536usize).map(|n| (n % 5) as u8).collect();
    let v: Vekk<[u8; 70000]> = Vekk::from_iter(items.clone().into_iter());
    assert!(v.is_heap());
    assert_eq!(v.as_slice(), items.as_slice());

    let items: Vec<u8> = (0..65535usize).map(|n| (n % 5) as u8).collect();
    let v: Vekk<[u8; 70000]> = items.clone().into();
    assert!(v.is_inline());
    assert_eq!(v.as_slice(), items.as_slice());
}

#[test]
fn extend_appends_in_order_and_spills() {
    let mut v: Vekk<[u32; 4]> = vec![1].into();
    v.extend(vec![2, 3].into_iter());
    assert!(v.is_inline());
    assert_eq!(v.as_slice(), &[1, 2, 3]);
    v.extend(Vec::new().into_iter());
    assert!(v.is_inline());
    assert_eq!(v.as_slice(), &[1, 2, 3]);
    v.extend(vec![4, 5, 6].into_iter());
    assert!(v.is_heap());
    assert_eq!(v.as_slice(), &[1, 2, 3, 4, 5, 6]);
    v.extend(vec![7].into_iter());
    assert!(v.is_heap());
    assert_eq!(v.as_slice(), &[1, 2, 3, 4, 5, 6, 7]);
}

#[test]
fn push_inner_is_push() {
    let mut v: Vekk<[u32; 2]> = Default::default();
    v.push_inner(1);
    v.push_inner(2);
    assert!(v.is_inline());
    assert_eq!(v.as_slice(), &[1, 2]);
    v.push_inner(3);
    assert!(v.is_heap());
    assert_eq!(v.as_slice(), &[1, 2, 3]);
}

#[test]
fn pop_of_nothing_is_none() {
    let mut v: Vekk<[u32; 2]> = Default::default();
    assert_eq!(v.pop(), None);
    assert!(v.is_inline());
    assert_eq!(v.len(), 0);
    v.push(5);
    assert_eq!(v.pop(), Some(5));
    assert_eq!(v.pop(), None);
    assert_eq!(v.len(), 0);
}

#[test]
fn mutable_slice_writes_through() {
    let mut v: Vekk<[u32; 4]> = vec![1, 2, 3].into();
    assert_eq!(v.as_mut_slice().len(), 3);
    v.as_mut_slice()[1] = 20;
    v.as_mut_slice().swap(0, 2);
    assert!(v.is_inline());
    assert_eq!(v.as_slice(), &[3, 20, 1]);
    v.push(4);
    v.push(5);
    assert!(v.is_heap());
    assert_eq!(v.as_mut_slice().len(), 5);
    v.as_mut_slice()[4] = 50;
    v.as_mut_slice().reverse();
    assert!(v.is_heap());
    assert_eq!(v.as_slice(), &[50, 4, 1, 20, 3]);
}

#[test]
fn clone_is_equal_and_apart() {
    let inline: Vekk<[String; 2]> = vec!["a".to_string()].into();
    let mut copy = inline.clone();
    assert!(copy.is_inline());
    assert_eq!(copy.as_slice(), inline.as_slice());
    copy.push("b".to_string());
    assert_eq!(inline.as_slice(), &["a".to_string()]);
    assert_eq!(copy.as_slice(), &["a".to_string(), "b".to_string()]);

    let heap: Vekk<[String; 1]> = vec!["x".to_string(), "y".to_string()].into();
    let mut copy = heap.clone();
    assert!(copy.is_heap());
    assert_eq!(copy.as_slice(), heap.as_slice());
    copy.as_mut_slice()[0] = "z".to_string();
    assert_eq!(copy.pop(), Some("y".to_string()));
    assert_eq!(heap.as_slice(), &["x".to_string(), "y".to_string()]);
    assert_eq!(copy.as_slice(), &["z".to_string()]);
}

#[test]
fn iteration_counts_down_and_ends_for_good() {
    let inline: Vekk<[u32; 4]> = vec![1, 2, 3].into();
    let mut iter = inline.into_iter();
    assert_eq!(iter.size_hint(), (3, Some(3)));
    assert_eq!(iter.next(), Some(1));
    assert_eq!(iter.size_hint(), (2, Some(2)));
    assert_eq!(iter.next(), Some(2));
    assert_eq!(iter.next(), Some(3));
    assert_eq!(iter.size_hint(), (0, Some(0)));
    assert_eq!(iter.next(), None);
    assert_eq!(iter.next(), None);
    assert_eq!(iter.size_hint(), (0, Some(0)));

    let heap: Vekk<[u32; 1]> = vec![4, 5, 6].into();
    assert!(heap.is_heap());
    let mut iter = heap.into_iter();
    assert_eq!(iter.size_hint(), (3, Some(3)));
    assert_eq!(iter.next(), Some(4));
    assert_eq!(iter.size_hint(), (2, Some(2)));
    assert_eq!(iter.next(), Some(5));
    assert_eq!(iter.next(), Some(6));
    assert_eq!(iter.size_hint(), (0, Some(0)));
    assert_eq!(iter.next(), None);
    assert_eq!(iter.next(), None);
}

#[test]
fn iteration_skips_what_was_popped() {
    let mut v: Vekk<[u32; 4]> = vec![1, 2, 3, 4].into();
    assert_eq!(v.pop(), Some(4));
    let collected: Vec<u32> = v.into_iter().collect();
    assert_eq!(collected, vec![1, 2, 3]);
}

#[test]
fn owned_values_move_through_both_states() {
    let mut v: Vekk<[String; 2]> = Default::default();
    v.push("one".to_string());
    v.insert(0, "zero".to_string());
    assert!(v.is_inline());
    v.insert(1, "half".to_string());
    assert!(v.is_heap());
    assert_eq!(
        v.as_slice(),
        &["zero".to_string(), "half".to_string(), "one".to_string()]
    );
    assert_eq!(v.pop(), Some("one".to_string()));
    let mut iter = v.into_iter();
    assert_eq!(iter.next(), Some("zero".to_string()));
    drop(iter);

    let mut w: Vekk<[String; 3]> = vec!["a".to_string(), "b".to_string()].into();
    assert_eq!(w.pop(), Some("b".to_string()));
    w.push("c".to_string());
    let mut iter = w.into_iter();
    assert_eq!(iter.next(), Some("a".to_string()));
    assert_eq!(iter.next(), Some("c".to_string()));
    assert_eq!(iter.next(), None);
}

#[test]
fn elements_without_size() {
    let mut v: Vekk<[(); 2]> = Default::default();
    v.push(());
    v.insert(0, ());
    assert!(v.is_inline());
    assert_eq!(v.len(), 2);
    v.insert(1, ());
    assert!(v.is_heap());
    assert_eq!(v.len(), 3);
    v.push(());
    v.insert(4, ());
    v.insert(0, ());
    assert_eq!(v.len(), 6);
    assert_eq!(v.as_slice().len(), 6);
    assert_eq!(v.pop(), Some(()));
    assert_eq!(v.len(), 5);
    let copy = v.clone();
    assert_eq!(copy.len(), 5);
    let mut iter = v.into_iter();
    assert_eq!(iter.size_hint(), (5, Some(5)));
    assert_eq!(iter.next(), Some(()));
    assert_eq!(iter.size_hint(), (4, Some(4)));
}

#[test]
fn default_array_of_many_slots() {
    let slots: [u16; 40] = Array::default();
    assert_eq!(Array::as_slice(&slots).len(), 40);
    assert_eq!(<[u16; 40] as Array>::CAPACITY, 40);
    let mut v: Vekk<[u16; 40]> = Default::default();
    for n in 0..40u16 {
        v.push(n);
    }
    assert!(v.is_inline());
    assert_eq!(v.len(), 40);
    assert_eq!(v.as_slice()[39], 39);
    v.push(40);
    assert!(v.is_heap());
    assert_eq!(v.len(), 41);
}

#[test]
fn array_slices_see_every_slot() {
    let mut slots = [1u32, 2, 3];
    assert_eq!(Array::as_slice(&slots), &[1, 2, 3]);
    Array::as_slice_mut(&mut slots)[1] = 20;
    assert_eq!(slots, [1, 20, 3]);
}

#[test]
fn bound_beyond_all_memory_is_no_order_for_room() {
    let v: Vekk<[u32; 2]> = Vekk::from_iter_hinted(vec![1, 2, 3].into_iter(), Some(usize::MAX));
    assert!(v.is_heap());
    assert_eq!(v.as_slice(), &[1, 2, 3]);

    let v: Vekk<[u64; 2]> =
        Vekk::from_iter_hinted(vec![1, 2].into_iter(), Some(usize::MAX / 8));
    assert!(v.is_heap());
    assert_eq!(v.as_slice(), &[1, 2]);
}

#[test]
fn default_array_holds_a_default_in_every_slot() {
    let slots: [u32; 5] = Array::default();
    assert_eq!(slots, [0, 0, 0, 0, 0]);
    let slots: [String; 3] = Array::default();
    assert_eq!(slots, [String::new(), String::new(), String::new()]);
    let slots: [Option<u8>; 2] = Array::default();
    assert_eq!(slots, [None, None]);
    let slots: [char; 40] = Array::default();
    assert!(slots.iter().all(|slot| *slot == '\0'));
}

#[test]
fn iterator_of_std_hands_out_the_same() {
    let inline: Vekk<[u32; 4]> = vec![1, 2, 3].into();
    let mut seen = Vec::new();
    for item in inline.into_iter() {
        seen.push(item);
    }
    assert_eq!(seen, vec![1, 2, 3]);

    let heap: Vekk<[String; 1]> = vec!["a".to_string(), "b".to_string(), "c".to_string()].into();
    let mut iter: Iter<[String; 1]> = heap.into_iter();
    assert_eq!(Iterator::size_hint(&iter), (3, Some(3)));
    assert_eq!(Iterator::next(&mut iter), Some("a".to_string()));
    assert_eq!(Iterator::size_hint(&iter), (2, Some(2)));
    let rest: Vec<String> = iter.collect();
    assert_eq!(rest, vec!["b".to_string(), "c".to_string()]);

    let inline: Vekk<[u8; 3]> = vec![7, 8].into();
    let doubled: Vec<u16> = inline.into_iter().map(|n| n as u16 * 2).collect();
    assert_eq!(doubled, vec![14, 16]);
}

#[test]
fn round_trip_made_keeps_elements_and_order() {
    let inline: Vekk<[char; 4]> = vec!['x', 'y'].into();
    let rebuilt = round_trip_made(inline);
    assert!(rebuilt.is_inline());
    assert_eq!(rebuilt.as_slice(), &['x', 'y']);

    let mut heap: Vekk<[u32; 2]> = vec![1, 2, 3, 4].into();
    assert_eq!(heap.pop(), Some(4));
    assert!(heap.is_heap());
    let rebuilt = round_trip_made(heap);
    assert!(rebuilt.is_heap());
    assert_eq!(rebuilt.as_slice(), &[1, 2, 3]);

    let empty: Vekk<[u32; 0]> = Default::default();
    let rebuilt = round_trip_made(empty);
    assert_eq!(rebuilt.len(), 0);
}

#[test]
fn heap_iteration_dropped_midway_lets_go_of_the_rest() {
    let counted = std::rc::Rc::new(());
    let items: Vec<std::rc::Rc<()>> = (0..5).map(|_| counted.clone()).collect();
    let heap: Vekk<[std::rc::Rc<()>; 2]> = items.into();
    assert!(heap.is_heap());
    assert_eq!(std::rc::Rc::strong_count(&counted), 6);
    let mut iter = heap.into_iter();
    let first = iter.next();
    let second = iter.next();
    assert_eq!(iter.size_hint(), (3, Some(3)));
    drop(iter);
    assert_eq!(std::rc::Rc::strong_count(&counted), 3);
    drop(first);
    drop(second);
    assert_eq!(std::rc::Rc::strong_count(&counted), 1);
}
