use linked_vec::inner_types::{IndexError, StoreIndex, VecNode};
use linked_vec::{CapacityOverflow, DequeOp, LinkedVec, ReserveError};

fn single_len_push_pop<I: StoreIndex + Copy>() {
    let mut obj = LinkedVec::<isize, I>::new();
    assert_eq!(obj.len(), 0);
    obj.push_back(3);
    assert_eq!(obj.len(), 1);
    obj.push_back(4);
    assert_eq!(obj.len(), 2);
    obj.push_back(5);
    assert_eq!(obj.len(), 3);

    assert_eq!(obj.pop(), Some(5));
    assert_eq!(obj.len(), 2);
    assert_eq!(obj.pop_back(), Some(4));
    assert_eq!(obj.len(), 1);
    assert_eq!(obj.pop(), Some(3));
    assert_eq!(obj.len(), 0);
    assert_eq!(obj.pop(), None);
    assert_eq!(obj.len(), 0);
}

#[test]
fn tests_test_vecnode() {
    let mut obj = VecNode::<isize>::default();
    assert_eq!(obj.payload, 0);
    assert_eq!(obj.next, None);
    assert_eq!(obj.prev, None);

    obj.next = Some(1);
    assert_eq!(obj.not_clone().next, Some(1));
    assert_eq!(obj.to_owned().next, None);
}

#[test]
fn tests_len_push_pop_subsets() {
    single_len_push_pop::<u8>();
    single_len_push_pop::<u16>();
    single_len_push_pop::<usize>();
}

#[test]
fn tests_len_push_pop_u_superset() {
    single_len_push_pop::<u128>();
}

#[test]
fn tests_len_push_pop_orthagonal() {
    single_len_push_pop::<i8>();
    single_len_push_pop::<i16>();
    single_len_push_pop::<isize>();
}

#[test]
fn tests_len_push_pop_i_superset() {
    single_len_push_pop::<i128>();
}

#[test]
fn mod_test_vecnode() {
    let mut obj = VecNode::<isize>::default();
    assert_eq!(obj.payload, 0);
    assert_eq!(obj.next, None);
    assert_eq!(obj.prev, None);

    obj.next = Some(1);
    assert_eq!(obj.not_clone().next, Some(1));
    assert_eq!(obj.to_owned().next, None);
}

#[test]
fn mod_len_push_pop_subsets() {
    single_len_push_pop::<u8>();
    single_len_push_pop::<u16>();
    single_len_push_pop::<usize>();
}

#[test]
fn mod_len_push_pop_u_superset() {
    single_len_push_pop::<u128>();
}

#[test]
fn mod_len_push_pop_orthagonal() {
    single_len_push_pop::<i8>();
    single_len_push_pop::<i16>();
    single_len_push_pop::<isize>();
}

#[test]
fn mod_len_push_pop_i_superset() {
    single_len_push_pop::<i128>();
}

#[test]
fn len_push_pop_nonmax() {
    single_len_push_pop::<nonmax::NonMaxU8>();
    single_len_push_pop::<nonmax::NonMaxU32>();
    single_len_push_pop::<nonmax::NonMaxU64>();
    single_len_push_pop::<nonmax::NonMaxU128>();
    single_len_push_pop::<nonmax::NonMaxUsize>();
}

#[test]
fn overflow_baseline() {
    let mut obj = LinkedVec::<i64, i8>::new();
    obj.extend((0..=127).collect()).unwrap();
    assert_eq!(i8::get_max(), 127);

    let mut obj = LinkedVec::<i64, u8>::new();
    obj.extend((0..=255).collect()).unwrap();
    assert_eq!(u8::get_max(), 255);

    let mut obj = LinkedVec::<i64, nonmax::NonMaxI8>::new();
    obj.extend((0..=126).collect()).unwrap();
    assert_eq!(nonmax::NonMaxI8::get_max(), 126);

    let mut obj = LinkedVec::<i64, nonmax::NonMaxU8>::new();
    obj.extend((0..=254).collect()).unwrap();
    assert_eq!(nonmax::NonMaxU8::get_max(), 254);
}

#[test]
fn overflow_exact_boundary() {
    // An 8-bit signed index addresses positions 0..=127, so a store of 128
    // slots is full: the 129th element is refused, never an earlier one.
    let mut obj = LinkedVec::<i64, i8>::new();
    assert_eq!(obj.extend((0..=128).collect()), Err(CapacityOverflow));
    assert_eq!(obj.len(), 128);
    assert_eq!(obj.pop_back(), Some(127));

    let mut obj = LinkedVec::<i64, nonmax::NonMaxI8>::new();
    assert_eq!(obj.extend((0..=127).collect()), Err(CapacityOverflow));
    assert_eq!(obj.len(), 127);
    assert_eq!(obj.pop_back(), Some(126));
}

#[test]
fn index_round_trip() {
    assert_eq!(i8::try_from_usize(127).unwrap().to_usize(), 127);
    assert_eq!(i8::try_from_usize(128), Err(IndexError));
    assert_eq!(u8::try_from_usize(255).unwrap().to_usize(), 255);
    assert_eq!(u8::try_from_usize(256), Err(IndexError));
    assert_eq!(u16::try_from_usize(9), Ok(9u16));
    assert_eq!(usize::try_from_usize(17).unwrap().to_usize(), 17);

    assert_eq!(nonmax::NonMaxU8::try_from_usize(254).unwrap().to_usize(), 254);
    assert!(nonmax::NonMaxU8::try_from_usize(255).is_err());
    assert_eq!(nonmax::NonMaxI8::try_from_usize(126).unwrap().to_usize(), 126);
    assert!(nonmax::NonMaxI8::try_from_usize(127).is_err());
    assert_eq!(nonmax::NonMaxUsize::try_from_usize(40).unwrap().to_usize(), 40);

    assert_eq!(i8::from_usize(5).to_usize(), 5);
    assert_eq!(nonmax::NonMaxU32::from_usize(7).to_usize(), 7);

    assert_eq!(i8::try_from_usize(3).unwrap().checked_pos(), Some(3));
    assert_eq!((-1i8).checked_pos(), None);
    assert_eq!(3u8.checked_pos(), Some(3));
}

#[test]
fn try_reserve_reports_overflow() {
    let mut obj = LinkedVec::<i64, i8>::new();
    obj.push_back(1);
    assert!(matches!(
        obj.try_reserve(128),
        Err(ReserveError::CapacityOverflow)
    ));
    assert!(obj.try_reserve(127).is_ok());
    assert_eq!(obj.len(), 1);
    assert_eq!(obj.pop_front(), Some(1));
}

#[test]
fn test_swap_p() {
    let mut obj: LinkedVec<i32> = LinkedVec::new();
    obj.push_back(1);
    obj.push_back(2);
    obj.push_back(3);
    obj.swap_p(0, 2);
    // Physical payloads exchanged; the logical order follows them.
    assert_eq!(*obj.get_p(0), 3);
    assert_eq!(*obj.get_p(2), 1);
    assert_eq!(obj.front(), Some(&3));
    assert_eq!(obj.back(), Some(&1));
    obj.swap_p(1, 1);
    assert_eq!(*obj.get_p(1), 2);
}

#[test]
fn test_stale_physical_index() {
    // Removal relocates the physically last slot, so a physical index
    // captured beforehand can silently address a different payload after.
    let mut obj: LinkedVec<i32> = LinkedVec::new();
    obj.push_back(10);
    obj.push_back(20);
    obj.push_back(30);
    let captured: usize = 0;
    assert_eq!(*obj.get_p(captured), 10);
    obj.pop_front();
    assert_eq!(*obj.get_p(captured), 30);
    assert_eq!(obj.len(), 2);
}

#[test]
fn test_swap_remove_logical_order() {
    let mut obj: LinkedVec<i32> = LinkedVec::new();
    for v in [10, 20, 30, 40] {
        obj.push_back(v);
    }
    // Physical slot 1 holds 20; the last slot (40) moves down into it.
    assert_eq!(obj.swap_remove(1), 20);
    let mut it = obj.iter();
    assert_eq!(it.next(), Some(&10));
    assert_eq!(it.next(), Some(&30));
    assert_eq!(it.next(), Some(&40));
    assert_eq!(it.next(), None);
    assert_eq!(*obj.get_p(1), 40);
}

#[test]
fn test_cursor_nonempty_wrap() {
    let mut obj: LinkedVec<i32> = LinkedVec::new();
    obj.push_back(1);
    obj.push_back(2);
    obj.push_back(3);
    let cur = obj.cursor_front();
    let mut ne = cur.as_nonempty_cursor().unwrap();
    assert_eq!(*ne.current(), 1);
    assert_eq!(ne.index_l(), 0);
    assert!(ne.move_next());
    assert_eq!(*ne.current(), 2);
    assert!(ne.move_next());
    assert_eq!(*ne.current(), 3);
    // Wrapping past the tail reports false and lands on the head.
    assert!(!ne.move_next());
    assert_eq!(*ne.current(), 1);
    assert!(!ne.move_prev());
    assert_eq!(*ne.current(), 3);
    assert_eq!(ne.index_l(), 2);
    let back = ne.as_cursor();
    assert_eq!(back.current(), Some(&3));

    let empty: LinkedVec<i32> = LinkedVec::new();
    assert!(empty.cursor_front().as_nonempty_cursor().is_none());
}

#[test]
fn test_from_iter_order() {
    let obj: LinkedVec<i32> = LinkedVec::from_iter(vec![7, 8, 9]);
    assert_eq!(obj.len(), 3);
    assert_eq!(obj.front(), Some(&7));
    assert_eq!(obj.back(), Some(&9));
    assert_eq!(*obj.get_p(0), 7);
    assert_eq!(*obj.get_p(2), 9);
}

#[test]
fn test_into_iter_drains() {
    let obj: LinkedVec<i32> = LinkedVec::from_iter(vec![1, 2, 3, 4]);
    let mut it = obj.into_iter();
    assert_eq!(it.size_hint(), (4, Some(4)));
    assert_eq!(it.next(), Some(1));
    assert_eq!(it.next_back(), Some(4));
    assert_eq!(it.next(), Some(2));
    assert_eq!(it.next(), Some(3));
    assert_eq!(it.next(), None);
    assert_eq!(it.next_back(), None);
}

#[test]
fn test_replay_matches_deque() {
    // The same operations applied to the list and to a reference VecDeque
    // must produce the same order.
    let ops = vec![
        DequeOp::PushBack(1),
        DequeOp::PushFront(2),
        DequeOp::PushBack(3),
        DequeOp::PopFront,
        DequeOp::PushFront(4),
        DequeOp::PopBack,
        DequeOp::PushBack(5),
    ];
    let mut list: LinkedVec<i32> = LinkedVec::new();
    list.replay(ops);

    let mut model: std::collections::VecDeque<i32> = std::collections::VecDeque::new();
    model.push_back(1);
    model.push_front(2);
    model.push_back(3);
    model.pop_front();
    model.push_front(4);
    model.pop_back();
    model.push_back(5);

    let mut it = list.iter();
    let mut got = Vec::new();
    while let Some(x) = it.next() {
        got.push(*x);
    }
    assert_eq!(got, Vec::from(model));
    assert_eq!(got, vec![4, 1, 5]);
}
