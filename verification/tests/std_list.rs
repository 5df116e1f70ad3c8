use std::cell::Cell;
use std::rc::Rc;

use linked_vec::inner_types::StoreIndex;
use linked_vec::iterators::IterP;
use linked_vec::LinkedVec;
use rand_xoshiro::rand_core::{RngCore, SeedableRng};

fn generate_test() -> LinkedVec<i32> {
    list_from(&[0, 1, 2, 3, 4, 5, 6])
}

fn list_from<T: Clone, I: StoreIndex + Copy>(v: &[T]) -> LinkedVec<T, I> {
    LinkedVec::from_iter(v.to_vec())
}

fn to_vec<T: Clone, I: StoreIndex + Copy>(list: &LinkedVec<T, I>) -> Vec<T> {
    let mut out = Vec::new();
    let mut it = list.iter();
    while let Some(x) = it.next() {
        out.push(x.clone());
    }
    out
}

pub fn check_links<T: Clone + PartialEq + std::fmt::Debug, I: StoreIndex + Copy>(
    list: &LinkedVec<T, I>,
) {
    // Walk the chain forward and backward through the public iterator; the
    // two traversals must agree, reversed, and match the stored length.
    let mut fwd = Vec::new();
    let mut it = list.iter();
    while let Some(x) = it.next() {
        fwd.push(x.clone());
    }
    assert_eq!(fwd.len(), list.len());
    let mut bwd = Vec::new();
    let mut it = list.iter();
    while let Some(x) = it.next_back() {
        bwd.push(x.clone());
    }
    assert_eq!(bwd.len(), list.len());
    for i in 0..fwd.len() {
        assert_eq!(fwd[i], bwd[fwd.len() - 1 - i]);
    }
    match list.front() {
        None => {
            assert!(list.back().is_none());
            assert_eq!(list.len(), 0);
        }
        Some(f) => {
            assert_eq!(f, &fwd[0]);
            assert_eq!(list.back().unwrap(), &fwd[fwd.len() - 1]);
        }
    }
}

#[test]
fn test_basic() {
    let mut m = LinkedVec::<Box<i32>>::new();
    assert_eq!(m.pop_front(), None);
    assert_eq!(m.pop_back(), None);
    assert_eq!(m.pop_front(), None);
    m.push_front(Box::new(1));
    assert_eq!(m.pop_front(), Some(Box::new(1)));
    m.push_back(Box::new(2));
    m.push_back(Box::new(3));
    assert_eq!(m.len(), 2);
    assert_eq!(m.pop_front(), Some(Box::new(2)));
    assert_eq!(m.pop_front(), Some(Box::new(3)));
    assert_eq!(m.len(), 0);
    assert_eq!(m.pop_front(), None);
    m.push_back(Box::new(1));
    m.push_back(Box::new(3));
    m.push_back(Box::new(5));
    m.push_back(Box::new(7));
    assert_eq!(m.pop_front(), Some(Box::new(1)));

    let mut n = LinkedVec::<i32>::new();
    n.push_front(2);
    n.push_front(3);
    {
        assert_eq!(n.front().unwrap(), &3);
        let x = n.front_mut().unwrap();
        assert_eq!(*x, 3);
        *x = 0;
    }
    {
        assert_eq!(n.back().unwrap(), &2);
        let y = n.back_mut().unwrap();
        assert_eq!(*y, 2);
        *y = 1;
    }
    assert_eq!(n.pop_front(), Some(0));
    assert_eq!(n.pop_front(), Some(1));
}

#[test]
fn test_append() {
    // Empty to empty
    {
        let mut m = LinkedVec::<i32>::new();
        let mut n: LinkedVec<i32> = LinkedVec::new();
        m.append(&mut n);
        check_links(&m);
        assert_eq!(m.len(), 0);
        assert_eq!(n.len(), 0);
    }
    // Non-empty to empty
    {
        let mut m: LinkedVec<i32> = LinkedVec::new();
        let mut n: LinkedVec<i32> = LinkedVec::new();
        n.push_back(2);
        m.append(&mut n);
        check_links(&m);
        assert_eq!(m.len(), 1);
        assert_eq!(m.pop_back(), Some(2));
        assert_eq!(n.len(), 0);
        check_links(&m);
    }
    // Empty to non-empty
    {
        let mut m: LinkedVec<i32> = LinkedVec::new();
        let mut n: LinkedVec<i32> = LinkedVec::new();
        m.push_back(2);
        m.append(&mut n);
        check_links(&m);
        assert_eq!(m.len(), 1);
        assert_eq!(m.pop_back(), Some(2));
        check_links(&m);
    }

    // Non-empty to non-empty
    let v = Vec::from([1, 2, 3, 4, 5]);
    let u = Vec::from([9, 8, 1, 2, 3, 4, 5]);
    let mut m: LinkedVec<i32> = list_from(&v);
    let mut n: LinkedVec<i32> = list_from(&u);
    m.append(&mut n);
    check_links(&m);
    let mut sum = v;
    sum.extend_from_slice(&u);
    assert_eq!(sum.len(), m.len());
    for elt in sum {
        assert_eq!(m.pop_front(), Some(elt))
    }
    assert_eq!(n.len(), 0);
    // Let's make sure the drained list is still fully usable.
    n.push_back(3);
    assert_eq!(n.len(), 1);
    assert_eq!(n.pop_front(), Some(3));
    check_links(&n);
}

#[test]
fn test_iterator() {
    let m = generate_test();
    let mut it = m.iter();
    let mut i: i32 = 0;
    while let Some(elt) = it.next() {
        assert_eq!(i, *elt);
        i += 1;
    }
    let mut n: LinkedVec<i32> = LinkedVec::new();
    assert_eq!(n.iter().next(), None);
    n.push_front(4);
    let mut it = n.iter();
    assert_eq!(it.size_hint(), (1, Some(1)));
    assert_eq!(it.next().unwrap(), &4);
    assert_eq!(it.size_hint(), (0, Some(0)));
    assert_eq!(it.next(), None);
}

#[test]
fn test_iterator_clone() {
    let mut n: LinkedVec<i32> = LinkedVec::new();
    n.push_back(2);
    n.push_back(3);
    n.push_back(4);
    let mut it = n.iter();
    it.next();
    let mut jt = it.clone();
    assert_eq!(it.next(), jt.next());
    assert_eq!(it.next_back(), jt.next_back());
    assert_eq!(it.next(), jt.next());
}

#[test]
fn test_iterator_double_end() {
    let mut n: LinkedVec<i32> = LinkedVec::new();
    assert_eq!(n.iter().next(), None);
    n.push_front(4);
    n.push_front(5);
    n.push_front(6);
    let mut it = n.iter();
    assert_eq!(it.size_hint(), (3, Some(3)));
    assert_eq!(it.next().unwrap(), &6);
    assert_eq!(it.size_hint(), (2, Some(2)));
    assert_eq!(it.next_back().unwrap(), &4);
    assert_eq!(it.size_hint(), (1, Some(1)));
    assert_eq!(it.next_back().unwrap(), &5);
    assert_eq!(it.next_back(), None);
    assert_eq!(it.next(), None);
}

#[test]
fn test_rev_iter() {
    let m = generate_test();
    let mut it = m.iter();
    let mut i: i32 = 0;
    while let Some(elt) = it.next_back() {
        assert_eq!(6 - i, *elt);
        i += 1;
    }
    let mut n: LinkedVec<i32> = LinkedVec::new();
    assert_eq!(n.iter().next_back(), None);
    n.push_front(4);
    let mut it = n.iter();
    assert_eq!(it.size_hint(), (1, Some(1)));
    assert_eq!(it.next_back().unwrap(), &4);
    assert_eq!(it.size_hint(), (0, Some(0)));
    assert_eq!(it.next_back(), None);
}

#[test]
fn test_mut_iter() {
    let m = generate_test();
    let mut len = m.len();
    let mut it = m.iter_mut();
    let mut i: i32 = 0;
    while let Some(elt) = it.next() {
        assert_eq!(i, *elt);
        i += 1;
        len -= 1;
    }
    assert_eq!(len, 0);
    let n: LinkedVec<i32> = LinkedVec::new();
    assert!(n.iter_mut().next().is_none());
    let mut n: LinkedVec<i32> = LinkedVec::new();
    n.push_front(4);
    n.push_back(5);
    let mut it = n.iter_mut();
    assert_eq!(it.size_hint(), (2, Some(2)));
    assert!(it.next().is_some());
    assert!(it.next().is_some());
    assert_eq!(it.size_hint(), (0, Some(0)));
    assert!(it.next().is_none());
}

#[test]
fn test_iterator_mut_double_end() {
    let n: LinkedVec<i32> = LinkedVec::new();
    assert!(n.iter_mut().next_back().is_none());
    let mut n: LinkedVec<i32> = LinkedVec::new();
    n.push_front(4);
    n.push_front(5);
    n.push_front(6);
    let mut it = n.iter_mut();
    assert_eq!(it.size_hint(), (3, Some(3)));
    assert_eq!(*it.next().unwrap(), 6);
    assert_eq!(it.size_hint(), (2, Some(2)));
    assert_eq!(*it.next_back().unwrap(), 4);
    assert_eq!(it.size_hint(), (1, Some(1)));
    assert_eq!(*it.next_back().unwrap(), 5);
    assert!(it.next_back().is_none());
    assert!(it.next().is_none());
}

#[test]
fn test_mut_rev_iter() {
    let m = generate_test();
    let mut it = m.iter_mut();
    let mut i: i32 = 0;
    while let Some(elt) = it.next_back() {
        assert_eq!(6 - i, *elt);
        i += 1;
    }
    let n: LinkedVec<i32> = LinkedVec::new();
    assert!(n.iter_mut().next_back().is_none());
    let mut n: LinkedVec<i32> = LinkedVec::new();
    n.push_front(4);
    let mut it = n.iter_mut();
    assert!(it.next_back().is_some());
    assert!(it.next_back().is_none());
}

#[test]
fn test_mut_iter_writes() {
    // Mutations through the safe mutable iterator land in the list.
    let m = generate_test();
    let mut it = m.iter_mut();
    while let Some(elt) = it.next() {
        *elt *= 2;
    }
    let m = it.into_list();
    assert_eq!(to_vec(&m), vec![0, 2, 4, 6, 8, 10, 12]);
    check_links(&m);
}

#[test]
fn test_clone_from() {
    // Short cloned from long
    {
        let v = Vec::from([1, 2, 3, 4, 5]);
        let u = Vec::from([8, 7, 6, 2, 3, 4, 5]);
        let mut m: LinkedVec<i32> = list_from(&v);
        let n = list_from(&u);
        m.clone_from(&n);
        check_links(&m);
        assert!(m == n);
        for elt in u {
            assert_eq!(m.pop_front(), Some(elt))
        }
    }
    // Long cloned from short
    {
        let v = Vec::from([1, 2, 3, 4, 5]);
        let u = Vec::from([6, 7, 8]);
        let mut m: LinkedVec<i32> = list_from(&v);
        let n = list_from(&u);
        m.clone_from(&n);
        check_links(&m);
        assert!(m == n);
        for elt in u {
            assert_eq!(m.pop_front(), Some(elt))
        }
    }
    // Two equal length lists
    {
        let v = Vec::from([1, 2, 3, 4, 5]);
        let u = Vec::from([9, 8, 1, 2, 3]);
        let mut m: LinkedVec<i32> = list_from(&v);
        let n = list_from(&u);
        m.clone_from(&n);
        check_links(&m);
        assert!(m == n);
        for elt in u {
            assert_eq!(m.pop_front(), Some(elt))
        }
    }
}

#[test]
fn test_eq() {
    let mut n: LinkedVec<i32> = list_from(&[]);
    let mut m: LinkedVec<i32> = list_from(&[]);
    assert!(n == m);
    n.push_front(1);
    assert!(n != m);
    m.push_back(1);
    assert!(n == m);

    let n: LinkedVec<i32> = list_from(&[2, 3, 4]);
    let m: LinkedVec<i32> = list_from(&[1, 2, 3]);
    assert!(n != m);
}

#[test]
fn test_ord() {
    let n: LinkedVec<i32> = list_from(&[]);
    let m: LinkedVec<i32> = list_from(&[1, 2, 3]);
    assert!(n < m);
    assert!(m > n);
    assert!(n <= n);
    assert!(n >= n);
}

#[test]
fn test_ord_nan() {
    let nan = 0.0f64 / 0.0;
    let n: LinkedVec<f64> = list_from(&[nan]);
    let m: LinkedVec<f64> = list_from(&[nan]);
    assert!(!(n < m));
    assert!(!(n > m));
    assert!(!(n <= m));
    assert!(!(n >= m));

    let n: LinkedVec<f64> = list_from(&[nan]);
    let one: LinkedVec<f64> = list_from(&[1.0f64]);
    assert!(!(n < one));
    assert!(!(n > one));
    assert!(!(n <= one));
    assert!(!(n >= one));

    let u: LinkedVec<f64> = list_from(&[1.0f64, 2.0, nan]);
    let v: LinkedVec<f64> = list_from(&[1.0f64, 2.0, 3.0]);
    assert!(!(u < v));
    assert!(!(u > v));
    assert!(!(u <= v));
    assert!(!(u >= v));

    let s: LinkedVec<f64> = list_from(&[1.0f64, 2.0, 4.0, 2.0]);
    let t: LinkedVec<f64> = list_from(&[1.0f64, 2.0, 3.0, 2.0]);
    assert!(!(s < t));
    assert!(s > one);
    assert!(!(s <= one));
    assert!(s >= one);
}

fn fuzz_test(sz: i32, rng: &mut impl RngCore) {
    let mut m: LinkedVec<i32> = LinkedVec::new();
    let mut v: Vec<i32> = Vec::from([]);
    for i in 0..sz {
        check_links(&m);
        let r: u8 = rng.next_u32() as u8;
        match r % 6 {
            0 => {
                m.pop_back();
                v.pop();
            }
            1 => {
                if !v.is_empty() {
                    m.pop_front();
                    v.remove(0);
                }
            }
            2 | 4 => {
                m.push_front(-i);
                v.insert(0, -i);
            }
            3 | 5 | _ => {
                m.push_back(i);
                v.push(i);
            }
        }
    }

    check_links(&m);

    let mut i = 0;
    let mut it = m.into_iter();
    while let Some(a) = it.next() {
        if i >= v.len() {
            break;
        }
        assert_eq!(a, v[i]);
        i += 1;
    }
    assert_eq!(i, v.len());
}

#[test]
fn test_fuzz() {
    let mut rng = rand_xoshiro::Xoroshiro128StarStar::seed_from_u64(127);
    for _ in 0..25 {
        fuzz_test(3, &mut rng);
        fuzz_test(16, &mut rng);
        fuzz_test(189, &mut rng);
    }
}

fn debug_string_of<T: std::fmt::Debug, I: StoreIndex + Copy>(list: &LinkedVec<T, I>) -> String {
    // The ordered mapping from physical index to payload, enumerated in
    // logical order, rendered the way a map debug-prints.
    let mut s = String::from("{");
    let mut it = IterP::new(list);
    let mut first = true;
    while let Some(p) = it.next() {
        if !first {
            s.push_str(", ");
        }
        first = false;
        s.push_str(&format!("{}: {:?}", p, list.get_p(p)));
    }
    s.push('}');
    s
}

#[test]
fn test_show() {
    let mut list: LinkedVec<i32> = LinkedVec::from_iter((0..10).collect());
    list.pop_front();
    list.push_front(0);
    assert_eq!(
        debug_string_of(&list),
        "{9: 0, 1: 1, 2: 2, 3: 3, 4: 4, 5: 5, 6: 6, 7: 7, 8: 8, 0: 9}"
    );

    let list: LinkedVec<&str> = LinkedVec::from_iter(vec!["just", "one", "test", "more"]);
    assert_eq!(
        debug_string_of(&list),
        "{0: \"just\", 1: \"one\", 2: \"test\", 3: \"more\"}"
    );
}

#[test]
fn test_cursor_move_peek() {
    let mut m: LinkedVec<u32> = LinkedVec::new();
    m.extend(vec![1, 2, 3, 4, 5, 6]).unwrap();
    let mut cursor = m.cursor_front();
    assert_eq!(cursor.current(), Some(&1));
    assert_eq!(cursor.peek_next(), Some(&2));
    assert_eq!(cursor.peek_prev(), None);
    assert_eq!(cursor.index_l(), Some(0));
    cursor.move_prev();
    assert_eq!(cursor.current(), None);
    assert_eq!(cursor.peek_next(), Some(&1));
    assert_eq!(cursor.peek_prev(), Some(&6));
    assert_eq!(cursor.index_l(), None);
    cursor.move_next();
    cursor.move_next();
    assert_eq!(cursor.current(), Some(&2));
    assert_eq!(cursor.peek_next(), Some(&3));
    assert_eq!(cursor.peek_prev(), Some(&1));
    assert_eq!(cursor.index_l(), Some(1));

    let mut cursor = m.cursor_back();
    assert_eq!(cursor.current(), Some(&6));
    assert_eq!(cursor.peek_next(), None);
    assert_eq!(cursor.peek_prev(), Some(&5));
    assert_eq!(cursor.index_l(), Some(5));
    cursor.move_next();
    assert_eq!(cursor.current(), None);
    assert_eq!(cursor.peek_next(), Some(&1));
    assert_eq!(cursor.peek_prev(), Some(&6));
    assert_eq!(cursor.index_l(), None);
    cursor.move_prev();
    cursor.move_prev();
    assert_eq!(cursor.current(), Some(&5));
    assert_eq!(cursor.peek_next(), Some(&6));
    assert_eq!(cursor.peek_prev(), Some(&4));
    assert_eq!(cursor.index_l(), Some(4));

    let mut m: LinkedVec<u32> = LinkedVec::new();
    m.extend(vec![1, 2, 3, 4, 5, 6]).unwrap();
    let mut cursor = m.cursor_front_mut();
    assert_eq!(cursor.current(), Some(&mut 1));
    assert_eq!(cursor.peek_next(), Some(&mut 2));
    assert_eq!(cursor.peek_prev(), None);
    assert_eq!(cursor.index_l(), Some(0));
    cursor.move_prev();
    assert_eq!(cursor.current(), None);
    assert_eq!(cursor.peek_next(), Some(&mut 1));
    assert_eq!(cursor.peek_prev(), Some(&mut 6));
    assert_eq!(cursor.index_l(), None);
    cursor.move_next();
    cursor.move_next();
    assert_eq!(cursor.current(), Some(&mut 2));
    assert_eq!(cursor.peek_next(), Some(&mut 3));
    assert_eq!(cursor.peek_prev(), Some(&mut 1));
    assert_eq!(cursor.index_l(), Some(1));
    let mut cursor2 = cursor.as_cursor();
    assert_eq!(cursor2.current(), Some(&2));
    assert_eq!(cursor2.index_l(), Some(1));
    cursor2.move_next();
    assert_eq!(cursor2.current(), Some(&3));
    assert_eq!(cursor2.index_l(), Some(2));
    assert_eq!(cursor.current(), Some(&mut 2));
    assert_eq!(cursor.index_l(), Some(1));

    let mut m: LinkedVec<u32> = LinkedVec::new();
    m.extend(vec![1, 2, 3, 4, 5, 6]).unwrap();
    let mut cursor = m.cursor_back_mut();
    assert_eq!(cursor.current(), Some(&mut 6));
    assert_eq!(cursor.peek_next(), None);
    assert_eq!(cursor.peek_prev(), Some(&mut 5));
    assert_eq!(cursor.index_l(), Some(5));
    cursor.move_next();
    assert_eq!(cursor.current(), None);
    assert_eq!(cursor.peek_next(), Some(&mut 1));
    assert_eq!(cursor.peek_prev(), Some(&mut 6));
    assert_eq!(cursor.index_l(), None);
    cursor.move_prev();
    cursor.move_prev();
    assert_eq!(cursor.current(), Some(&mut 5));
    assert_eq!(cursor.peek_next(), Some(&mut 6));
    assert_eq!(cursor.peek_prev(), Some(&mut 4));
    assert_eq!(cursor.index_l(), Some(4));
    let mut cursor2 = cursor.as_cursor();
    assert_eq!(cursor2.current(), Some(&5));
    assert_eq!(cursor2.index_l(), Some(4));
    cursor2.move_prev();
    assert_eq!(cursor2.current(), Some(&4));
    assert_eq!(cursor2.index_l(), Some(3));
    assert_eq!(cursor.current(), Some(&mut 5));
    assert_eq!(cursor.index_l(), Some(4));
}

#[test]
fn test_cursor_mut_writes() {
    // Edits through a mutable cursor land in the list it gives back.
    let m: LinkedVec<u32> = LinkedVec::from_iter(vec![1, 2, 3]);
    let mut cursor = m.cursor_front_mut();
    *cursor.current().unwrap() = 10;
    cursor.move_next();
    *cursor.peek_next().unwrap() = 30;
    *cursor.back_mut().unwrap() += 1;
    let m = cursor.into_list();
    assert_eq!(to_vec(&m), vec![10, 2, 31]);
    check_links(&m);
}

#[test]
fn test_extend_ref() {
    let mut a: LinkedVec<i32> = LinkedVec::new();
    a.push_back(1);

    a.extend(vec![2, 3, 4]).unwrap();

    assert_eq!(a.len(), 4);
    assert!(a == list_from(&[1, 2, 3, 4]));

    let mut b: LinkedVec<i32> = LinkedVec::new();
    b.push_back(5);
    b.push_back(6);
    a.extend(to_vec(&b)).unwrap();

    assert_eq!(a.len(), 6);
    assert!(a == list_from(&[1, 2, 3, 4, 5, 6]));
}

#[test]
fn test_extend() {
    let mut a: LinkedVec<i32> = LinkedVec::new();
    a.push_back(1);
    a.extend(Vec::from([2, 3, 4])).unwrap();

    assert_eq!(a.len(), 4);
    assert!(to_vec(&a) == vec![1, 2, 3, 4]);

    let b: LinkedVec<i32> = list_from(&[5, 6, 7]);
    a.extend(to_vec(&b)).unwrap();

    assert_eq!(a.len(), 7);
    assert!(to_vec(&a) == vec![1, 2, 3, 4, 5, 6, 7]);
}

#[test]
fn test_contains() {
    let mut l: LinkedVec<i32> = LinkedVec::new();
    l.extend(vec![2, 3, 4]).unwrap();

    assert!(l.contains(&3));
    assert!(!l.contains(&1));

    l.clear();

    assert!(!l.contains(&3));
}

struct Elem(Rc<Cell<i32>>);

impl Drop for Elem {
    fn drop(&mut self) {
        self.0.set(self.0.get() + 1);
    }
}

#[test]
fn test_drop() {
    let drops = Rc::new(Cell::new(0));

    let mut ring: LinkedVec<Elem> = LinkedVec::new();
    ring.push_back(Elem(drops.clone()));
    ring.push_front(Elem(drops.clone()));
    ring.push_back(Elem(drops.clone()));
    ring.push_front(Elem(drops.clone()));
    drop(ring);

    assert_eq!(drops.get(), 4);
}

#[test]
fn test_drop_with_pop() {
    let drops = Rc::new(Cell::new(0));

    let mut ring: LinkedVec<Elem> = LinkedVec::new();
    ring.push_back(Elem(drops.clone()));
    ring.push_front(Elem(drops.clone()));
    ring.push_back(Elem(drops.clone()));
    ring.push_front(Elem(drops.clone()));

    drop(ring.pop_back());
    drop(ring.pop_front());
    assert_eq!(drops.get(), 2);

    drop(ring);
    assert_eq!(drops.get(), 4);
}

#[test]
fn test_drop_clear() {
    let drops = Rc::new(Cell::new(0));

    let mut ring: LinkedVec<Elem> = LinkedVec::new();
    ring.push_back(Elem(drops.clone()));
    ring.push_front(Elem(drops.clone()));
    ring.push_back(Elem(drops.clone()));
    ring.push_front(Elem(drops.clone()));
    ring.clear();
    assert_eq!(drops.get(), 4);

    drop(ring);
    assert_eq!(drops.get(), 4);
}
