//! A doubly linked list stored as dense entries of one contiguous vector.
//!
//! Each entry lives at a *physical index* of the backing vector and carries
//! `next`/`prev` links that place it in a *logical order* independent of its
//! physical position. This keeps array-like locality and O(1) access by
//! physical index while push, pop and removal at a known position stay O(1).
//!
//! Removal keeps the array dense by a swap-relink step: the removed slot is
//! unlinked from the chain, then the physically last slot moves down into
//! the hole and its neighbors are repaired to its new position. A physical
//! index captured before a removal may therefore address a different element
//! afterwards; the contracts state this relocation exactly rather than
//! hiding it.
//!
//! Verification model: a ghost sequence records the logical order as a
//! permutation of the physical indices ([`LinkedVec::order`]); the payloads
//! are visible both in physical order ([`LinkedVec::phys`]) and in logical
//! order (the view, `list@`). Every operation's contract says what it does
//! to the view — push and pop at the ends act on it exactly as on a plain
//! double-ended queue — and [`LinkedVec::wf`], preserved by every operation,
//! is the invariant that the links form one chain visiting every slot
//! exactly once ([`LinkedVec::lemma_link_symmetry`] states its symmetry).
//!
//! Once a panic unwinds out of an unverified caller that broke a stated
//! precondition, the container must be treated as potentially inconsistent;
//! verified callers never observe such a state.
pub mod inner_types;
pub mod iterators;

use vstd::prelude::*;

use crate::inner_types::{StoreIndex, VecNode};
use vstd::std_specs::cmp::{PartialEqSpec, PartialOrdSpec};

verus! {

/// Relates an optional stored link to an optional logical target: the link is
/// present exactly when the target is, and then represents that position.
pub open spec fn link_is<I: StoreIndex + Copy>(o: Option<I>, t: Option<int>) -> bool {
    match (o, t) {
        (Some(i), Some(v)) => i.index_spec() == v,
        (None, None) => true,
        _ => false,
    }
}

/// The slot at logical position `k` of `ord` links forward to the slot at
/// position `k + 1` and backward to the one at `k - 1`, with absent links at
/// the two ends of the chain.
spec fn links_ok<T, I: StoreIndex + Copy>(data: Seq<VecNode<T, I>>, ord: Seq<int>, k: int) -> bool {
    let m = ord.len() as int;
    &&& link_is(data[ord[k]].next, if k + 1 < m { Some(ord[k + 1]) } else { None })
    &&& link_is(data[ord[k]].prev, if k >= 1 { Some(ord[k - 1]) } else { None })
}

/// The stored links describe one doubly linked chain that visits the distinct
/// physical slots listed by `ord`, with `head`/`tail` naming its ends.
/// `ord` need not cover all of `data`: during removal one slot stands outside
/// the chain.
spec fn chain_ok<T, I: StoreIndex + Copy>(
    data: Seq<VecNode<T, I>>,
    head: Option<I>,
    tail: Option<I>,
    ord: Seq<int>,
) -> bool {
    let m = ord.len() as int;
    &&& forall|k: int| 0 <= k < m ==> 0 <= #[trigger] ord[k] < data.len() as int
    &&& ord.no_duplicates()
    &&& forall|k: int| 0 <= k < m ==> #[trigger] links_ok(data, ord, k)
    &&& if m == 0 {
        head is None && tail is None
    } else {
        link_is(head, Some(ord[0])) && link_is(tail, Some(ord[m - 1]))
    }
}

/// `s` with the element at position `k` taken out.
spec fn remove_at(s: Seq<int>, k: int) -> Seq<int> {
    Seq::new(
        (s.len() - 1) as nat,
        |j: int|
            if j < k {
                s[j]
            } else {
                s[j + 1]
            },
    )
}

/// A sequence of distinct values drawn from `0 .. len` visits every one of
/// them: an injection of a finite set into itself is onto.
proof fn lemma_perm_surjective(ord: Seq<int>)
    requires
        forall|k: int| 0 <= k < ord.len() ==> 0 <= #[trigger] ord[k] < ord.len() as int,
        ord.no_duplicates(),
    ensures
        forall|v: int| 0 <= v < ord.len() as int ==> #[trigger] ord.contains(v),
{
    let n = ord.len() as int;
    ord.unique_seq_to_set();
    vstd::set_lib::lemma_int_range(0, n);
    assert forall|x: int| ord.to_set().contains(x) implies vstd::set_lib::set_int_range(
        0,
        n,
    ).contains(x) by {
        let k = choose|k: int| 0 <= k < ord.len() && ord[k] == x;
        assert(0 <= ord[k] < n);
    }
    vstd::set_lib::lemma_subset_equality(ord.to_set(), vstd::set_lib::set_int_range(0, n));
    assert forall|v: int| 0 <= v < n implies #[trigger] ord.contains(v) by {
        assert(vstd::set_lib::set_int_range(0, n).contains(v));
        assert(ord.to_set().contains(v));
    }
}

/// Unlinking the slot at chain position `kk` — repointing its predecessor's
/// `next` (or `head`) at its successor, and its successor's `prev` (or
/// `tail`) at its predecessor — leaves a chain over the remaining positions.
proof fn lemma_unlink_chain<T, I: StoreIndex + Copy>(
    d0: Seq<VecNode<T, I>>,
    h0: Option<I>,
    t0: Option<I>,
    ll: Seq<int>,
    kk: int,
    da: Seq<VecNode<T, I>>,
    ha: Option<I>,
    d1: Seq<VecNode<T, I>>,
    h1: Option<I>,
    t1: Option<I>,
)
    requires
        chain_ok(d0, h0, t0, ll),
        0 <= kk < ll.len(),
        ({
            let prv = d0[ll[kk]].prev;
            let nxt = d0[ll[kk]].next;
            &&& match prv {
                Some(i) => ha == h0 && da == d0.update(
                    i.index_spec(),
                    (VecNode { next: nxt, ..d0[i.index_spec()] }),
                ),
                None => ha == nxt && da == d0,
            }
            &&& match nxt {
                Some(i) => t1 == t0 && d1 == da.update(
                    i.index_spec(),
                    (VecNode { prev: prv, ..da[i.index_spec()] }),
                ),
                None => t1 == prv && d1 == da,
            }
            &&& h1 == ha
        }),
    ensures
        chain_ok(d1, h1, t1, remove_at(ll, kk)),
        d1.len() == d0.len(),
        forall|q: int| 0 <= q < d0.len() ==> d1[q].payload == #[trigger] d0[q].payload,
{
    let n = ll.len() as int;
    let ord1 = remove_at(ll, kk);
    assert(links_ok(d0, ll, kk));
    if kk > 0 {
        assert(links_ok(d0, ll, kk - 1));
    }
    if kk + 1 < n {
        assert(links_ok(d0, ll, kk + 1));
    }
    assert(ord1.no_duplicates()) by {
        assert forall|i: int, j: int|
            0 <= i < ord1.len() && 0 <= j < ord1.len() && i != j implies ord1[i] != ord1[j] by {
            let ii: int = if i < kk {
                i
            } else {
                i + 1
            };
            let jj: int = if j < kk {
                j
            } else {
                j + 1
            };
            assert(ll[ii] != ll[jj]);
        }
    }
    assert forall|j: int| 0 <= j < n - 1 implies #[trigger] links_ok(d1, ord1, j) by {
        let jj: int = if j < kk {
            j
        } else {
            j + 1
        };
        assert(links_ok(d0, ll, jj));
        if jj > 0 {
            assert(links_ok(d0, ll, jj - 1));
        }
        if jj + 1 < n {
            assert(links_ok(d0, ll, jj + 1));
        }
        assert(links_ok(d0, ll, kk));
        if kk > 0 {
            assert(links_ok(d0, ll, kk - 1));
        }
        if kk + 1 < n {
            assert(links_ok(d0, ll, kk + 1));
        }
    }
}

/// Dropping the physically last slot keeps a chain that never visited it.
proof fn lemma_truncate_chain<T, I: StoreIndex + Copy>(
    d1: Seq<VecNode<T, I>>,
    h1: Option<I>,
    t1: Option<I>,
    ord1: Seq<int>,
    d2: Seq<VecNode<T, I>>,
)
    requires
        chain_ok(d1, h1, t1, ord1),
        d1.len() >= 1,
        !ord1.contains(d1.len() - 1),
        d2 == d1.drop_last(),
    ensures
        chain_ok(d2, h1, t1, ord1),
{
    let n1 = d1.len() as int;
    assert forall|k: int| 0 <= k < ord1.len() implies 0 <= #[trigger] ord1[k] < d2.len() as int by {
        assert(0 <= ord1[k] < n1);
        assert(ord1[k] != n1 - 1);
    }
    assert forall|j: int| 0 <= j < ord1.len() implies #[trigger] links_ok(d2, ord1, j) by {
        assert(links_ok(d1, ord1, j));
        assert(ord1[j] != n1 - 1);
        assert(d2[ord1[j]] == d1[ord1[j]]);
    }
}

/// Moving the physically last slot down into the free position `p` and
/// repairing the moved slot's neighbors (or `head`/`tail`) to point at `p`
/// keeps the chain intact, with every mention of the old last position
/// renamed to `p`.
proof fn lemma_relocate_chain<T, I: StoreIndex + Copy>(
    d1: Seq<VecNode<T, I>>,
    h1: Option<I>,
    t1: Option<I>,
    ord1: Seq<int>,
    p: int,
    si: I,
    d2: Seq<VecNode<T, I>>,
    db: Seq<VecNode<T, I>>,
    hb: Option<I>,
    d3: Seq<VecNode<T, I>>,
    h3: Option<I>,
    t3: Option<I>,
)
    requires
        chain_ok(d1, h1, t1, ord1),
        ord1.len() == d1.len() - 1,
        0 <= p < d1.len() - 1,
        !ord1.contains(p),
        ord1.contains(d1.len() - 1),
        si.index_spec() == p,
        d2 == d1.update(p, d1.last()).drop_last(),
        ({
            let mprev = d2[p].prev;
            let mnext = d2[p].next;
            &&& match mprev {
                Some(i) => hb == h1 && db == d2.update(
                    i.index_spec(),
                    (VecNode { next: Some(si), ..d2[i.index_spec()] }),
                ),
                None => hb == Some(si) && db == d2,
            }
            &&& match mnext {
                Some(i) => t3 == t1 && d3 == db.update(
                    i.index_spec(),
                    (VecNode { prev: Some(si), ..db[i.index_spec()] }),
                ),
                None => t3 == Some(si) && d3 == db,
            }
            &&& h3 == hb
        }),
    ensures
        chain_ok(d3, h3, t3, ord1.map_values(|q: int| crate::densify_rename(q, p, d1.len() as int))),
        d3.len() == d1.len() - 1,
        forall|q: int| 0 <= q < d3.len() ==> d3[q].payload == #[trigger] d2[q].payload,
{
    let n = d1.len() as int;
    let mm = ord1.index_of(n - 1);
    assert(0 <= mm < ord1.len() && ord1[mm] == n - 1);
    let ord2 = ord1.map_values(|q: int| crate::densify_rename(q, p, n));
    assert(links_ok(d1, ord1, mm));
    if mm > 0 {
        assert(links_ok(d1, ord1, mm - 1));
    }
    if mm + 1 < ord1.len() {
        assert(links_ok(d1, ord1, mm + 1));
    }
    assert(ord2.no_duplicates()) by {
        assert forall|i: int, j: int|
            0 <= i < ord2.len() && 0 <= j < ord2.len() && i != j implies ord2[i] != ord2[j] by {
            assert(ord1[i] != ord1[j]);
        }
    }
    assert forall|j: int| 0 <= j < ord2.len() implies #[trigger] links_ok(d3, ord2, j) by {
        assert(links_ok(d1, ord1, j));
        if j > 0 {
            assert(links_ok(d1, ord1, j - 1));
        }
        if j + 1 < ord1.len() {
            assert(links_ok(d1, ord1, j + 1));
        }
        assert(links_ok(d1, ord1, mm));
        if mm > 0 {
            assert(links_ok(d1, ord1, mm - 1));
        }
        if mm + 1 < ord1.len() {
            assert(links_ok(d1, ord1, mm + 1));
        }
        assert(ord1[j] != p);
    }
}

/// Relies on std's `slice::swap`: exchanges the two indexed elements in
/// place; both indices are in bounds, so it does not panic.
#[verifier::external_body]
fn vec_swap<T>(v: &mut Vec<T>, a: usize, b: usize)
    requires
        a < old(v).len(),
        b < old(v).len(),
    ensures
        final(v)@ == old(v)@.update(a as int, old(v)@[b as int]).update(
            b as int,
            old(v)@[a as int],
        ),
{
    v.swap(a, b);
}

/// The physical-index renaming that a swap-removal of slot `p` from a store
/// of `n` slots applies: the last slot moves down into `p`, every other slot
/// keeps its position.
pub open spec fn densify_rename(q: int, p: int, n: int) -> int {
    if q == n - 1 {
        p
    } else {
        q
    }
}

/// One operation at the ends of the sequence, as a reference double-ended
/// queue understands it.
pub enum DequeOp<T> {
    PushFront(T),
    PushBack(T),
    PopFront,
    PopBack,
}

/// The reference double-ended-queue model: what one end operation does to an
/// abstract sequence. Popping an empty sequence leaves it empty.
pub open spec fn deque_step<T>(s: Seq<T>, op: DequeOp<T>) -> Seq<T> {
    match op {
        DequeOp::PushFront(v) => seq![v] + s,
        DequeOp::PushBack(v) => s.push(v),
        DequeOp::PopFront => if s.len() == 0 {
            s
        } else {
            s.drop_first()
        },
        DequeOp::PopBack => if s.len() == 0 {
            s
        } else {
            s.drop_last()
        },
    }
}

/// The reference model applied to a whole operation sequence, first to last.
pub open spec fn deque_replay<T>(s: Seq<T>, ops: Seq<DequeOp<T>>) -> Seq<T>
    decreases ops.len(),
{
    if ops.len() == 0 {
        s
    } else {
        deque_replay(deque_step(s, ops[0]), ops.drop_first())
    }
}

/// Error raised when an operation would grow the list past the largest
/// position its index type can represent.
#[derive(Debug, Clone, Copy, PartialEq, Eq, Structural)]
pub struct CapacityOverflow;

/// Why `try_reserve` failed: the index type ran out of positions — a
/// structural limit — or the allocator itself reported an error.
#[derive(Debug)]
pub enum ReserveError {
    CapacityOverflow,
    Alloc(std::collections::TryReserveError),
}

/// A doubly linked list whose nodes live as dense entries of one backing
/// vector, addressed by physical index; the logical order is kept purely in
/// the next/prev links inside each entry.
///
/// The ghost `ord` field records the logical order as a sequence of physical
/// indices: `ord[k]` is the physical slot of the `k`-th element.
pub struct LinkedVec<T, I: StoreIndex + Copy = usize> {
    data: Vec<VecNode<T, I>>,
    head: Option<I>,
    tail: Option<I>,
    ord: Ghost<Seq<int>>,
}

impl<T, I: StoreIndex + Copy> View for LinkedVec<T, I> {
    type V = Seq<T>;

    /// The logical sequence: payloads enumerated by following the chain.
    open spec fn view(&self) -> Seq<T> {
        Seq::new(self.order().len(), |k: int| self.phys()[self.order()[k]])
    }
}

impl<T, I: StoreIndex + Copy> LinkedVec<T, I> {
    /// The payloads in physical (backing array) order.
    pub closed spec fn phys(&self) -> Seq<T> {
        Seq::new(self.data@.len(), |p: int| self.data@[p].payload)
    }

    /// The logical order, as the sequence of physical indices it visits.
    pub closed spec fn order(&self) -> Seq<int> {
        self.ord@
    }

    /// The stored `next` link of the slot at physical index `p`, read as an
    /// optional physical index.
    pub closed spec fn next_of(&self, p: int) -> Option<int> {
        match self.data@[p].next {
            Some(i) => Some(i.index_spec()),
            None => None,
        }
    }

    /// The stored `prev` link of the slot at physical index `p`.
    pub closed spec fn prev_of(&self, p: int) -> Option<int> {
        match self.data@[p].prev {
            Some(i) => Some(i.index_spec()),
            None => None,
        }
    }

    /// Well-formedness: the links describe one chain that visits every slot
    /// exactly once, `head`/`tail` point at its ends, and the slot count does
    /// not exceed what the index type can address.
    pub closed spec fn wf(&self) -> bool {
        &&& self.ord@.len() == self.data@.len()
        &&& chain_ok(self.data@, self.head, self.tail, self.ord@)
        &&& self.data@.len() <= I::max_spec() + 1
    }

    /// Basic shape facts that every well-formed list provides to its callers.
    pub proof fn lemma_wf_props(&self)
        requires
            self.wf(),
        ensures
            self@.len() == self.phys().len(),
            self@.len() == self.order().len(),
            self@.len() <= I::max_spec() + 1,
            forall|k: int|
                0 <= k < self.order().len() ==> 0 <= #[trigger] self.order()[k] < self.order().len()
                    as int,
            self.order().no_duplicates(),
    {
    }

    pub fn new() -> (r: Self)
        ensures
            r.wf(),
            r@ == Seq::<T>::empty(),
            r.phys() == Seq::<T>::empty(),
            r.order() == Seq::<int>::empty(),
    {
        let r = LinkedVec { data: Vec::new(), head: None, tail: None, ord: Ghost(Seq::empty()) };
        proof {
            assert(r@ =~= Seq::<T>::empty());
            assert(r.phys() =~= Seq::<T>::empty());
        }
        r
    }

    pub fn len(&self) -> (r: usize)
        requires
            self.wf(),
        ensures
            r == self@.len(),
    {
        self.data.len()
    }

    pub fn is_empty(&self) -> (r: bool)
        requires
            self.wf(),
        ensures
            r == (self@.len() == 0),
    {
        self.data.len() == 0
    }

    /// Sets `next` of the indexed slot, or `head` if `target` is `None`.
    fn set_next(&mut self, target: Option<I>, value: Option<I>)
        requires
            old(self).data@.len() <= I::max_spec() + 1,
            match target {
                Some(i) => 0 <= i.index_spec() < old(self).data@.len() as int,
                None => true,
            },
        ensures
            final(self).ord == old(self).ord,
            final(self).tail == old(self).tail,
            match target {
                Some(i) => final(self).head == old(self).head && final(self).data@ == old(
                    self,
                ).data@.update(
                    i.index_spec(),
                    (VecNode { next: value, ..old(self).data@[i.index_spec()] }),
                ),
                None => final(self).head == value && final(self).data@ == old(self).data@,
            },
    {
        match target {
            Some(i) => {
                let p = i.to_usize();
                let node = &mut self.data[p];
                node.next = value;
            }
            None => {
                self.head = value;
            }
        }
    }

    /// Sets `prev` of the indexed slot, or `tail` if `target` is `None`.
    fn set_prev(&mut self, target: Option<I>, value: Option<I>)
        requires
            old(self).data@.len() <= I::max_spec() + 1,
            match target {
                Some(i) => 0 <= i.index_spec() < old(self).data@.len() as int,
                None => true,
            },
        ensures
            final(self).ord == old(self).ord,
            final(self).head == old(self).head,
            match target {
                Some(i) => final(self).tail == old(self).tail && final(self).data@ == old(
                    self,
                ).data@.update(
                    i.index_spec(),
                    (VecNode { prev: value, ..old(self).data@[i.index_spec()] }),
                ),
                None => final(self).tail == value && final(self).data@ == old(self).data@,
            },
    {
        match target {
            Some(i) => {
                let p = i.to_usize();
                let node = &mut self.data[p];
                node.prev = value;
            }
            None => {
                self.tail = value;
            }
        }
    }

    /// Appends a fresh unlinked slot holding `value` at the physical end and
    /// returns its physical index as an `I`.
    fn push_p(&mut self, value: T) -> (r: I)
        requires
            old(self).data@.len() <= I::max_spec() as int,
        ensures
            r.index_spec() == old(self).data@.len() as int,
            final(self).data@ == old(self).data@.push(
                (VecNode { payload: value, next: None, prev: None }),
            ),
            final(self).head == old(self).head,
            final(self).tail == old(self).tail,
            final(self).ord == old(self).ord,
    {
        let start_len = self.data.len();
        self.data.push(VecNode::new(value));
        I::from_usize(start_len)
    }

    /// Removes the slot at physical position `index`: unlinks it from the
    /// chain, then keeps the array dense by moving the last slot into the
    /// freed position and repairing that slot's neighbors.
    #[verifier::spinoff_prover]
    fn in_swap_remove(&mut self, index: usize) -> (r: T)
        requires
            old(self).wf(),
            index < old(self)@.len(),
        ensures
            final(self).wf(),
            r == old(self).phys()[index as int],
            final(self)@ == old(self)@.remove(old(self).order().index_of(index as int)),
            final(self).phys() == old(self).phys().update(
                index as int,
                old(self).phys().last(),
            ).drop_last(),
            final(self).order() == old(self).order().remove(
                old(self).order().index_of(index as int),
            ).map_values(|q: int| densify_rename(q, index as int, old(self)@.len() as int)),
            0 <= old(self).order().index_of(index as int) < old(self)@.len(),
            old(self).order()[old(self).order().index_of(index as int)] == index as int,
    {
        let ghost pre = *old(self);
        let ghost n = pre.data@.len() as int;
        let ghost ll = pre.ord@;
        proof {
            lemma_perm_surjective(ll);
            assert(ll.contains(index as int));
            assert(ll.contains(n - 1));
        }
        let ghost kk = ll.index_of(index as int);
        proof {
            assert(0 <= kk < n && ll[kk] == index as int);
            assert(links_ok(pre.data@, ll, kk));
        }
        let prv = self.data[index].prev;
        let nxt = self.data[index].next;
        self.set_next(prv, nxt);
        let ghost da = self.data@;
        let ghost ha = self.head;
        self.set_prev(nxt, prv);
        let ghost d1 = self.data@;
        let ghost h1 = self.head;
        let ghost t1 = self.tail;
        let ghost ord1 = remove_at(ll, kk);
        proof {
            lemma_unlink_chain(pre.data@, pre.head, pre.tail, ll, kk, da, ha, d1, h1, t1);
            assert(!ord1.contains(index as int)) by {
                if ord1.contains(index as int) {
                    let j = choose|j: int|
                        0 <= j < ord1.len() && ord1[j] == index as int;
                    let jj: int = if j < kk {
                        j
                    } else {
                        j + 1
                    };
                    assert(ll[jj] == ll[kk]);
                    assert(false);
                }
            }
        }
        let last = self.data.len() - 1;
        let node = self.data.swap_remove(index);
        let ghost d2 = self.data@;
        if index < last {
            let stored = I::from_usize(index);
            proof {
                assert(ord1.contains(n - 1)) by {
                    let mj = choose|mj: int| 0 <= mj < ll.len() && ll[mj] == n - 1;
                    assert(ll[mj] != ll[kk]);
                    let j1: int = if mj < kk {
                        mj
                    } else {
                        mj - 1
                    };
                    assert(ord1[j1] == n - 1);
                }
                assert(links_ok(d1, ord1, ord1.index_of(n - 1)));
            }
            let mprev = self.data[index].prev;
            let mnext = self.data[index].next;
            self.set_next(mprev, Some(stored));
            let ghost db = self.data@;
            let ghost hb = self.head;
            self.set_prev(mnext, Some(stored));
            proof {
                lemma_relocate_chain(
                    d1,
                    h1,
                    t1,
                    ord1,
                    index as int,
                    stored,
                    d2,
                    db,
                    hb,
                    self.data@,
                    self.head,
                    self.tail,
                );
                self.ord@ = ord1.map_values(|q: int| densify_rename(q, index as int, n));
            }
        } else {
            proof {
                assert(d2 =~= d1.drop_last());
                lemma_truncate_chain(d1, h1, t1, ord1, d2);
                self.ord@ = ord1.map_values(|q: int| densify_rename(q, index as int, n));
                assert(self.ord@ =~= ord1);
            }
        }
        proof {
            let post = *self;
            assert(post.wf());
            assert(post.phys() =~= pre.phys().update(index as int, pre.phys().last()).drop_last());
            assert(post.ord@ =~= ll.remove(kk).map_values(
                |q: int| densify_rename(q, index as int, n),
            ));
            assert(post@ =~= pre@.remove(kk)) by {
                assert(post@.len() == pre@.remove(kk).len());
                assert forall|j: int| 0 <= j < post@.len() implies post@[j] == pre@.remove(kk)[j] by {
                    let jj: int = if j < kk {
                        j
                    } else {
                        j + 1
                    };
                    assert(pre@.remove(kk)[j] == pre@[jj]);
                    assert(post.ord@[j] == densify_rename(ord1[j], index as int, n));
                }
            }
        }
        node.payload
    }

    /// Remove and return the first element in the linked list, if any.
    pub fn pop_front(&mut self) -> (r: Option<T>)
        requires
            old(self).wf(),
        ensures
            final(self).wf(),
            old(self)@.len() == 0 ==> r is None && *final(self) == *old(self),
            old(self)@.len() > 0 ==> {
                &&& r == Some(old(self)@[0])
                &&& final(self)@ == old(self)@.drop_first()
                &&& final(self).phys() == old(self).phys().update(
                    old(self).order()[0],
                    old(self).phys().last(),
                ).drop_last()
                &&& final(self).order() == old(self).order().drop_first().map_values(
                    |q: int| densify_rename(q, old(self).order()[0], old(self)@.len() as int),
                )
            },
    {
        if self.data.len() == 0 {
            return None;
        }
        let i = match self.head {
            Some(i) => i,
            None => vstd::pervasive::unreached(),
        };
        let p = i.to_usize();
        let ghost pre = *old(self);
        let ghost ll = pre.ord@;
        let r = self.in_swap_remove(p);
        proof {
            let kk = ll.index_of(p as int);
            assert(ll[kk] == ll[0]);
            assert(kk == 0);
            assert(pre@.remove(0) =~= pre@.drop_first());
            assert(ll.remove(0) =~= ll.drop_first());
        }
        Some(r)
    }

    /// Remove and return the last element in the linked list, if any.
    pub fn pop_back(&mut self) -> (r: Option<T>)
        requires
            old(self).wf(),
        ensures
            final(self).wf(),
            old(self)@.len() == 0 ==> r is None && *final(self) == *old(self),
            old(self)@.len() > 0 ==> {
                &&& r == Some(old(self)@.last())
                &&& final(self)@ == old(self)@.drop_last()
                &&& final(self).phys() == old(self).phys().update(
                    old(self).order().last(),
                    old(self).phys().last(),
                ).drop_last()
                &&& final(self).order() == old(self).order().drop_last().map_values(
                    |q: int| densify_rename(q, old(self).order().last(), old(self)@.len() as int),
                )
            },
    {
        if self.data.len() == 0 {
            return None;
        }
        let i = match self.tail {
            Some(i) => i,
            None => vstd::pervasive::unreached(),
        };
        let p = i.to_usize();
        let ghost pre = *old(self);
        let ghost ll = pre.ord@;
        let ghost n = ll.len() as int;
        let r = self.in_swap_remove(p);
        proof {
            let kk = ll.index_of(p as int);
            assert(ll[kk] == ll[n - 1]);
            assert(kk == n - 1);
            assert(pre@.remove(n - 1) =~= pre@.drop_last());
            assert(ll.remove(n - 1) =~= ll.drop_last());
        }
        Some(r)
    }

    /// Remove and return the last element in the physical array, if any.
    pub fn pop(&mut self) -> (r: Option<T>)
        requires
            old(self).wf(),
        ensures
            final(self).wf(),
            old(self)@.len() == 0 ==> r is None && *final(self) == *old(self),
            old(self)@.len() > 0 ==> {
                &&& r == Some(old(self).phys().last())
                &&& final(self)@ == old(self)@.remove(
                    old(self).order().index_of(old(self)@.len() - 1),
                )
                &&& final(self).phys() == old(self).phys().drop_last()
                &&& final(self).order() == old(self).order().remove(
                    old(self).order().index_of(old(self)@.len() - 1),
                )
            },
    {
        if self.data.len() == 0 {
            return None;
        }
        let p = self.data.len() - 1;
        let ghost pre = *old(self);
        let ghost n = pre@.len() as int;
        let r = self.in_swap_remove(p);
        proof {
            assert(final(self).phys() =~= pre.phys().drop_last());
            let kk = pre.ord@.index_of(n - 1);
            assert(final(self).order() =~= pre.ord@.remove(kk)) by {
                let o1 = pre.ord@.remove(kk);
                assert(o1.len() == final(self).order().len());
                assert forall|j: int| 0 <= j < o1.len() implies final(self).order()[j] == o1[j] by {
                    assert(final(self).order()[j] == densify_rename(o1[j], n - 1, n));
                }
            }
        }
        Some(r)
    }

    /// Remove and return the element at the given physical position.
    pub fn swap_remove(&mut self, index: usize) -> (r: T)
        requires
            old(self).wf(),
            index < old(self)@.len(),
        ensures
            final(self).wf(),
            r == old(self).phys()[index as int],
            final(self)@ == old(self)@.remove(old(self).order().index_of(index as int)),
            final(self).phys() == old(self).phys().update(
                index as int,
                old(self).phys().last(),
            ).drop_last(),
            final(self).order() == old(self).order().remove(
                old(self).order().index_of(index as int),
            ).map_values(|q: int| densify_rename(q, index as int, old(self)@.len() as int)),
            0 <= old(self).order().index_of(index as int) < old(self)@.len(),
            old(self).order()[old(self).order().index_of(index as int)] == index as int,
    {
        self.in_swap_remove(index)
    }

    /// A reference to the element at the given physical position.
    pub fn get_p(&self, index: usize) -> (r: &T)
        requires
            self.wf(),
            index < self@.len(),
        ensures
            *r == self.phys()[index as int],
    {
        &self.data[index].payload
    }

    /// A mutable reference to the element at the given physical position.
    pub fn get_p_mut(&mut self, index: usize) -> (r: &mut T)
        requires
            old(self).wf(),
            index < old(self)@.len(),
        ensures
            *r == old(self).phys()[index as int],
            final(self).wf(),
            final(self).order() == old(self).order(),
            final(self).phys() =~= old(self).phys().update(index as int, *final(r)),
            final(self)@ =~= old(self)@.update(
                old(self).order().index_of(index as int),
                *final(r),
            ),
            0 <= old(self).order().index_of(index as int) < old(self)@.len(),
            old(self).order()[old(self).order().index_of(index as int)] == index as int,
    {
        proof {
            lemma_perm_surjective(self.ord@);
            assert(self.ord@.contains(index as int));
            let kk = self.ord@.index_of(index as int);
            assert(0 <= kk < self.ord@.len() && self.ord@[kk] == index as int);
        }
        let ghost pre = *old(self);
        let ghost kk = pre.ord@.index_of(index as int);
        let r = &mut self.data[index].payload;
        proof {
            let nd = (VecNode { payload: *final(r), ..pre.data@[index as int] });
            let d2 = pre.data@.update(index as int, nd);
            assert forall|k: int| 0 <= k < pre.ord@.len() implies #[trigger] links_ok(
                d2,
                pre.ord@,
                k,
            ) by {
                assert(links_ok(pre.data@, pre.ord@, k));
            }
            assert forall|k: int| 0 <= k < pre.ord@.len() && k != kk implies d2[pre.ord@[k]].payload
                == pre.phys()[pre.ord@[k]] by {
                assert(pre.ord@[k] != pre.ord@[kk]);
            }
        }
        r
    }

    /// A reference to the front element, or `None` if the list is empty.
    pub fn front(&self) -> (r: Option<&T>)
        requires
            self.wf(),
        ensures
            self@.len() == 0 ==> r is None,
            self@.len() > 0 ==> (r matches Some(x) && *x == self@[0]),
    {
        match self.head {
            None => None,
            Some(i) => Some(self.get_p(i.to_usize())),
        }
    }

    /// A reference to the back element, or `None` if the list is empty.
    pub fn back(&self) -> (r: Option<&T>)
        requires
            self.wf(),
        ensures
            self@.len() == 0 ==> r is None,
            self@.len() > 0 ==> (r matches Some(x) && *x == self@.last()),
    {
        match self.tail {
            None => None,
            Some(i) => Some(self.get_p(i.to_usize())),
        }
    }

    /// A mutable reference to the front element, or `None` if the list is
    /// empty.
    pub fn front_mut(&mut self) -> (r: Option<&mut T>)
        requires
            old(self).wf(),
        ensures
            final(self).wf(),
            old(self)@.len() == 0 ==> r is None && *final(self) == *old(self),
            old(self)@.len() > 0 ==> (match r {
                Some(x) => {
                    &&& *x == old(self)@[0]
                    &&& final(self)@ =~= old(self)@.update(0, *final(x))
                    &&& final(self).phys() =~= old(self).phys().update(
                        old(self).order()[0],
                        *final(x),
                    )
                    &&& final(self).order() == old(self).order()
                },
                None => false,
            }),
    {
        match self.head {
            None => None,
            Some(i) => {
                let p = i.to_usize();
                proof {
                    let kk = self.ord@.index_of(p as int);
                    lemma_perm_surjective(self.ord@);
                    assert(self.ord@.contains(p as int));
                    assert(self.ord@[kk] == self.ord@[0]);
                    assert(kk == 0);
                }
                Some(self.get_p_mut(p))
            }
        }
    }

    /// A mutable reference to the back element, or `None` if the list is
    /// empty.
    pub fn back_mut(&mut self) -> (r: Option<&mut T>)
        requires
            old(self).wf(),
        ensures
            final(self).wf(),
            old(self)@.len() == 0 ==> r is None && *final(self) == *old(self),
            old(self)@.len() > 0 ==> (match r {
                Some(x) => {
                    &&& *x == old(self)@.last()
                    &&& final(self)@ =~= old(self)@.update(old(self)@.len() - 1, *final(x))
                    &&& final(self).phys() =~= old(self).phys().update(
                        old(self).order().last(),
                        *final(x),
                    )
                    &&& final(self).order() == old(self).order()
                },
                None => false,
            }),
    {
        match self.tail {
            None => None,
            Some(i) => {
                let p = i.to_usize();
                proof {
                    let n = self.ord@.len() as int;
                    let kk = self.ord@.index_of(p as int);
                    lemma_perm_surjective(self.ord@);
                    assert(self.ord@.contains(p as int));
                    assert(self.ord@[kk] == self.ord@[n - 1]);
                    assert(kk == n - 1);
                }
                Some(self.get_p_mut(p))
            }
        }
    }

    /// Drops every element and resets the list to empty.
    pub fn clear(&mut self)
        requires
            old(self).wf(),
        ensures
            final(self).wf(),
            final(self)@ == Seq::<T>::empty(),
            final(self).phys() == Seq::<T>::empty(),
            final(self).order() == Seq::<int>::empty(),
    {
        self.data = Vec::new();
        self.head = None;
        self.tail = None;
        proof {
            self.ord@ = Seq::empty();
            assert(self@ =~= Seq::<T>::empty());
            assert(self.phys() =~= Seq::<T>::empty());
        }
    }

    /// Exchanges the payloads of two physical positions in place, leaving the
    /// links untouched.
    pub fn swap_p(&mut self, a: usize, b: usize)
        requires
            old(self).wf(),
            a < old(self)@.len(),
            b < old(self)@.len(),
        ensures
            final(self).wf(),
            final(self).order() == old(self).order(),
            final(self).phys() == old(self).phys().update(
                a as int,
                old(self).phys()[b as int],
            ).update(b as int, old(self).phys()[a as int]),
            final(self)@ == old(self)@.update(
                old(self).order().index_of(a as int),
                old(self).phys()[b as int],
            ).update(old(self).order().index_of(b as int), old(self).phys()[a as int]),
    {
        let ghost pre = *old(self);
        proof {
            lemma_perm_surjective(self.ord@);
            assert(self.ord@.contains(a as int));
            assert(self.ord@.contains(b as int));
        }
        let a_next = self.data[a].next;
        let a_prev = self.data[a].prev;
        let b_next = self.data[b].next;
        let b_prev = self.data[b].prev;
        vec_swap(&mut self.data, a, b);
        {
            let node = &mut self.data[a];
            node.next = a_next;
            node.prev = a_prev;
        }
        {
            let node = &mut self.data[b];
            node.next = b_next;
            node.prev = b_prev;
        }
        proof {
            let post = *self;
            let ka = pre.ord@.index_of(a as int);
            let kb = pre.ord@.index_of(b as int);
            assert(pre.ord@[ka] == a as int && 0 <= ka < pre.ord@.len());
            assert(pre.ord@[kb] == b as int && 0 <= kb < pre.ord@.len());
            assert forall|k: int| 0 <= k < post.ord@.len() implies #[trigger] links_ok(
                post.data@,
                post.ord@,
                k,
            ) by {
                assert(links_ok(pre.data@, pre.ord@, k));
            }
            assert(post.phys() =~= pre.phys().update(a as int, pre.phys()[b as int]).update(
                b as int,
                pre.phys()[a as int],
            ));
            assert(post@ =~= pre@.update(ka, pre.phys()[b as int]).update(
                kb,
                pre.phys()[a as int],
            )) by {
                assert forall|k: int| 0 <= k < post@.len() implies post@[k] == pre@.update(
                    ka,
                    pre.phys()[b as int],
                ).update(kb, pre.phys()[a as int])[k] by {
                    if k != ka && k != kb {
                        assert(pre.ord@[k] != pre.ord@[ka]);
                        assert(pre.ord@[k] != pre.ord@[kb]);
                    }
                }
            }
        }
    }

    /// Link symmetry: whenever a slot's stored `next` names a slot `q`, that
    /// slot's stored `prev` names it back, and symmetrically — so the chain
    /// can be followed in either direction through the same pairs.
    pub proof fn lemma_link_symmetry(&self)
        requires
            self.wf(),
        ensures
            forall|p: int|
                0 <= p < self@.len() ==> (match #[trigger] self.next_of(p) {
                    Some(q) => 0 <= q < self@.len() && self.prev_of(q) == Some(p),
                    None => true,
                }),
            forall|p: int|
                0 <= p < self@.len() ==> (match #[trigger] self.prev_of(p) {
                    Some(q) => 0 <= q < self@.len() && self.next_of(q) == Some(p),
                    None => true,
                }),
    {
        lemma_perm_surjective(self.ord@);
        assert forall|p: int| 0 <= p < self@.len() implies (match #[trigger] self.next_of(p) {
            Some(q) => 0 <= q < self@.len() && self.prev_of(q) == Some(p),
            None => true,
        }) by {
            assert(self.ord@.contains(p));
            let k = choose|k: int| 0 <= k < self.ord@.len() && self.ord@[k] == p;
            assert(links_ok(self.data@, self.ord@, k));
            if k + 1 < self.ord@.len() {
                assert(links_ok(self.data@, self.ord@, k + 1));
            }
        }
        assert forall|p: int| 0 <= p < self@.len() implies (match #[trigger] self.prev_of(p) {
            Some(q) => 0 <= q < self@.len() && self.next_of(q) == Some(p),
            None => true,
        }) by {
            assert(self.ord@.contains(p));
            let k = choose|k: int| 0 <= k < self.ord@.len() && self.ord@[k] == p;
            assert(links_ok(self.data@, self.ord@, k));
            if k >= 1 {
                assert(links_ok(self.data@, self.ord@, k - 1));
            }
        }
    }

    /// The logical position `k` is the only one that visits `order()[k]`.
    pub proof fn lemma_index_of_order(&self, k: int)
        requires
            self.wf(),
            0 <= k < self.order().len(),
        ensures
            self.order().contains(self.order()[k]),
            self.order().index_of(self.order()[k]) == k,
    {
        assert(self.order()[k] == self.order()[k]);
        let k2 = self.order().index_of(self.order()[k]);
        assert(0 <= k2 < self.order().len() && self.order()[k2] == self.order()[k]);
        if k2 != k {
            assert(self.order()[k2] != self.order()[k]);
        }
    }

    /// The physical position of the logical head, if any.
    pub(crate) fn head_pa(&self) -> (r: Option<usize>)
        requires
            self.wf(),
        ensures
            self@.len() == 0 ==> r is None,
            self@.len() > 0 ==> (r matches Some(p) && p as int == self.order()[0]),
    {
        match self.head {
            None => None,
            Some(i) => Some(i.to_usize()),
        }
    }

    /// The physical position of the logical tail, if any.
    pub(crate) fn tail_pa(&self) -> (r: Option<usize>)
        requires
            self.wf(),
        ensures
            self@.len() == 0 ==> r is None,
            self@.len() > 0 ==> (r matches Some(p) && p as int == self.order().last()),
    {
        match self.tail {
            None => None,
            Some(i) => Some(i.to_usize()),
        }
    }

    /// The physical position of the logical successor of the slot at physical
    /// position `p`, if any.
    pub(crate) fn next_pa(&self, p: usize) -> (r: Option<usize>)
        requires
            self.wf(),
            self.order().contains(p as int),
        ensures
            ({
                let k = self.order().index_of(p as int);
                &&& (k + 1 < self@.len() ==> (r matches Some(q) && q as int == self.order()[k + 1]))
                &&& (k + 1 >= self@.len() ==> r is None)
            }),
    {
        let ghost k = self.order().index_of(p as int);
        proof {
            assert(0 <= k < self.ord@.len() && self.ord@[k] == p as int);
            assert(links_ok(self.data@, self.ord@, k));
        }
        match self.data[p].next {
            None => None,
            Some(i) => Some(i.to_usize()),
        }
    }

    /// The physical position of the logical predecessor of the slot at
    /// physical position `p`, if any.
    pub(crate) fn prev_pa(&self, p: usize) -> (r: Option<usize>)
        requires
            self.wf(),
            self.order().contains(p as int),
        ensures
            ({
                let k = self.order().index_of(p as int);
                &&& (k >= 1 ==> (r matches Some(q) && q as int == self.order()[k - 1]))
                &&& (k < 1 ==> r is None)
            }),
    {
        let ghost k = self.order().index_of(p as int);
        proof {
            assert(0 <= k < self.ord@.len() && self.ord@[k] == p as int);
            assert(links_ok(self.data@, self.ord@, k));
        }
        match self.data[p].prev {
            None => None,
            Some(i) => Some(i.to_usize()),
        }
    }

    /// Order equivalence with the reference double-ended queue: running any
    /// sequence of end operations on the list leaves its logical order — the
    /// order forward iteration produces — exactly where replaying the same
    /// sequence against the reference model leaves the abstract sequence.
    /// The operation count is bounded so that no push can outrun the index
    /// type; the original treats that case as a fatal capacity overflow.
    pub fn replay(&mut self, ops: Vec<DequeOp<T>>)
        requires
            old(self).wf(),
            old(self)@.len() + ops@.len() <= I::max_spec() + 1,
        ensures
            final(self).wf(),
            final(self)@ == deque_replay(old(self)@, ops@),
    {
        let ghost base = *old(self);
        let ghost all = ops@;
        let mut rest = ops;
        while rest.len() > 0
            invariant
                self.wf(),
                self@.len() + rest@.len() <= I::max_spec() + 1,
                deque_replay(base@, all) == deque_replay(self@, rest@),
            decreases rest@.len(),
        {
            let op = rest.remove(0);
            let ghost pre = *self;
            let ghost prest = rest@;
            match op {
                DequeOp::PushFront(v) => {
                    self.push_front(v);
                }
                DequeOp::PushBack(v) => {
                    self.push_back(v);
                }
                DequeOp::PopFront => {
                    let _ = self.pop_front();
                }
                DequeOp::PopBack => {
                    let _ = self.pop_back();
                }
            }
            proof {
                assert(self@ =~= deque_step(pre@, op));
            }
        }
    }

    /// Moves all elements of `other` to the logical end of `self`, leaving
    /// `other` empty. Unlike a pointer-based linked list this is O(n): the
    /// entries must be copied to keep the backing array dense.
    pub fn append(&mut self, other: &mut Self)
        requires
            old(self).wf(),
            old(other).wf(),
            old(self)@.len() + old(other)@.len() <= I::max_spec() + 1,
        ensures
            final(self).wf(),
            final(other).wf(),
            final(self)@ == old(self)@ + old(other)@,
            final(self).phys() == old(self).phys() + old(other)@,
            final(self).order() == old(self).order() + Seq::new(
                old(other)@.len(),
                |i: int| old(self)@.len() + i,
            ),
            final(other)@ == Seq::<T>::empty(),
            final(other).phys() == Seq::<T>::empty(),
            final(other).order() == Seq::<int>::empty(),
    {
        let ghost base = *old(self);
        let ghost ov = old(other)@;
        let mut third = Self::new();
        core::mem::swap(other, &mut third);
        while third.len() > 0
            invariant
                base == *old(self),
                ov == old(other)@,
                base@.len() + ov.len() <= I::max_spec() + 1,
                self.wf(),
                third.wf(),
                third@.len() <= ov.len(),
                third@ == ov.subrange(ov.len() - third@.len(), ov.len() as int),
                self@ == base@ + ov.take(ov.len() - third@.len()),
                self.phys() == base.phys() + ov.take(ov.len() - third@.len()),
                self.order() == base.order() + Seq::new(
                    (ov.len() - third@.len()) as nat,
                    |i: int| base@.len() + i,
                ),
                self@.len() + third@.len() == base@.len() + ov.len(),
            decreases third@.len(),
        {
            let ghost done = ov.len() - third@.len();
            let v = match third.pop_front() {
                Some(v) => v,
                None => vstd::pervasive::unreached(),
            };
            self.push_back(v);
            proof {
                assert(v == ov[done]);
                assert(self@ =~= base@ + ov.take(done + 1));
                assert(self.phys() =~= base.phys() + ov.take(done + 1));
                assert(self.order() =~= base.order() + Seq::new(
                    (done + 1) as nat,
                    |i: int| base@.len() + i,
                ));
                assert(third@ =~= ov.subrange(ov.len() - third@.len(), ov.len() as int));
            }
        }
        proof {
            assert(self@ =~= base@ + ov);
            assert(self.phys() =~= base.phys() + ov);
            assert(self.order() =~= base.order() + Seq::new(ov.len(), |i: int| base@.len() + i));
        }
    }

    /// Pushes each element of `items`, in order, at the logical end. Stops
    /// with a capacity-overflow error exactly when the next push would exceed
    /// the index type's representable range; everything before that point has
    /// been appended.
    pub fn extend(&mut self, items: Vec<T>) -> (r: Result<(), CapacityOverflow>)
        requires
            old(self).wf(),
        ensures
            final(self).wf(),
            old(self)@.len() + items@.len() <= I::max_spec() + 1 ==> r is Ok && final(self)@
                == old(self)@ + items@,
            old(self)@.len() + items@.len() > I::max_spec() + 1 ==> r is Err && final(self)@
                == old(self)@ + items@.take(I::max_spec() + 1 - old(self)@.len()),
            final(self).phys() == old(self).phys() + final(self)@.skip(old(self)@.len() as int),
            final(self).order() == old(self).order() + Seq::new(
                (final(self)@.len() - old(self)@.len()) as nat,
                |i: int| old(self)@.len() + i,
            ),
    {
        let ghost base = *old(self);
        let ghost all = items@;
        let m = I::get_max();
        let mut rest = items;
        while rest.len() > 0
            invariant
                base == *old(self),
                all == items@,
                self.wf(),
                m == I::max_spec(),
                rest@.len() <= all.len(),
                rest@ == all.subrange(all.len() - rest@.len(), all.len() as int),
                self@ == base@ + all.take(all.len() - rest@.len()),
                self.phys() == base.phys() + all.take(all.len() - rest@.len()),
                self.order() == base.order() + Seq::new(
                    (all.len() - rest@.len()) as nat,
                    |i: int| base@.len() + i,
                ),
                self@.len() + rest@.len() == base@.len() + all.len(),
            decreases rest@.len(),
        {
            let ghost done = all.len() - rest@.len();
            if self.data.len() > m {
                proof {
                    assert(self@.len() == I::max_spec() + 1);
                    assert(base@.len() + all.len() > I::max_spec() + 1);
                    assert(all.take(done) =~= all.take(I::max_spec() + 1 - base@.len()));
                    assert((base@ + all.take(done)).skip(base@.len() as int) =~= all.take(done));
                }
                return Err(CapacityOverflow);
            }
            let v = rest.remove(0);
            self.push_back(v);
            proof {
                assert(v == all[done]);
                assert(self@ =~= base@ + all.take(done + 1));
                assert(self.phys() =~= base.phys() + all.take(done + 1));
                assert(self.order() =~= base.order() + Seq::new(
                    (done + 1) as nat,
                    |i: int| base@.len() + i,
                ));
                assert(rest@ =~= all.subrange(all.len() - rest@.len(), all.len() as int));
            }
        }
        proof {
            assert(self@ =~= base@ + all);
            assert((base@ + all).skip(base@.len() as int) =~= all);
        }
        Ok(())
    }

    /// Builds a list holding the elements of `items` in that logical order,
    /// stored in the same physical order.
    pub fn from_iter(items: Vec<T>) -> (r: Self)
        requires
            items@.len() <= I::max_spec() + 1,
        ensures
            r.wf(),
            r@ == items@,
            r.phys() == items@,
            r.order() == Seq::new(items@.len(), |i: int| i),
    {
        let ghost all = items@;
        let mut list = Self::new();
        let res = list.extend(items);
        proof {
            assert(res is Ok);
            assert(list@ =~= all);
            assert(list.phys() =~= all);
            assert(list.order() =~= Seq::new(all.len(), |i: int| i));
        }
        list
    }

    /// Whether some element of the list compares equal to `x`.
    pub fn contains(&self, x: &T) -> (r: bool) where T: PartialEq
        requires
            self.wf(),
        ensures
            T::obeys_eq_spec() ==> r == (exists|k: int|
                0 <= k < self@.len() && self@[k].eq_spec(x)),
    {
        let mut i: usize = 0;
        while i < self.data.len()
            invariant
                self.wf(),
                0 <= i <= self@.len(),
                T::obeys_eq_spec() ==> forall|p: int|
                    0 <= p < i ==> !(#[trigger] self.phys()[p].eq_spec(x)),
            decreases self@.len() - i,
        {
            if self.data[i].payload.eq(x) {
                proof {
                    if T::obeys_eq_spec() {
                        lemma_perm_surjective(self.ord@);
                        assert(self.ord@.contains(i as int));
                        let k = choose|k: int| 0 <= k < self.ord@.len() && self.ord@[k] == i as int;
                        assert(self@[k].eq_spec(x));
                    }
                }
                return true;
            }
            i += 1;
        }
        proof {
            if T::obeys_eq_spec() {
                assert forall|k: int| 0 <= k < self@.len() implies !(#[trigger] self@[k].eq_spec(
                    x,
                )) by {
                    assert(0 <= self.ord@[k] < self@.len());
                    assert(!self.phys()[self.ord@[k]].eq_spec(x));
                }
            }
        }
        false
    }

    /// Grows the backing capacity for at least `additional` more elements.
    /// Reports index-space overflow — growth past what the index type can
    /// address — apart from allocator failure; the contents are preserved
    /// either way.
    pub fn try_reserve(&mut self, additional: usize) -> (r: Result<(), ReserveError>)
        requires
            old(self).wf(),
        ensures
            final(self).wf(),
            final(self)@ == old(self)@,
            final(self).phys() == old(self).phys(),
            final(self).order() == old(self).order(),
            (r matches Err(ReserveError::CapacityOverflow)) <==> old(self)@.len() + additional
                > I::max_spec() + 1,
            r is Ok ==> old(self)@.len() + additional <= I::max_spec() + 1,
    {
        let m = I::get_max();
        let len = self.data.len();
        if additional > 0 {
            if len > m {
                return Err(ReserveError::CapacityOverflow);
            }
            if additional - 1 > m - len {
                return Err(ReserveError::CapacityOverflow);
            }
        }
        match self.data.try_reserve(additional) {
            Ok(()) => Ok(()),
            Err(e) => Err(ReserveError::Alloc(e)),
        }
    }

    /// Inserts an element first in the linked list and last in the physical
    /// array.
    pub fn push_front(&mut self, value: T)
        requires
            old(self).wf(),
            old(self)@.len() <= I::max_spec() as int,
        ensures
            final(self).wf(),
            final(self)@ == seq![value] + old(self)@,
            final(self).phys() == old(self).phys().push(value),
            final(self).order() == seq![old(self)@.len() as int] + old(self).order(),
    {
        let ghost n = self.data@.len() as int;
        let inserted = self.push_p(value);
        let h = self.head;
        self.set_prev(h, Some(inserted));
        self.set_next(Some(inserted), h);
        self.set_next(None, Some(inserted));
        proof {
            self.ord@ = seq![n] + self.ord@;
        }
        proof {
            let pre = *old(self);
            let post = *self;
            assert forall|k: int| 0 <= k < post.ord@.len() implies #[trigger] links_ok(
                post.data@,
                post.ord@,
                k,
            ) by {
                if k == 0 {
                } else {
                    assert(links_ok(pre.data@, pre.ord@, k - 1));
                    assert(post.ord@[k] == pre.ord@[k - 1]);
                }
            }
            assert(post.wf());
            assert(post.phys() =~= pre.phys().push(value));
            assert(post@ =~= seq![value] + pre@);
        }
    }

    /// Inserts an element last in the linked list and last in the physical
    /// array.
    pub fn push_back(&mut self, value: T)
        requires
            old(self).wf(),
            old(self)@.len() <= I::max_spec() as int,
        ensures
            final(self).wf(),
            final(self)@ == old(self)@.push(value),
            final(self).phys() == old(self).phys().push(value),
            final(self).order() == old(self).order().push(old(self)@.len() as int),
    {
        let ghost n = self.data@.len() as int;
        let inserted = self.push_p(value);
        let t = self.tail;
        self.set_next(t, Some(inserted));
        self.set_prev(Some(inserted), t);
        self.set_prev(None, Some(inserted));
        proof {
            self.ord@ = self.ord@.push(n);
        }
        proof {
            let pre = *old(self);
            let post = *self;
            assert forall|k: int| 0 <= k < post.ord@.len() implies #[trigger] links_ok(
                post.data@,
                post.ord@,
                k,
            ) by {
                if k == n {
                } else {
                    assert(links_ok(pre.data@, pre.ord@, k));
                    assert(post.ord@[k] == pre.ord@[k]);
                }
            }
            assert(post.wf());
            assert(post.phys() =~= pre.phys().push(value));
            assert(post@ =~= pre@.push(value));
        }
    }
}

/// Element-wise equality of two logical sequences, by the element type's own
/// equality.
pub open spec fn seq_eq_by<T: PartialEq>(a: Seq<T>, b: Seq<T>) -> bool {
    a.len() == b.len() && (forall|j: int| 0 <= j < a.len() ==> (#[trigger] a[j].eq_spec(&b[j])))
}

/// Lexicographic comparison of two logical sequences by the element type's
/// own partial order: the first non-equal pair decides, and a sequence that
/// runs out first is smaller. An incomparable pair makes the whole result
/// incomparable (`None`), never a crash or a default tie.
pub open spec fn lex_partial_cmp<T: PartialOrd>(a: Seq<T>, b: Seq<T>) -> Option<
    core::cmp::Ordering,
>
    decreases a.len(), b.len(),
{
    if a.len() == 0 && b.len() == 0 {
        Some(core::cmp::Ordering::Equal)
    } else if a.len() == 0 {
        Some(core::cmp::Ordering::Less)
    } else if b.len() == 0 {
        Some(core::cmp::Ordering::Greater)
    } else {
        match a[0].partial_cmp_spec(&b[0]) {
            Some(core::cmp::Ordering::Equal) => lex_partial_cmp(a.drop_first(), b.drop_first()),
            c => c,
        }
    }
}

impl<T: PartialEq, I: StoreIndex + Copy> LinkedVec<T, I> {
    /// Walks both chains in step, comparing payloads element-wise. Total on
    /// any pair of values — a malformed chain just compares unequal — and on
    /// well-formed lists it decides exactly element-wise equality of the
    /// logical sequences.
    fn eq_impl(&self, other: &Self) -> (r: bool)
        ensures
            (self.wf() && other.wf() && T::obeys_eq_spec()) ==> r == seq_eq_by(self@, other@),
    {
        let n = self.data.len();
        if n != other.data.len() {
            return false;
        }
        let mut k: usize = 0;
        let mut pa = self.get_head();
        let mut pb = other.get_head();
        while k < n
            invariant
                n == self.data@.len(),
                n == other.data@.len(),
                0 <= k <= n,
                (self.wf() && other.wf() && T::obeys_eq_spec()) ==> {
                    &&& (forall|j: int|
                        0 <= j < k ==> (#[trigger] self@[j].eq_spec(&other@[j])))
                    &&& link_is(
                        pa,
                        if k < n {
                            Some(self.order()[k as int])
                        } else {
                            None
                        },
                    )
                    &&& link_is(
                        pb,
                        if k < n {
                            Some(other.order()[k as int])
                        } else {
                            None
                        },
                    )
                },
            decreases n - k,
        {
            let (ia, ib) = match (pa, pb) {
                (Some(ia), Some(ib)) => (ia, ib),
                _ => {
                    return false;
                }
            };
            let (qa, qb) = match (ia.checked_pos(), ib.checked_pos()) {
                (Some(qa), Some(qb)) => (qa, qb),
                _ => {
                    return false;
                }
            };
            if qa >= n || qb >= n {
                return false;
            }
            proof {
                if self.wf() && other.wf() && T::obeys_eq_spec() {
                    assert(links_ok(self.data@, self.ord@, k as int));
                    assert(links_ok(other.data@, other.ord@, k as int));
                }
            }
            let e = self.data[qa].payload.eq(&other.data[qb].payload);
            proof {
                if self.wf() && other.wf() && T::obeys_eq_spec() {
                    assert(qa as int == self.order()[k as int]);
                    assert(qb as int == other.order()[k as int]);
                    assert(self@[k as int] == self.data@[qa as int].payload);
                    assert(other@[k as int] == other.data@[qb as int].payload);
                    assert(e == self@[k as int].eq_spec(&other@[k as int]));
                }
            }
            if !e {
                return false;
            }
            pa = self.data[qa].next;
            pb = other.data[qb].next;
            k = k + 1;
        }
        true
    }
}

impl<T: PartialOrd, I: StoreIndex + Copy> LinkedVec<T, I> {
    /// Walks both chains in step, comparing payloads lexicographically by the
    /// element type's partial order. Total on any pair of values, and on
    /// well-formed lists it computes exactly `lex_partial_cmp` of the logical
    /// sequences.
    fn cmp_impl(&self, other: &Self) -> (r: Option<core::cmp::Ordering>)
        ensures
            (self.wf() && other.wf() && T::obeys_partial_cmp_spec()) ==> r == lex_partial_cmp(
                self@,
                other@,
            ),
    {
        let na = self.data.len();
        let nb = other.data.len();
        let n = if na < nb {
            na
        } else {
            nb
        };
        let mut k: usize = 0;
        let mut pa = self.get_head();
        let mut pb = other.get_head();
        proof {
            if self.wf() && other.wf() && T::obeys_partial_cmp_spec() {
                assert(self@.skip(0) =~= self@);
                assert(other@.skip(0) =~= other@);
            }
        }
        while k < n
            invariant
                na == self.data@.len(),
                nb == other.data@.len(),
                n == if na < nb {
                    na
                } else {
                    nb
                },
                0 <= k <= n,
                (self.wf() && other.wf() && T::obeys_partial_cmp_spec()) ==> {
                    &&& lex_partial_cmp(self@, other@) == lex_partial_cmp(
                        self@.skip(k as int),
                        other@.skip(k as int),
                    )
                    &&& link_is(
                        pa,
                        if k < na {
                            Some(self.order()[k as int])
                        } else {
                            None
                        },
                    )
                    &&& link_is(
                        pb,
                        if k < nb {
                            Some(other.order()[k as int])
                        } else {
                            None
                        },
                    )
                },
            decreases n - k,
        {
            let (ia, ib) = match (pa, pb) {
                (Some(ia), Some(ib)) => (ia, ib),
                _ => {
                    return None;
                }
            };
            let (qa, qb) = match (ia.checked_pos(), ib.checked_pos()) {
                (Some(qa), Some(qb)) => (qa, qb),
                _ => {
                    return None;
                }
            };
            if qa >= na || qb >= nb {
                return None;
            }
            proof {
                if self.wf() && other.wf() && T::obeys_partial_cmp_spec() {
                    assert(links_ok(self.data@, self.ord@, k as int));
                    assert(links_ok(other.data@, other.ord@, k as int));
                    assert(self@.skip(k as int)[0] == self@[k as int]);
                    assert(other@.skip(k as int)[0] == other@[k as int]);
                }
            }
            let c = self.data[qa].payload.partial_cmp(&other.data[qb].payload);
            match c {
                Some(core::cmp::Ordering::Equal) => {
                    proof {
                        if self.wf() && other.wf() && T::obeys_partial_cmp_spec() {
                            assert(self@.skip(k as int).drop_first() =~= self@.skip(k as int + 1));
                            assert(other@.skip(k as int).drop_first() =~= other@.skip(
                                k as int + 1,
                            ));
                        }
                    }
                    pa = self.data[qa].next;
                    pb = other.data[qb].next;
                    k = k + 1;
                }
                _ => {
                    return c;
                }
            }
        }
        proof {
            if self.wf() && other.wf() && T::obeys_partial_cmp_spec() {
                assert(self@.skip(n as int).len() == na - n);
                assert(other@.skip(n as int).len() == nb - n);
            }
        }
        if na == nb {
            Some(core::cmp::Ordering::Equal)
        } else if na < nb {
            Some(core::cmp::Ordering::Less)
        } else {
            Some(core::cmp::Ordering::Greater)
        }
    }
}

impl<T, I: StoreIndex + Copy> LinkedVec<T, I> {
    /// The raw head link, with no validity promise: the defensive
    /// comparisons start here and re-check every step at run time.
    fn get_head(&self) -> (r: Option<I>)
        ensures
            r == self.head,
            self.wf() ==> link_is(
                r,
                if self@.len() > 0 {
                    Some(self.order()[0])
                } else {
                    None
                },
            ),
    {
        self.head
    }
}

impl<T: PartialOrd, I: StoreIndex + Copy> PartialEq for LinkedVec<T, I> {
    /// Element-wise equality of the logical sequences; see `eq_impl`.
    fn eq(&self, other: &Self) -> (r: bool)
        ensures
            (self.wf() && other.wf() && T::obeys_eq_spec()) ==> r == seq_eq_by(self@, other@),
    {
        self.eq_impl(other)
    }
}

/// `eq_spec` records the intended meaning of `==` — element-wise equality of
/// the logical sequences. `obeys_eq_spec` stays `false`: `eq` is total over
/// arbitrary (also malformed) values, and only its own conditional contract,
/// not the unconditional one this trait would claim, is proved.
impl<T: PartialOrd, I: StoreIndex + Copy> vstd::std_specs::cmp::PartialEqSpecImpl for LinkedVec<T, I> {
    open spec fn obeys_eq_spec() -> bool {
        false
    }

    open spec fn eq_spec(&self, other: &Self) -> bool {
        seq_eq_by(self@, other@)
    }
}

impl<T: PartialOrd, I: StoreIndex + Copy> PartialOrd for LinkedVec<T, I> {
    /// Lexicographic comparison of the logical sequences; see `cmp_impl`.
    fn partial_cmp(&self, other: &Self) -> (r: Option<core::cmp::Ordering>)
        ensures
            (self.wf() && other.wf() && T::obeys_partial_cmp_spec()) ==> r == lex_partial_cmp(
                self@,
                other@,
            ),
    {
        self.cmp_impl(other)
    }
}

/// As with equality: `partial_cmp_spec` records the intended meaning, and
/// `obeys_partial_cmp_spec` stays `false` because the unconditional claim is
/// not made; `partial_cmp` carries its own conditional contract.
impl<T: PartialOrd, I: StoreIndex + Copy> vstd::std_specs::cmp::PartialOrdSpecImpl for LinkedVec<T, I> {
    open spec fn obeys_partial_cmp_spec() -> bool {
        false
    }

    open spec fn partial_cmp_spec(&self, other: &Self) -> Option<core::cmp::Ordering> {
        lex_partial_cmp(self@, other@)
    }
}

impl<T: Clone, I: StoreIndex + Copy> Clone for LinkedVec<T, I> {
    /// Duplicates the store slot by slot, links and all, so the copy has the
    /// same physical layout and the same logical order.
    fn clone(&self) -> (r: Self)
        ensures
            r.order() == self.order(),
            r.phys().len() == self.phys().len(),
            forall|p: int|
                0 <= p < self.phys().len() ==> vstd::pervasive::cloned(
                    self.phys()[p],
                    #[trigger] r.phys()[p],
                ),
            self.wf() ==> r.wf(),
    {
        let mut data: Vec<VecNode<T, I>> = Vec::new();
        let n = self.data.len();
        let mut i: usize = 0;
        while i < n
            invariant
                n == self.data@.len(),
                0 <= i <= n,
                data@.len() == i,
                forall|p: int|
                    0 <= p < i ==> {
                        &&& vstd::pervasive::cloned(
                            self.data@[p].payload,
                            (#[trigger] data@[p]).payload,
                        )
                        &&& data@[p].next == self.data@[p].next
                        &&& data@[p].prev == self.data@[p].prev
                    },
            decreases n - i,
        {
            data.push(self.data[i].not_clone());
            i = i + 1;
        }
        let r = LinkedVec { data, head: self.head, tail: self.tail, ord: Ghost(self.ord@) };
        proof {
            if self.wf() {
                assert forall|k: int| 0 <= k < r.ord@.len() implies #[trigger] links_ok(
                    r.data@,
                    r.ord@,
                    k,
                ) by {
                    assert(links_ok(self.data@, self.ord@, k));
                }
            }
        }
        r
    }
}

impl<T, I: StoreIndex + Copy> Default for LinkedVec<T, I> {
    fn default() -> (r: Self)
        ensures
            r.wf(),
            r@ == Seq::<T>::empty(),
    {
        Self::new()
    }
}

} // verus!
