use vstd::prelude::*;

pub use crate::iterators::SafeIterMut as IterMut;

use crate::inner_types::StoreIndex;
use crate::LinkedVec;

verus! {

/// A read-only cursor over the logical order of a [`LinkedVec`].
///
/// Its abstract position ranges over `0 ..= len`: positions below `len` sit
/// at the element with that logical index, and `len` is the single "ghost"
/// non-position between tail and head.
#[derive(Clone)]
pub struct VecCursor<'a, T: 'a, I: StoreIndex + Copy> {
    index_la: usize,
    current_pa: Option<usize>,
    list: &'a LinkedVec<T, I>,
}

impl<'a, T: 'a, I: StoreIndex + Copy> VecCursor<'a, T, I> {
    /// The list the cursor walks.
    pub closed spec fn list_spec(&self) -> LinkedVec<T, I> {
        *self.list
    }

    /// The cursor's abstract position: a logical index, or the list length
    /// for the ghost non-position.
    pub closed spec fn pos(&self) -> int {
        self.index_la as int
    }

    /// The cursor points into a well-formed list, and its cached physical
    /// position matches its logical one.
    pub closed spec fn wf(&self) -> bool {
        &&& self.list.wf()
        &&& match self.current_pa {
            Some(p) => self.pos() < self.list@.len() && p as int == self.list.order()[self.pos()],
            None => self.pos() == self.list@.len(),
        }
    }

    /// A cursor placed directly at a known position. The logical index and
    /// the physical index must describe the same element (or both be absent,
    /// for the ghost non-position); the verifier checks what the caller of
    /// an unchecked constructor would otherwise merely promise.
    pub fn new_with_index_unchecked(
        list: &'a LinkedVec<T, I>,
        index_l: Option<usize>,
        index_p: Option<usize>,
    ) -> (r: Self)
        requires
            list.wf(),
            match (index_l, index_p) {
                (None, None) => true,
                (Some(l), Some(p)) => (l as int) < list@.len() && p as int
                    == list.order()[l as int],
                _ => false,
            },
        ensures
            r.wf(),
            r.list_spec() == *list,
            r.pos() == match index_l {
                Some(l) => l as int,
                None => list@.len() as int,
            },
    {
        let index_la = match index_l {
            Some(l) => l,
            None => list.len(),
        };
        VecCursor { index_la, current_pa: index_p, list }
    }

    pub(crate) fn new_front(list: &'a LinkedVec<T, I>) -> (r: Self)
        requires
            list.wf(),
        ensures
            r.wf(),
            r.list_spec() == *list,
            r.pos() == 0,
    {
        VecCursor { index_la: 0, current_pa: list.head_pa(), list }
    }

    pub(crate) fn new_back(list: &'a LinkedVec<T, I>) -> (r: Self)
        requires
            list.wf(),
        ensures
            r.wf(),
            r.list_spec() == *list,
            r.pos() == if list@.len() == 0 {
                0int
            } else {
                list@.len() - 1
            },
    {
        match list.tail_pa() {
            Some(t) => VecCursor { index_la: list.len() - 1, current_pa: Some(t), list },
            None => VecCursor { index_la: 0, current_pa: None, list },
        }
    }

    /// The cursor's logical position, or `None` at the ghost non-position.
    pub fn index_l(&self) -> (r: Option<usize>)
        requires
            self.wf(),
        ensures
            self.pos() == self.list_spec()@.len() ==> r is None,
            self.pos() < self.list_spec()@.len() ==> r == Some(self.pos() as usize),
    {
        match self.current_pa {
            Some(_) => Some(self.index_la),
            None => None,
        }
    }

    /// The cursor's physical position, or `None` at the ghost non-position.
    pub fn index_p(&self) -> (r: Option<usize>)
        requires
            self.wf(),
        ensures
            self.pos() == self.list_spec()@.len() ==> r is None,
            self.pos() < self.list_spec()@.len() ==> (r matches Some(p) && p as int
                == self.list_spec().order()[self.pos()]),
    {
        self.current_pa
    }

    /// A reference to the current element, or `None` at the ghost
    /// non-position.
    pub fn current(&self) -> (r: Option<&'a T>)
        requires
            self.wf(),
        ensures
            self.pos() == self.list_spec()@.len() ==> r is None,
            self.pos() < self.list_spec()@.len() ==> (r matches Some(x) && *x
                == self.list_spec()@[self.pos()]),
    {
        match self.current_pa {
            None => None,
            Some(p) => Some(self.list.get_p(p)),
        }
    }

    /// The list the cursor is reading.
    pub fn get_list(&self) -> (r: &'a LinkedVec<T, I>)
        ensures
            *r == self.list_spec(),
    {
        self.list
    }

    /// Steps to the next element: from the ghost non-position to the head,
    /// from the last element to the ghost non-position.
    pub fn move_next(&mut self)
        requires
            old(self).wf(),
        ensures
            final(self).wf(),
            final(self).list_spec() == old(self).list_spec(),
            final(self).pos() == if old(self).pos() == old(self).list_spec()@.len() as int {
                0int
            } else {
                old(self).pos() + 1
            },
    {
        match self.current_pa {
            None => {
                self.current_pa = self.list.head_pa();
                self.index_la = 0;
            }
            Some(current) => {
                let n = self.list.len();
                proof {
                    self.list.lemma_index_of_order(self.index_la as int);
                }
                self.current_pa = self.list.next_pa(current);
                self.index_la = self.index_la + 1;
            }
        }
    }

    /// Steps to the previous element: from the ghost non-position to the
    /// tail, from the first element to the ghost non-position.
    pub fn move_prev(&mut self)
        requires
            old(self).wf(),
        ensures
            final(self).wf(),
            final(self).list_spec() == old(self).list_spec(),
            final(self).pos() == if old(self).pos() == 0 {
                old(self).list_spec()@.len() as int
            } else {
                old(self).pos() - 1
            },
    {
        match self.current_pa {
            None => {
                self.current_pa = self.list.tail_pa();
                self.index_la = if self.list.len() == 0 {
                    0
                } else {
                    self.list.len() - 1
                };
            }
            Some(current) => {
                proof {
                    self.list.lemma_index_of_order(self.index_la as int);
                }
                self.current_pa = self.list.prev_pa(current);
                self.index_la = if self.index_la == 0 {
                    self.list.len()
                } else {
                    self.index_la - 1
                };
            }
        }
    }

    /// A reference to the element after the current one, without moving: the
    /// head when at the ghost non-position, `None` past the last element.
    pub fn peek_next(&self) -> (r: Option<&'a T>)
        requires
            self.wf(),
        ensures
            ({
                let np = if self.pos() == self.list_spec()@.len() as int {
                    0int
                } else {
                    self.pos() + 1
                };
                &&& (np < self.list_spec()@.len() ==> (r matches Some(x) && *x
                    == self.list_spec()@[np]))
                &&& (np >= self.list_spec()@.len() ==> r is None)
            }),
    {
        let q = match self.current_pa {
            None => self.list.head_pa(),
            Some(current) => {
                proof {
                    self.list.lemma_index_of_order(self.index_la as int);
                }
                self.list.next_pa(current)
            }
        };
        match q {
            None => None,
            Some(p) => Some(self.list.get_p(p)),
        }
    }

    /// A reference to the element before the current one, without moving: the
    /// tail when at the ghost non-position, `None` before the first element.
    pub fn peek_prev(&self) -> (r: Option<&'a T>)
        requires
            self.wf(),
        ensures
            ({
                let pp = if self.pos() == 0 {
                    self.list_spec()@.len() as int
                } else {
                    self.pos() - 1
                };
                &&& (pp < self.list_spec()@.len() ==> (r matches Some(x) && *x
                    == self.list_spec()@[pp]))
                &&& (pp >= self.list_spec()@.len() ==> r is None)
            }),
    {
        let q = match self.current_pa {
            None => self.list.tail_pa(),
            Some(current) => {
                proof {
                    self.list.lemma_index_of_order(self.index_la as int);
                }
                self.list.prev_pa(current)
            }
        };
        match q {
            None => None,
            Some(p) => Some(self.list.get_p(p)),
        }
    }

    /// Equivalent to `self.get_list().front()`.
    pub fn front(&self) -> (r: Option<&'a T>)
        requires
            self.wf(),
        ensures
            self.list_spec()@.len() == 0 ==> r is None,
            self.list_spec()@.len() > 0 ==> (r matches Some(x) && *x == self.list_spec()@[0]),
    {
        self.list.front()
    }

    /// Equivalent to `self.get_list().back()`.
    pub fn back(&self) -> (r: Option<&'a T>)
        requires
            self.wf(),
        ensures
            self.list_spec()@.len() == 0 ==> r is None,
            self.list_spec()@.len() > 0 ==> (r matches Some(x) && *x == self.list_spec()@.last()),
    {
        self.list.back()
    }

    /// A cursor with no ghost non-position, pointing at the current element;
    /// `None` when there is no current element.
    pub fn as_nonempty_cursor(&self) -> (r: Option<NonEmptyVecCursor<'a, T, I>>)
        requires
            self.wf(),
        ensures
            self.pos() == self.list_spec()@.len() ==> r is None,
            self.pos() < self.list_spec()@.len() ==> (r matches Some(c) && c.wf() && c.list_spec()
                == self.list_spec() && c.pos() == self.pos()),
    {
        match self.current_pa {
            None => None,
            Some(p) => Some(
                NonEmptyVecCursor { index_la: self.index_la, current_pa: p, list: self.list },
            ),
        }
    }
}

/// A cursor over a non-empty list with no ghost non-position: stepping past
/// either end wraps around to the other.
#[derive(Clone)]
pub struct NonEmptyVecCursor<'a, T: 'a, I: StoreIndex + Copy> {
    index_la: usize,
    current_pa: usize,
    list: &'a LinkedVec<T, I>,
}

impl<'a, T: 'a, I: StoreIndex + Copy> NonEmptyVecCursor<'a, T, I> {
    /// The list the cursor walks.
    pub closed spec fn list_spec(&self) -> LinkedVec<T, I> {
        *self.list
    }

    /// The cursor's logical position, always at an element.
    pub closed spec fn pos(&self) -> int {
        self.index_la as int
    }

    pub closed spec fn wf(&self) -> bool {
        &&& self.list.wf()
        &&& 0 <= self.pos() < self.list@.len()
        &&& self.current_pa as int == self.list.order()[self.pos()]
    }

    /// The cursor's logical position.
    pub fn index_l(&self) -> (r: usize)
        requires
            self.wf(),
        ensures
            r as int == self.pos(),
    {
        self.index_la
    }

    /// The cursor's physical position.
    pub fn index_p(&self) -> (r: usize)
        requires
            self.wf(),
        ensures
            r as int == self.list_spec().order()[self.pos()],
    {
        self.current_pa
    }

    /// A reference to the current element.
    pub fn current(&self) -> (r: &'a T)
        requires
            self.wf(),
        ensures
            *r == self.list_spec()@[self.pos()],
    {
        self.list.get_p(self.current_pa)
    }

    /// Steps forward, wrapping from the last element to the first; returns
    /// `false` exactly when it wrapped.
    pub fn move_next(&mut self) -> (r: bool)
        requires
            old(self).wf(),
        ensures
            final(self).wf(),
            final(self).list_spec() == old(self).list_spec(),
            r == (old(self).pos() != old(self).list_spec()@.len() - 1),
            final(self).pos() == if old(self).pos() == old(self).list_spec()@.len() - 1 {
                0int
            } else {
                old(self).pos() + 1
            },
    {
        proof {
            self.list.lemma_index_of_order(self.index_la as int);
        }
        match self.list.next_pa(self.current_pa) {
            None => {
                let h = match self.list.head_pa() {
                    Some(h) => h,
                    None => vstd::pervasive::unreached(),
                };
                self.current_pa = h;
                self.index_la = 0;
                false
            }
            Some(next) => {
                let n = self.list.len();
                self.current_pa = next;
                self.index_la = self.index_la + 1;
                true
            }
        }
    }

    /// Steps backward, wrapping from the first element to the last; returns
    /// `false` exactly when it wrapped.
    pub fn move_prev(&mut self) -> (r: bool)
        requires
            old(self).wf(),
        ensures
            final(self).wf(),
            final(self).list_spec() == old(self).list_spec(),
            r == (old(self).pos() != 0),
            final(self).pos() == if old(self).pos() == 0 {
                old(self).list_spec()@.len() - 1
            } else {
                old(self).pos() - 1
            },
    {
        proof {
            self.list.lemma_index_of_order(self.index_la as int);
        }
        match self.list.prev_pa(self.current_pa) {
            None => {
                let t = match self.list.tail_pa() {
                    Some(t) => t,
                    None => vstd::pervasive::unreached(),
                };
                self.current_pa = t;
                self.index_la = self.list.len() - 1;
                false
            }
            Some(prev) => {
                self.current_pa = prev;
                self.index_la = self.index_la - 1;
                true
            }
        }
    }

    /// The same position as a plain cursor, ghost non-position included.
    pub fn as_cursor(&self) -> (r: VecCursor<'a, T, I>)
        requires
            self.wf(),
        ensures
            r.wf(),
            r.list_spec() == self.list_spec(),
            r.pos() == self.pos(),
    {
        VecCursor { index_la: self.index_la, current_pa: Some(self.current_pa), list: self.list }
    }
}

/// A cursor over the logical order that also hands out mutable access to
/// payloads. It takes the list over while it lives; `into_list` gives the
/// list back with every edit applied.
pub struct VecCursorMut<T, I: StoreIndex + Copy> {
    index_la: usize,
    current_pa: Option<usize>,
    list: LinkedVec<T, I>,
}

impl<T, I: StoreIndex + Copy> VecCursorMut<T, I> {
    /// The list the cursor holds, with all edits so far applied.
    pub closed spec fn list_spec(&self) -> LinkedVec<T, I> {
        self.list
    }

    /// The cursor's abstract position: a logical index, or the list length
    /// for the ghost non-position.
    pub closed spec fn pos(&self) -> int {
        self.index_la as int
    }

    pub closed spec fn wf(&self) -> bool {
        &&& self.list.wf()
        &&& match self.current_pa {
            Some(p) => self.pos() < self.list@.len() && p as int == self.list.order()[self.pos()],
            None => self.pos() == self.list@.len(),
        }
    }

    /// A cursor placed directly at a known position of a list it takes
    /// over. The logical index and the physical index must describe the same
    /// element (or both be absent, for the ghost non-position); the verifier
    /// checks what the caller of an unchecked constructor would otherwise
    /// merely promise.
    pub fn new_with_index_unchecked(
        list: LinkedVec<T, I>,
        index_l: Option<usize>,
        index_p: Option<usize>,
    ) -> (r: Self)
        requires
            list.wf(),
            match (index_l, index_p) {
                (None, None) => true,
                (Some(l), Some(p)) => (l as int) < list@.len() && p as int
                    == list.order()[l as int],
                _ => false,
            },
        ensures
            r.wf(),
            r.list_spec() == list,
            r.pos() == match index_l {
                Some(l) => l as int,
                None => list@.len() as int,
            },
    {
        let index_la = match index_l {
            Some(l) => l,
            None => list.len(),
        };
        VecCursorMut { index_la, current_pa: index_p, list }
    }

    /// The cursor's logical position, or `None` at the ghost non-position.
    pub fn index_l(&self) -> (r: Option<usize>)
        requires
            self.wf(),
        ensures
            self.pos() == self.list_spec()@.len() ==> r is None,
            self.pos() < self.list_spec()@.len() ==> r == Some(self.pos() as usize),
    {
        match self.current_pa {
            Some(_) => Some(self.index_la),
            None => None,
        }
    }

    /// The cursor's physical position, or `None` at the ghost non-position.
    pub fn index_p(&self) -> (r: Option<usize>)
        requires
            self.wf(),
        ensures
            self.pos() == self.list_spec()@.len() ==> r is None,
            self.pos() < self.list_spec()@.len() ==> (r matches Some(p) && p as int
                == self.list_spec().order()[self.pos()]),
    {
        self.current_pa
    }

    /// A mutable reference to the current element, or `None` at the ghost
    /// non-position.
    pub fn current(&mut self) -> (r: Option<&mut T>)
        requires
            old(self).wf(),
        ensures
            final(self).wf(),
            final(self).pos() == old(self).pos(),
            final(self).list_spec().order() == old(self).list_spec().order(),
            old(self).pos() == old(self).list_spec()@.len() ==> r is None && final(self).list_spec()
                == old(self).list_spec(),
            old(self).pos() < old(self).list_spec()@.len() ==> (match r {
                Some(x) => {
                    &&& *x == old(self).list_spec()@[old(self).pos()]
                    &&& final(self).list_spec()@ =~= old(self).list_spec()@.update(
                        old(self).pos(),
                        *final(x),
                    )
                    &&& final(self).list_spec().phys() =~= old(self).list_spec().phys().update(
                        old(self).list_spec().order()[old(self).pos()],
                        *final(x),
                    )
                },
                None => false,
            }),
    {
        match self.current_pa {
            None => None,
            Some(p) => {
                proof {
                    self.list.lemma_index_of_order(self.index_la as int);
                }
                Some(self.list.get_p_mut(p))
            }
        }
    }

    /// The list the cursor is walking, with all edits so far applied.
    pub fn get_list(&self) -> (r: &LinkedVec<T, I>)
        ensures
            *r == self.list_spec(),
    {
        &self.list
    }

    /// Gives the list back, with all edits applied.
    pub fn into_list(self) -> (r: LinkedVec<T, I>)
        ensures
            r == self.list_spec(),
    {
        self.list
    }

    /// Steps to the next element: from the ghost non-position to the head,
    /// from the last element to the ghost non-position.
    pub fn move_next(&mut self)
        requires
            old(self).wf(),
        ensures
            final(self).wf(),
            final(self).list_spec() == old(self).list_spec(),
            final(self).pos() == if old(self).pos() == old(self).list_spec()@.len() as int {
                0int
            } else {
                old(self).pos() + 1
            },
    {
        match self.current_pa {
            None => {
                self.current_pa = self.list.head_pa();
                self.index_la = 0;
            }
            Some(current) => {
                let n = self.list.len();
                proof {
                    self.list.lemma_index_of_order(self.index_la as int);
                }
                self.current_pa = self.list.next_pa(current);
                self.index_la = self.index_la + 1;
            }
        }
    }

    /// Steps to the previous element: from the ghost non-position to the
    /// tail, from the first element to the ghost non-position.
    pub fn move_prev(&mut self)
        requires
            old(self).wf(),
        ensures
            final(self).wf(),
            final(self).list_spec() == old(self).list_spec(),
            final(self).pos() == if old(self).pos() == 0 {
                old(self).list_spec()@.len() as int
            } else {
                old(self).pos() - 1
            },
    {
        match self.current_pa {
            None => {
                self.current_pa = self.list.tail_pa();
                self.index_la = if self.list.len() == 0 {
                    0
                } else {
                    self.list.len() - 1
                };
            }
            Some(current) => {
                proof {
                    self.list.lemma_index_of_order(self.index_la as int);
                }
                self.current_pa = self.list.prev_pa(current);
                self.index_la = if self.index_la == 0 {
                    self.list.len()
                } else {
                    self.index_la - 1
                };
            }
        }
    }

    /// A mutable reference to the element after the current one, without
    /// moving: the head when at the ghost non-position, `None` past the last
    /// element.
    pub fn peek_next(&mut self) -> (r: Option<&mut T>)
        requires
            old(self).wf(),
        ensures
            final(self).wf(),
            final(self).pos() == old(self).pos(),
            final(self).list_spec().order() == old(self).list_spec().order(),
            ({
                let np = if old(self).pos() == old(self).list_spec()@.len() as int {
                    0int
                } else {
                    old(self).pos() + 1
                };
                &&& (np >= old(self).list_spec()@.len() ==> r is None && final(self).list_spec()
                    == old(self).list_spec())
                &&& (np < old(self).list_spec()@.len() ==> (match r {
                    Some(x) => {
                        &&& *x == old(self).list_spec()@[np]
                        &&& final(self).list_spec()@ =~= old(self).list_spec()@.update(
                            np,
                            *final(x),
                        )
                        &&& final(self).list_spec().phys() =~= old(self).list_spec().phys().update(
                            old(self).list_spec().order()[np],
                            *final(x),
                        )
                    },
                    None => false,
                }))
            }),
    {
        let ghost np: int = if self.pos() == self.list@.len() as int {
            0int
        } else {
            self.pos() + 1
        };
        let q = match self.current_pa {
            None => self.list.head_pa(),
            Some(current) => {
                proof {
                    self.list.lemma_index_of_order(self.index_la as int);
                }
                self.list.next_pa(current)
            }
        };
        match q {
            None => None,
            Some(p) => {
                proof {
                    self.list.lemma_index_of_order(np);
                }
                Some(self.list.get_p_mut(p))
            }
        }
    }

    /// A mutable reference to the element before the current one, without
    /// moving: the tail when at the ghost non-position, `None` before the
    /// first element.
    pub fn peek_prev(&mut self) -> (r: Option<&mut T>)
        requires
            old(self).wf(),
        ensures
            final(self).wf(),
            final(self).pos() == old(self).pos(),
            final(self).list_spec().order() == old(self).list_spec().order(),
            ({
                let pp = if old(self).pos() == 0 {
                    old(self).list_spec()@.len() as int
                } else {
                    old(self).pos() - 1
                };
                &&& (pp >= old(self).list_spec()@.len() ==> r is None && final(self).list_spec()
                    == old(self).list_spec())
                &&& (pp < old(self).list_spec()@.len() ==> (match r {
                    Some(x) => {
                        &&& *x == old(self).list_spec()@[pp]
                        &&& final(self).list_spec()@ =~= old(self).list_spec()@.update(
                            pp,
                            *final(x),
                        )
                        &&& final(self).list_spec().phys() =~= old(self).list_spec().phys().update(
                            old(self).list_spec().order()[pp],
                            *final(x),
                        )
                    },
                    None => false,
                }))
            }),
    {
        let ghost pp: int = if self.pos() == 0 {
            self.list@.len() as int
        } else {
            self.pos() - 1
        };
        let q = match self.current_pa {
            None => self.list.tail_pa(),
            Some(current) => {
                proof {
                    self.list.lemma_index_of_order(self.index_la as int);
                }
                self.list.prev_pa(current)
            }
        };
        match q {
            None => None,
            Some(p) => {
                proof {
                    self.list.lemma_index_of_order(pp);
                }
                Some(self.list.get_p_mut(p))
            }
        }
    }

    /// Equivalent to `self.get_list().front()`.
    pub fn front(&self) -> (r: Option<&T>)
        requires
            self.wf(),
        ensures
            self.list_spec()@.len() == 0 ==> r is None,
            self.list_spec()@.len() > 0 ==> (r matches Some(x) && *x == self.list_spec()@[0]),
    {
        self.list.front()
    }

    /// A mutable reference to the front element, or `None` on an empty list.
    pub fn front_mut(&mut self) -> (r: Option<&mut T>)
        requires
            old(self).wf(),
        ensures
            final(self).wf(),
            final(self).pos() == old(self).pos(),
            final(self).list_spec().order() == old(self).list_spec().order(),
            old(self).list_spec()@.len() == 0 ==> r is None && final(self).list_spec() == old(
                self,
            ).list_spec(),
            old(self).list_spec()@.len() > 0 ==> (match r {
                Some(x) => {
                    &&& *x == old(self).list_spec()@[0]
                    &&& final(self).list_spec()@ =~= old(self).list_spec()@.update(0, *final(x))
                    &&& final(self).list_spec().phys() =~= old(self).list_spec().phys().update(
                        old(self).list_spec().order()[0],
                        *final(x),
                    )
                },
                None => false,
            }),
    {
        self.list.front_mut()
    }

    /// Equivalent to `self.get_list().back()`.
    pub fn back(&self) -> (r: Option<&T>)
        requires
            self.wf(),
        ensures
            self.list_spec()@.len() == 0 ==> r is None,
            self.list_spec()@.len() > 0 ==> (r matches Some(x) && *x == self.list_spec()@.last()),
    {
        self.list.back()
    }

    /// A mutable reference to the back element, or `None` on an empty list.
    pub fn back_mut(&mut self) -> (r: Option<&mut T>)
        requires
            old(self).wf(),
        ensures
            final(self).wf(),
            final(self).pos() == old(self).pos(),
            final(self).list_spec().order() == old(self).list_spec().order(),
            old(self).list_spec()@.len() == 0 ==> r is None && final(self).list_spec() == old(
                self,
            ).list_spec(),
            old(self).list_spec()@.len() > 0 ==> (match r {
                Some(x) => {
                    &&& *x == old(self).list_spec()@.last()
                    &&& final(self).list_spec()@ =~= old(self).list_spec()@.update(
                        old(self).list_spec()@.len() - 1,
                        *final(x),
                    )
                    &&& final(self).list_spec().phys() =~= old(self).list_spec().phys().update(
                        old(self).list_spec().order().last(),
                        *final(x),
                    )
                },
                None => false,
            }),
    {
        self.list.back_mut()
    }

    /// A read-only cursor at the same position, over the list as edited so
    /// far. Moving it does not move `self`.
    pub fn as_cursor(&self) -> (r: VecCursor<'_, T, I>)
        requires
            self.wf(),
        ensures
            r.wf(),
            r.list_spec() == self.list_spec(),
            r.pos() == self.pos(),
    {
        VecCursor { index_la: self.index_la, current_pa: self.current_pa, list: &self.list }
    }

    /// A cursor with no ghost non-position, pointing at the current element;
    /// `None` when there is no current element.
    pub fn as_nonempty_cursor(&self) -> (r: Option<NonEmptyVecCursor<'_, T, I>>)
        requires
            self.wf(),
        ensures
            self.pos() == self.list_spec()@.len() ==> r is None,
            self.pos() < self.list_spec()@.len() ==> (r matches Some(c) && c.wf() && c.list_spec()
                == self.list_spec() && c.pos() == self.pos()),
    {
        match self.current_pa {
            None => None,
            Some(p) => Some(
                NonEmptyVecCursor { index_la: self.index_la, current_pa: p, list: &self.list },
            ),
        }
    }
}

impl<T, I: StoreIndex + Copy> LinkedVec<T, I> {
    /// A read-only cursor at the front element (or at the ghost non-position
    /// of an empty list).
    pub fn cursor_front(&self) -> (r: VecCursor<'_, T, I>)
        requires
            self.wf(),
        ensures
            r.wf(),
            r.list_spec() == *self,
            r.pos() == 0,
    {
        VecCursor::new_front(self)
    }

    /// A read-only cursor at the back element (or at the ghost non-position
    /// of an empty list).
    pub fn cursor_back(&self) -> (r: VecCursor<'_, T, I>)
        requires
            self.wf(),
        ensures
            r.wf(),
            r.list_spec() == *self,
            r.pos() == if self@.len() == 0 {
                0int
            } else {
                self@.len() - 1
            },
    {
        VecCursor::new_back(self)
    }

    /// A mutable cursor at the front element. It takes the list over;
    /// `VecCursorMut::into_list` gives it back with all edits applied.
    pub fn cursor_front_mut(self) -> (r: VecCursorMut<T, I>)
        requires
            self.wf(),
        ensures
            r.wf(),
            r.list_spec() == self,
            r.pos() == 0,
    {
        let h = self.head_pa();
        VecCursorMut { index_la: 0, current_pa: h, list: self }
    }

    /// A mutable cursor at the back element. It takes the list over;
    /// `VecCursorMut::into_list` gives it back with all edits applied.
    pub fn cursor_back_mut(self) -> (r: VecCursorMut<T, I>)
        requires
            self.wf(),
        ensures
            r.wf(),
            r.list_spec() == self,
            r.pos() == if self@.len() == 0 {
                0int
            } else {
                self@.len() - 1
            },
    {
        let t = self.tail_pa();
        let n = self.len();
        match t {
            Some(t) => VecCursorMut { index_la: n - 1, current_pa: Some(t), list: self },
            None => VecCursorMut { index_la: 0, current_pa: None, list: self },
        }
    }
}

/// A bidirectional read-only iterator over the logical order: two physical
/// cursors walk in from the ends of a shrinking logical window.
#[derive(Clone, Copy)]
pub struct Iter<'a, T: 'a, I: StoreIndex + Copy> {
    list: &'a LinkedVec<T, I>,
    head: usize,
    tail: usize,
    len: usize,
    lo: Ghost<int>,
}

impl<'a, T: 'a, I: StoreIndex + Copy> Iter<'a, T, I> {
    /// The list being read.
    pub closed spec fn list_spec(&self) -> LinkedVec<T, I> {
        *self.list
    }

    /// The logical index of the next element the front end would yield.
    pub closed spec fn lo_spec(&self) -> int {
        self.lo@
    }

    /// The elements not yet yielded, in logical order.
    pub open spec fn remaining(&self) -> Seq<T> {
        self.list_spec()@.subrange(self.lo_spec(), self.lo_spec() + self.len_spec())
    }

    /// How many elements are not yet yielded.
    pub closed spec fn len_spec(&self) -> int {
        self.len as int
    }

    pub closed spec fn wf(&self) -> bool {
        &&& self.list.wf()
        &&& 0 <= self.lo@
        &&& self.lo@ + self.len as int <= self.list@.len()
        &&& self.len > 0 ==> self.head as int == self.list.order()[self.lo@] && self.tail as int
            == self.list.order()[self.lo@ + self.len - 1]
    }

    pub fn new(list: &'a LinkedVec<T, I>) -> (r: Self)
        requires
            list.wf(),
        ensures
            r.wf(),
            r.list_spec() == *list,
            r.remaining() == list@,
    {
        let h = match list.head_pa() {
            Some(h) => h,
            None => 0,
        };
        let t = match list.tail_pa() {
            Some(t) => t,
            None => 0,
        };
        let r = Iter { head: h, tail: t, len: list.len(), list, lo: Ghost(0) };
        proof {
            assert(r.remaining() =~= list@);
        }
        r
    }

    /// The element at the front of the remaining window, stepping past it.
    pub fn next(&mut self) -> (r: Option<&'a T>)
        requires
            old(self).wf(),
        ensures
            final(self).wf(),
            final(self).list_spec() == old(self).list_spec(),
            old(self).remaining().len() == 0 ==> r is None && final(self).remaining() == old(
                self,
            ).remaining(),
            old(self).remaining().len() > 0 ==> (r matches Some(x) && *x == old(self).remaining()[0]
                && final(self).remaining() == old(self).remaining().drop_first()),
    {
        if self.len == 0 {
            return None;
        }
        let p = self.head;
        proof {
            self.list.lemma_index_of_order(self.lo@);
        }
        let r = self.list.get_p(p);
        self.head = match self.list.next_pa(p) {
            Some(q) => q,
            None => 0,
        };
        self.len = self.len - 1;
        proof {
            self.lo@ = self.lo@ + 1;
            assert(self.remaining() =~= old(self).remaining().drop_first());
        }
        Some(r)
    }

    /// The element at the back of the remaining window, stepping before it.
    pub fn next_back(&mut self) -> (r: Option<&'a T>)
        requires
            old(self).wf(),
        ensures
            final(self).wf(),
            final(self).list_spec() == old(self).list_spec(),
            old(self).remaining().len() == 0 ==> r is None && final(self).remaining() == old(
                self,
            ).remaining(),
            old(self).remaining().len() > 0 ==> (r matches Some(x) && *x == old(
                self,
            ).remaining().last() && final(self).remaining() == old(self).remaining().drop_last()),
    {
        if self.len == 0 {
            return None;
        }
        let p = self.tail;
        proof {
            self.list.lemma_index_of_order(self.lo@ + self.len - 1);
        }
        let r = self.list.get_p(p);
        self.tail = match self.list.prev_pa(p) {
            Some(q) => q,
            None => 0,
        };
        self.len = self.len - 1;
        proof {
            assert(self.remaining() =~= old(self).remaining().drop_last());
        }
        Some(r)
    }

    /// Exact bounds on how many elements remain.
    pub fn size_hint(&self) -> (r: (usize, Option<usize>))
        requires
            self.wf(),
        ensures
            r.0 as int == self.remaining().len(),
            r.1 == Some(r.0),
    {
        (self.len, Some(self.len))
    }
}

/// A bidirectional iterator that yields physical indices in logical order.
#[derive(Clone, Copy)]
pub struct IterP<'a, T: 'a, I: StoreIndex + Copy> {
    list: &'a LinkedVec<T, I>,
    head: usize,
    tail: usize,
    len: usize,
    lo: Ghost<int>,
}

impl<'a, T: 'a, I: StoreIndex + Copy> IterP<'a, T, I> {
    /// The list being read.
    pub closed spec fn list_spec(&self) -> LinkedVec<T, I> {
        *self.list
    }

    /// The logical index of the next position the front end would yield.
    pub closed spec fn lo_spec(&self) -> int {
        self.lo@
    }

    /// The physical indices not yet yielded, in logical order.
    pub open spec fn remaining(&self) -> Seq<int> {
        self.list_spec().order().subrange(self.lo_spec(), self.lo_spec() + self.len_spec())
    }

    /// How many positions are not yet yielded.
    pub closed spec fn len_spec(&self) -> int {
        self.len as int
    }

    pub closed spec fn wf(&self) -> bool {
        &&& self.list.wf()
        &&& 0 <= self.lo@
        &&& self.lo@ + self.len as int <= self.list@.len()
        &&& self.len > 0 ==> self.head as int == self.list.order()[self.lo@] && self.tail as int
            == self.list.order()[self.lo@ + self.len - 1]
    }

    pub fn new(list: &'a LinkedVec<T, I>) -> (r: Self)
        requires
            list.wf(),
        ensures
            r.wf(),
            r.list_spec() == *list,
            r.remaining() == list.order(),
    {
        let h = match list.head_pa() {
            Some(h) => h,
            None => 0,
        };
        let t = match list.tail_pa() {
            Some(t) => t,
            None => 0,
        };
        let r = IterP { head: h, tail: t, len: list.len(), list, lo: Ghost(0) };
        proof {
            assert(r.remaining() =~= list.order());
        }
        r
    }

    /// The physical index at the front of the remaining window, stepping
    /// past it.
    pub fn next(&mut self) -> (r: Option<usize>)
        requires
            old(self).wf(),
        ensures
            final(self).wf(),
            final(self).list_spec() == old(self).list_spec(),
            old(self).remaining().len() == 0 ==> r is None && final(self).remaining() == old(
                self,
            ).remaining(),
            old(self).remaining().len() > 0 ==> (r matches Some(p) && p as int == old(
                self,
            ).remaining()[0] && final(self).remaining() == old(self).remaining().drop_first()),
    {
        if self.len == 0 {
            return None;
        }
        let p = self.head;
        proof {
            self.list.lemma_index_of_order(self.lo@);
        }
        self.head = match self.list.next_pa(p) {
            Some(q) => q,
            None => 0,
        };
        self.len = self.len - 1;
        proof {
            self.lo@ = self.lo@ + 1;
            assert(self.remaining() =~= old(self).remaining().drop_first());
        }
        Some(p)
    }

    /// The physical index at the back of the remaining window, stepping
    /// before it.
    pub fn next_back(&mut self) -> (r: Option<usize>)
        requires
            old(self).wf(),
        ensures
            final(self).wf(),
            final(self).list_spec() == old(self).list_spec(),
            old(self).remaining().len() == 0 ==> r is None && final(self).remaining() == old(
                self,
            ).remaining(),
            old(self).remaining().len() > 0 ==> (r matches Some(p) && p as int == old(
                self,
            ).remaining().last() && final(self).remaining() == old(self).remaining().drop_last()),
    {
        if self.len == 0 {
            return None;
        }
        let p = self.tail;
        proof {
            self.list.lemma_index_of_order(self.lo@ + self.len - 1);
        }
        self.tail = match self.list.prev_pa(p) {
            Some(q) => q,
            None => 0,
        };
        self.len = self.len - 1;
        proof {
            assert(self.remaining() =~= old(self).remaining().drop_last());
        }
        Some(p)
    }

    /// Exact bounds on how many positions remain.
    pub fn size_hint(&self) -> (r: (usize, Option<usize>))
        requires
            self.wf(),
        ensures
            r.0 as int == self.remaining().len(),
            r.1 == Some(r.0),
    {
        (self.len, Some(self.len))
    }
}

/// A bidirectional iterator handing out mutable access to each element of
/// the logical order exactly once. It takes the list over while it lives;
/// `into_list` gives the list back with every edit applied.
pub struct SafeIterMut<T, I: StoreIndex + Copy> {
    list: LinkedVec<T, I>,
    head: usize,
    tail: usize,
    len: usize,
    lo: Ghost<int>,
}

impl<T, I: StoreIndex + Copy> SafeIterMut<T, I> {
    /// The list being edited, with all edits so far applied.
    pub closed spec fn list_spec(&self) -> LinkedVec<T, I> {
        self.list
    }

    /// The logical index of the next element the front end would yield.
    pub closed spec fn lo_spec(&self) -> int {
        self.lo@
    }

    /// The elements not yet yielded, in logical order.
    pub open spec fn remaining(&self) -> Seq<T> {
        self.list_spec()@.subrange(self.lo_spec(), self.lo_spec() + self.len_spec())
    }

    /// How many elements are not yet yielded.
    pub closed spec fn len_spec(&self) -> int {
        self.len as int
    }

    pub closed spec fn wf(&self) -> bool {
        &&& self.list.wf()
        &&& 0 <= self.lo@
        &&& self.lo@ + self.len as int <= self.list@.len()
        &&& self.len > 0 ==> self.head as int == self.list.order()[self.lo@] && self.tail as int
            == self.list.order()[self.lo@ + self.len - 1]
    }

    pub fn new(list: LinkedVec<T, I>) -> (r: Self)
        requires
            list.wf(),
        ensures
            r.wf(),
            r.list_spec() == list,
            r.lo_spec() == 0,
            r.remaining() == list@,
    {
        let h = match list.head_pa() {
            Some(h) => h,
            None => 0,
        };
        let t = match list.tail_pa() {
            Some(t) => t,
            None => 0,
        };
        let n = list.len();
        let r = SafeIterMut { head: h, tail: t, len: n, list, lo: Ghost(0) };
        proof {
            assert(r.remaining() =~= r.list@);
        }
        r
    }

    /// Gives the list back, with all edits applied.
    pub fn into_list(self) -> (r: LinkedVec<T, I>)
        ensures
            r == self.list_spec(),
    {
        self.list
    }

    /// A mutable reference to the element at the front of the remaining
    /// window, stepping past it.
    pub fn next(&mut self) -> (r: Option<&mut T>)
        requires
            old(self).wf(),
        ensures
            final(self).wf(),
            final(self).list_spec().order() == old(self).list_spec().order(),
            old(self).remaining().len() == 0 ==> r is None && *final(self) == *old(self),
            old(self).remaining().len() > 0 ==> (match r {
                Some(x) => {
                    &&& *x == old(self).remaining()[0]
                    &&& final(self).lo_spec() == old(self).lo_spec() + 1
                    &&& final(self).list_spec()@ =~= old(self).list_spec()@.update(
                        old(self).lo_spec(),
                        *final(x),
                    )
                    &&& final(self).list_spec().phys() =~= old(self).list_spec().phys().update(
                        old(self).list_spec().order()[old(self).lo_spec()],
                        *final(x),
                    )
                    &&& final(self).remaining() =~= old(self).remaining().drop_first()
                },
                None => false,
            }),
    {
        if self.len == 0 {
            return None;
        }
        let p = self.head;
        proof {
            self.list.lemma_index_of_order(self.lo@);
        }
        self.head = match self.list.next_pa(p) {
            Some(q) => q,
            None => 0,
        };
        self.len = self.len - 1;
        proof {
            self.lo@ = self.lo@ + 1;
        }
        Some(self.list.get_p_mut(p))
    }

    /// A mutable reference to the element at the back of the remaining
    /// window, stepping before it.
    pub fn next_back(&mut self) -> (r: Option<&mut T>)
        requires
            old(self).wf(),
        ensures
            final(self).wf(),
            final(self).list_spec().order() == old(self).list_spec().order(),
            old(self).remaining().len() == 0 ==> r is None && *final(self) == *old(self),
            old(self).remaining().len() > 0 ==> (match r {
                Some(x) => {
                    &&& *x == old(self).remaining().last()
                    &&& final(self).lo_spec() == old(self).lo_spec()
                    &&& final(self).list_spec()@ =~= old(self).list_spec()@.update(
                        old(self).lo_spec() + old(self).remaining().len() - 1,
                        *final(x),
                    )
                    &&& final(self).list_spec().phys() =~= old(self).list_spec().phys().update(
                        old(self).list_spec().order()[old(self).lo_spec() + old(
                            self,
                        ).remaining().len() - 1],
                        *final(x),
                    )
                    &&& final(self).remaining() =~= old(self).remaining().drop_last()
                },
                None => false,
            }),
    {
        if self.len == 0 {
            return None;
        }
        let p = self.tail;
        proof {
            self.list.lemma_index_of_order(self.lo@ + self.len - 1);
        }
        self.tail = match self.list.prev_pa(p) {
            Some(q) => q,
            None => 0,
        };
        self.len = self.len - 1;
        Some(self.list.get_p_mut(p))
    }

    /// Exact bounds on how many elements remain.
    pub fn size_hint(&self) -> (r: (usize, Option<usize>))
        requires
            self.wf(),
        ensures
            r.0 as int == self.remaining().len(),
            r.1 == Some(r.0),
    {
        (self.len, Some(self.len))
    }
}

/// A consuming iterator: draining the list from either end.
pub struct IntoIter<T, I: StoreIndex + Copy> {
    list: LinkedVec<T, I>,
}

impl<T, I: StoreIndex + Copy> IntoIter<T, I> {
    /// The elements not yet yielded, in logical order.
    pub closed spec fn remaining(&self) -> Seq<T> {
        self.list@
    }

    pub closed spec fn wf(&self) -> bool {
        self.list.wf()
    }

    /// The front element, removed from the list.
    pub fn next(&mut self) -> (r: Option<T>)
        requires
            old(self).wf(),
        ensures
            final(self).wf(),
            old(self).remaining().len() == 0 ==> r is None && *final(self) == *old(self),
            old(self).remaining().len() > 0 ==> r == Some(old(self).remaining()[0]) && final(self).remaining() == old(self).remaining().drop_first(),
    {
        self.list.pop_front()
    }

    /// The back element, removed from the list.
    pub fn next_back(&mut self) -> (r: Option<T>)
        requires
            old(self).wf(),
        ensures
            final(self).wf(),
            old(self).remaining().len() == 0 ==> r is None && *final(self) == *old(self),
            old(self).remaining().len() > 0 ==> r == Some(old(self).remaining().last()) && final(self).remaining() == old(self).remaining().drop_last(),
    {
        self.list.pop_back()
    }

    /// Exact bounds on how many elements remain.
    pub fn size_hint(&self) -> (r: (usize, Option<usize>))
        requires
            self.wf(),
        ensures
            r.0 as int == self.remaining().len(),
            r.1 == Some(r.0),
    {
        let n = self.list.len();
        (n, Some(n))
    }
}

impl<T, I: StoreIndex + Copy> LinkedVec<T, I> {
    /// A forward (and backward) read-only iterator.
    pub fn iter(&self) -> (r: Iter<'_, T, I>)
        requires
            self.wf(),
        ensures
            r.wf(),
            r.list_spec() == *self,
            r.remaining() == self@,
    {
        Iter::new(self)
    }

    /// An iterator handing out mutable access to each element once. It takes
    /// the list over; `SafeIterMut::into_list` gives it back with all edits
    /// applied.
    pub fn iter_mut(self) -> (r: SafeIterMut<T, I>)
        requires
            self.wf(),
        ensures
            r.wf(),
            r.list_spec() == self,
            r.lo_spec() == 0,
            r.remaining() == self@,
    {
        SafeIterMut::new(self)
    }

    /// A consuming iterator that drains the list from either end.
    pub fn into_iter(self) -> (r: IntoIter<T, I>)
        requires
            self.wf(),
        ensures
            r.wf(),
            r.remaining() == self@,
    {
        IntoIter { list: self }
    }
}

} // verus!
