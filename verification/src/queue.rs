//! A first-in, first-out queue built from two stacks.
//!
//! Elements are pushed onto `younger`; when the `older` stack runs dry, the
//! younger elements are carried over in reverse, so that popping from the end
//! of `older` yields the elements oldest first.

use vstd::prelude::*;

verus! {

/// A first-in, first-out queue of `T`.
pub struct Queue<T> {
    pub older: Vec<T>,
    pub younger: Vec<T>,
}

impl<T> View for Queue<T> {
    type V = Seq<T>;

    /// The queued elements, oldest first.
    open spec fn view(&self) -> Seq<T> {
        self.older@.reverse() + self.younger@
    }
}

impl<T> Queue<T> {
    /// An empty queue.
    pub fn new() -> (q: Queue<T>)
        ensures
            q@ == Seq::<T>::empty(),
    {
        let q = Queue { older: Vec::new(), younger: Vec::new() };
        proof {
            assert(q@ =~= Seq::<T>::empty());
        }
        q
    }

    /// Enqueue an element at the back.
    pub fn push(&mut self, c: T)
        requires
            old(self)@.len() < usize::MAX,
        ensures
            final(self)@ == old(self)@.push(c),
    {
        self.younger.push(c);
        proof {
            assert(self@ =~= old(self)@.push(c));
        }
    }

    /// Dequeue the oldest element, or `None` if the queue is empty.
    pub fn pop(&mut self) -> (r: Option<T>)
        ensures
            match r {
                Some(e) => {
                    &&& old(self)@.len() > 0
                    &&& e == old(self)@[0]
                    &&& final(self)@ == old(self)@.skip(1)
                },
                None => old(self)@.len() == 0 && final(self)@ == old(self)@,
            },
    {
        if self.older.is_empty() {
            if self.younger.is_empty() {
                proof {
                    assert(self@ =~= Seq::<T>::empty());
                }
                return None;
            }
            // Carry the young elements over, oldest on top.
            while self.younger.len() > 0
                invariant
                    old(self).older@.len() == 0,
                    old(self).younger@ == self.younger@ + self.older@.reverse(),
                decreases self.younger@.len(),
            {
                let ghost before = *self;
                let shifted = self.younger.pop().unwrap();
                self.older.push(shifted);
                proof {
                    assert(self.younger@ + self.older@.reverse() =~= before.younger@
                        + before.older@.reverse());
                }
            }
            proof {
                assert(self@ =~= old(self)@);
            }
        }
        let ghost before_pop = *self;
        let e = self.older.pop();
        proof {
            assert(before_pop@ == old(self)@);
            if before_pop.older@.len() > 0 {
                assert(e == Some(before_pop@[0]));
                assert(self@ =~= old(self)@.skip(1));
            } else {
                assert(before_pop@ =~= Seq::<T>::empty());
            }
        }
        e
    }

    /// True when nothing is queued.
    pub fn is_empty(&self) -> (b: bool)
        ensures
            b == (self@.len() == 0),
    {
        self.older.is_empty() && self.younger.is_empty()
    }

    /// Take the queue apart into its two stacks: the carried-over elements
    /// (newest first) and the still-young elements (oldest first).
    pub fn split(self) -> (parts: (Vec<T>, Vec<T>))
        ensures
            parts.0@.reverse() + parts.1@ == self@,
    {
        (self.older, self.younger)
    }
}

} // verus!
