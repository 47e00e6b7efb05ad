//! A gap buffer: a sequence with a movable insertion point, cheap to edit
//! near that point.
//!
//! The elements live in one backing vector with a gap of unoccupied slots in
//! the middle; the gap sits at the current insertion position. Moving the
//! position shifts elements across the gap; inserting consumes a slot of the
//! gap; removing returns the element just after the gap and widens it.

use vstd::prelude::*;

verus! {

/// A sequence of elements with a movable insertion point.
pub struct GapBuffer<T> {
    /// Backing store; the slots of the gap hold `None`, all others `Some`.
    storage: Vec<Option<T>>,
    /// First slot of the gap.
    gap_start: usize,
    /// First occupied slot after the gap.
    gap_end: usize,
}

impl<T> View for GapBuffer<T> {
    type V = Seq<T>;

    /// The elements in order: everything before the gap, then everything
    /// after it.
    closed spec fn view(&self) -> Seq<T> {
        Seq::new(
            (self.storage@.len() - (self.gap_end - self.gap_start)) as nat,
            |i: int|
                if i < self.gap_start {
                    self.storage@[i]->Some_0
                } else {
                    self.storage@[i + (self.gap_end - self.gap_start)]->Some_0
                },
        )
    }
}

impl<T> GapBuffer<T> {
    /// Representation invariant: the gap is a well-placed window of `None`
    /// slots and every slot outside it is occupied.
    pub closed spec fn wf(&self) -> bool {
        &&& self.gap_start <= self.gap_end <= self.storage@.len()
        &&& forall|i: int|
            0 <= i < self.gap_start ==> (#[trigger] self.storage@[i]) is Some
        &&& forall|i: int|
            self.gap_end <= i < self.storage@.len() ==> (#[trigger] self.storage@[i]) is Some
    }

    /// An empty buffer with no room yet.
    pub fn new() -> (b: GapBuffer<T>)
        ensures
            b.wf(),
            b@ == Seq::<T>::empty(),
            b.capacity_spec() == 0,
            b.position_spec() == 0,
    {
        let b = GapBuffer { storage: Vec::new(), gap_start: 0, gap_end: 0 };
        proof {
            assert(b@ =~= Seq::<T>::empty());
        }
        b
    }

    /// How many elements the buffer can hold without growing.
    pub closed spec fn capacity_spec(&self) -> nat {
        self.storage@.len()
    }

    /// The current insertion position.
    pub closed spec fn position_spec(&self) -> nat {
        self.gap_start as nat
    }

    /// Return the number of elements this buffer could hold without
    /// reallocation.
    pub fn capacity(&self) -> (n: usize)
        ensures
            n == self.capacity_spec(),
    {
        self.storage.len()
    }

    /// Return the number of elements this buffer currently holds.
    pub fn len(&self) -> (n: usize)
        requires
            self.wf(),
        ensures
            n == self@.len(),
    {
        self.storage.len() - (self.gap_end - self.gap_start)
    }

    /// Return the current insertion position.
    pub fn position(&self) -> (p: usize)
        ensures
            p == self.position_spec(),
    {
        self.gap_start
    }

    /// The offset in the backing store of the `index`th element, skipping the
    /// gap.
    fn index_to_raw(&self, index: usize) -> (raw: usize)
        requires
            self.wf(),
            index <= self@.len(),
        ensures
            index < self.gap_start ==> raw == index,
            index >= self.gap_start ==> raw == index + (self.gap_end - self.gap_start),
    {
        if index < self.gap_start {
            index
        } else {
            let total = self.storage.len();
            proof {
                assert(index + (self.gap_end - self.gap_start) <= total);
            }
            index + (self.gap_end - self.gap_start)
        }
    }

    /// Return a reference to the `index`th element, or `None` if `index` is
    /// out of bounds.
    pub fn get(&self, index: usize) -> (r: Option<&T>)
        requires
            self.wf(),
        ensures
            match r {
                Some(e) => index < self@.len() && *e == self@[index as int],
                None => index >= self@.len(),
            },
    {
        if index >= self.len() {
            return None;
        }
        let raw = self.index_to_raw(index);
        match &self.storage[raw] {
            Some(e) => Some(e),
            None => {
                // A raw index outside the gap always holds an element.
                proof {
                    assert(false);
                }
                None
            },
        }
    }

    /// Set the current insertion position to `pos`, shifting elements across
    /// the gap; the elements themselves stay in order.
    pub fn set_position(&mut self, pos: usize)
        requires
            old(self).wf(),
            pos <= old(self)@.len(),
        ensures
            final(self).wf(),
            final(self)@ == old(self)@,
            final(self).position_spec() == pos,
            final(self).capacity_spec() == old(self).capacity_spec(),
    {
        let total = self.storage.len();
        if pos < self.gap_start {
            while self.gap_start > pos
                invariant
                    self.wf(),
                    pos <= self.gap_start,
                    self@ == old(self)@,
                    self.storage@.len() == total,
                decreases self.gap_start - pos,
            {
                let moved = self.storage[self.gap_start - 1].take();
                self.storage[self.gap_end - 1] = moved;
                self.gap_start = self.gap_start - 1;
                self.gap_end = self.gap_end - 1;
                proof {
                    assert(self@ =~= old(self)@);
                }
            }
        } else {
            while self.gap_start < pos
                invariant
                    self.wf(),
                    self.gap_start <= pos <= self@.len(),
                    self@ == old(self)@,
                    self.storage@.len() == total,
                decreases pos - self.gap_start,
            {
                let moved = self.storage[self.gap_end].take();
                self.storage[self.gap_start] = moved;
                self.gap_start = self.gap_start + 1;
                self.gap_end = self.gap_end + 1;
                proof {
                    assert(self@ =~= old(self)@);
                }
            }
        }
    }

    /// Move every element into a larger backing store, keeping the gap at the
    /// current position.
    #[verifier::loop_isolation(false)]
    fn enlarge_gap(&mut self)
        requires
            old(self).wf(),
            old(self)@.len() < usize::MAX,
        ensures
            final(self).wf(),
            final(self)@ == old(self)@,
            final(self).position_spec() == old(self).position_spec(),
            final(self)@.len() < final(self).capacity_spec(),
    {
        let new_capacity = if self.storage.len() == 0 {
            4
        } else if self.storage.len() <= usize::MAX / 2 {
            self.storage.len() * 2
        } else {
            usize::MAX
        };
        let after = self.storage.len() - self.gap_end;
        let new_gap_end = new_capacity - after;
        let mut replacement: Vec<Option<T>> = Vec::new();
        let mut i: usize = 0;
        while i < self.gap_start
            invariant
                i <= self.gap_start <= self.gap_end <= self.storage@.len(),
                self.gap_start == old(self).gap_start,
                self.gap_end == old(self).gap_end,
                self.storage@.len() == old(self).storage@.len(),
                forall|j: int|
                    i <= j < self.storage@.len() ==> #[trigger] self.storage@[j] == old(
                        self,
                    ).storage@[j],
                replacement@.len() == i,
                forall|j: int| 0 <= j < i ==> #[trigger] replacement@[j] == old(self).storage@[j],
            decreases self.gap_start - i,
        {
            let moved = self.storage[i].take();
            replacement.push(moved);
            i = i + 1;
        }
        while replacement.len() < new_gap_end
            invariant
                self.gap_start <= replacement@.len() <= new_gap_end,
                forall|j: int|
                    0 <= j < self.gap_start ==> #[trigger] replacement@[j] == old(
                        self,
                    ).storage@[j],
            decreases new_gap_end - replacement@.len(),
        {
            let ghost before_push = replacement@;
            replacement.push(None);
            proof {
                assert forall|j: int|
                    0 <= j < self.gap_start implies #[trigger] replacement@[j] == old(
                    self,
                ).storage@[j] by {
                    assert(replacement@[j] == before_push[j]);
                }
            }
        }
        let mut k = self.gap_end;
        while k < self.storage.len()
            invariant
                self.gap_start <= self.gap_end <= k <= self.storage@.len(),
                self.gap_start == old(self).gap_start,
                self.gap_end == old(self).gap_end,
                self.storage@.len() == old(self).storage@.len(),
                new_gap_end + (self.storage@.len() - self.gap_end) == new_capacity,
                forall|j: int|
                    k <= j < self.storage@.len() ==> #[trigger] self.storage@[j] == old(
                        self,
                    ).storage@[j],
                replacement@.len() == new_gap_end + (k - self.gap_end),
                forall|j: int|
                    0 <= j < self.gap_start ==> #[trigger] replacement@[j] == old(
                        self,
                    ).storage@[j],
                forall|j: int|
                    new_gap_end <= j < replacement@.len() ==> #[trigger] replacement@[j] == old(
                        self,
                    ).storage@[j - new_gap_end + self.gap_end],
            decreases self.storage@.len() - k,
        {
            let ghost before_push = replacement@;
            let moved = self.storage[k].take();
            replacement.push(moved);
            k = k + 1;
            proof {
                assert forall|j: int|
                    0 <= j < self.gap_start implies #[trigger] replacement@[j] == old(
                    self,
                ).storage@[j] by {
                    assert(replacement@[j] == before_push[j]);
                }
                assert forall|j: int|
                    new_gap_end <= j < replacement@.len() implies #[trigger] replacement@[j] == old(
                    self,
                ).storage@[j - new_gap_end + self.gap_end] by {
                    if j < replacement@.len() - 1 {
                        assert(replacement@[j] == before_push[j]);
                    } else {
                        assert(replacement@[j] == moved);
                        assert(moved == old(self).storage@[k - 1]);
                    }
                }
            }
        }
        self.storage = replacement;
        self.gap_end = new_gap_end;
        proof {
            assert(self@ =~= old(self)@);
        }
    }

    /// Insert `elt` at the current insertion position, and leave the
    /// insertion position after it.
    pub fn insert(&mut self, elt: T)
        requires
            old(self).wf(),
            old(self)@.len() < usize::MAX,
        ensures
            final(self).wf(),
            final(self)@ == old(self)@.insert(old(self).position_spec() as int, elt),
            final(self).position_spec() == old(self).position_spec() + 1,
    {
        if self.gap_start == self.gap_end {
            self.enlarge_gap();
        }
        self.storage[self.gap_start] = Some(elt);
        self.gap_start = self.gap_start + 1;
        proof {
            assert(self@ =~= old(self)@.insert(old(self).position_spec() as int, elt));
        }
    }

    /// Insert every element of `items` at the current insertion position, in
    /// order, and leave the insertion position after them.
    pub fn insert_iter(&mut self, items: Vec<T>)
        requires
            old(self).wf(),
            old(self)@.len() + items@.len() < usize::MAX,
        ensures
            final(self).wf(),
            final(self)@ == old(self)@.subrange(0, old(self).position_spec() as int) + items@
                + old(self)@.skip(old(self).position_spec() as int),
            final(self).position_spec() == old(self).position_spec() + items@.len(),
    {
        let ghost front = old(self)@.subrange(0, old(self).position_spec() as int);
        let ghost back = old(self)@.skip(old(self).position_spec() as int);
        let mut items = items;
        let ghost all = items@;
        let mut taken: usize = 0;
        while items.len() > 0
            invariant
                self.wf(),
                taken + items@.len() == all.len(),
                items@ == all.skip(taken as int),
                self@.len() == front.len() + taken + back.len(),
                front.len() + all.len() + back.len() < usize::MAX,
                self.position_spec() == front.len() + taken,
                self@ == front + all.take(taken as int) + back,
            decreases items@.len(),
        {
            let next = items.remove(0);
            self.insert(next);
            taken = taken + 1;
            proof {
                assert(items@ =~= all.skip(taken as int));
                assert(self@ =~= front + all.take(taken as int) + back);
            }
        }
        proof {
            assert(all.take(taken as int) =~= all);
            assert(self@ =~= front + all + back);
        }
    }

    /// Remove the element just after the insertion position and return it, or
    /// return `None` if the insertion position is at the end of the buffer.
    pub fn remove(&mut self) -> (r: Option<T>)
        requires
            old(self).wf(),
        ensures
            final(self).wf(),
            final(self).position_spec() == old(self).position_spec(),
            match r {
                Some(e) => {
                    &&& old(self).position_spec() < old(self)@.len()
                    &&& e == old(self)@[old(self).position_spec() as int]
                    &&& final(self)@ == old(self)@.remove(old(self).position_spec() as int)
                },
                None => {
                    &&& old(self).position_spec() == old(self)@.len()
                    &&& final(self)@ == old(self)@
                },
            },
    {
        if self.gap_end == self.storage.len() {
            return None;
        }
        let moved = self.storage[self.gap_end].take();
        self.gap_end = self.gap_end + 1;
        // The slot just after the gap always holds an element.
        match moved {
            Some(e) => {
                proof {
                    assert(self@ =~= old(self)@.remove(old(self).position_spec() as int));
                }
                Some(e)
            },
            None => {
                proof {
                    assert(false);
                }
                None
            },
        }
    }
}

} // verus!
