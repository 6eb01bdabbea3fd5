//! Fixed-capacity containers used by the per-frame search state.

use vstd::prelude::*;
use vstd::seq_lib::*;
use vstd::set_lib::*;

verus! {

/// A sequence of bytes without duplicates has at most 256 elements.
pub proof fn lemma_no_dup_u8_len(s: Seq<u8>)
    requires
        s.no_duplicates(),
    ensures
        s.len() <= 256,
{
    broadcast use vstd::seq_lib::group_seq_properties;
    broadcast use vstd::set_lib::group_set_lib_default;
    broadcast use vstd::set::group_set_axioms;

    let si = s.map_values(|x: u8| x as int);
    assert(si.no_duplicates()) by {
        assert forall|i: int, j: int|
            0 <= i < si.len() && 0 <= j < si.len() && i != j implies si[i] != si[j] by {
            assert(s[i] != s[j]);
        }
    }
    si.unique_seq_to_set();
    let range = set_int_range(0, 256);
    lemma_int_range(0, 256);
    assert(si.to_set().subset_of(range)) by {
        assert forall|x: int| si.to_set().contains(x) implies range.contains(x) by {
            let i = choose|i: int| 0 <= i < si.len() && si[i] == x;
            assert(0 <= s[i] < 256);
        }
    }
    lemma_len_subset(si.to_set(), range);
}

/// A sequence of 16-bit words without duplicates has at most 65536
/// elements.
pub proof fn lemma_no_dup_u16_len(s: Seq<u16>)
    requires
        s.no_duplicates(),
    ensures
        s.len() <= 0x10000,
{
    broadcast use vstd::seq_lib::group_seq_properties;
    broadcast use vstd::set_lib::group_set_lib_default;
    broadcast use vstd::set::group_set_axioms;

    let si = s.map_values(|x: u16| x as int);
    assert(si.no_duplicates()) by {
        assert forall|i: int, j: int|
            0 <= i < si.len() && 0 <= j < si.len() && i != j implies si[i] != si[j] by {
            assert(s[i] != s[j]);
        }
    }
    si.unique_seq_to_set();
    let range = set_int_range(0, 0x10000);
    lemma_int_range(0, 0x10000);
    assert(si.to_set().subset_of(range)) by {
        assert forall|x: int| si.to_set().contains(x) implies range.contains(x) by {
            let i = choose|i: int| 0 <= i < si.len() && si[i] == x;
            assert(0 <= s[i] < 0x10000);
        }
    }
    lemma_len_subset(si.to_set(), range);
}

/// A flat single-producer, single-consumer queue: elements are pushed
/// at the tail and read at the head, and the cursors only move forward
/// until `reset`.  A push to a full queue is dropped.
pub struct ArrayDeque<T> {
    head: usize,
    tail: usize,
    elements: Vec<T>,
}

impl<T: Copy> ArrayDeque<T> {
    /// The elements pushed and not yet popped, head first.
    pub closed spec fn view(self) -> Seq<T> {
        self.elements@.subrange(self.head as int, self.tail as int)
    }

    /// Total capacity of the backing storage.
    pub closed spec fn spec_capacity(self) -> int {
        self.elements@.len() as int
    }

    /// Slots still usable for pushes before the queue must be reset.
    pub closed spec fn spec_room(self) -> int {
        self.elements@.len() - self.tail
    }

    pub closed spec fn wf(self) -> bool {
        self.head <= self.tail <= self.elements@.len()
    }

    /// An empty queue whose storage holds `capacity` elements, each
    /// slot carrying `fill` until overwritten.
    pub fn new(capacity: usize, fill: T) -> (r: ArrayDeque<T>)
        ensures
            r.wf(),
            r.view() == Seq::<T>::empty(),
            r.spec_capacity() == capacity,
            r.spec_room() == capacity,
    {
        let mut elements: Vec<T> = Vec::new();
        let mut n: usize = 0;
        while n < capacity
            invariant
                n == elements@.len(),
                n <= capacity,
            decreases capacity - n,
        {
            elements.push(fill);
            n = n + 1;
        }
        let r = ArrayDeque { head: 0, tail: 0, elements };
        proof {
            assert(r.view() =~= Seq::<T>::empty());
        }
        r
    }

    /// Appends `value` at the tail; a push with no room left is
    /// dropped.
    pub fn push(&mut self, value: T)
        requires
            old(self).wf(),
        ensures
            final(self).wf(),
            final(self).spec_capacity() == old(self).spec_capacity(),
            old(self).spec_room() > 0 ==> final(self).view() == old(self).view().push(value)
                && final(self).spec_room() == old(self).spec_room() - 1,
            old(self).spec_room() == 0 ==> *final(self) == *old(self),
    {
        if self.tail < self.elements.len() {
            self.elements.set(self.tail, value);
            self.tail = self.tail + 1;
            proof {
                assert(self.view() =~= old(self).view().push(value));
            }
        }
    }

    /// Appends `value` at the tail only when `cond` holds.
    pub fn push_conditionally(&mut self, value: T, cond: bool)
        requires
            old(self).wf(),
        ensures
            final(self).wf(),
            final(self).spec_capacity() == old(self).spec_capacity(),
            cond && old(self).spec_room() > 0 ==> final(self).view() == old(self).view().push(
                value,
            ) && final(self).spec_room() == old(self).spec_room() - 1,
            cond && old(self).spec_room() == 0 ==> *final(self) == *old(self),
            !cond ==> *final(self) == *old(self),
    {
        if cond {
            self.push(value);
        }
    }

    /// Removes and returns the element at the head, if any.
    pub fn pop(&mut self) -> (r: Option<T>)
        requires
            old(self).wf(),
        ensures
            final(self).wf(),
            final(self).spec_capacity() == old(self).spec_capacity(),
            final(self).spec_room() == old(self).spec_room(),
            r is Some <==> old(self).view().len() > 0,
            r is Some ==> r->0 == old(self).view()[0] && final(self).view() == old(
                self,
            ).view().drop_first(),
            r is None ==> *final(self) == *old(self),
    {
        if self.head == self.tail {
            None
        } else {
            let value = self.elements[self.head];
            self.head = self.head + 1;
            proof {
                assert(self.view() =~= old(self).view().drop_first());
            }
            Some(value)
        }
    }

    /// Moves both cursors back to the start, making the whole storage
    /// usable again.
    pub fn reset(&mut self)
        requires
            old(self).wf(),
        ensures
            final(self).wf(),
            final(self).spec_capacity() == old(self).spec_capacity(),
            final(self).view() == Seq::<T>::empty(),
            final(self).spec_room() == final(self).spec_capacity(),
    {
        self.head = 0;
        self.tail = 0;
        proof {
            assert(self.view() =~= Seq::<T>::empty());
        }
    }

    /// A well-formed queue has non-negative room within its capacity.
    pub proof fn lemma_room_nonneg(self)
        requires
            self.wf(),
        ensures
            0 <= self.spec_room() <= self.spec_capacity(),
            self.view().len() <= self.spec_capacity(),
    {
    }

    /// Whether a push would be kept rather than dropped.
    pub fn has_room(&self) -> (r: bool)
        requires
            self.wf(),
        ensures
            r == (self.spec_room() > 0),
    {
        self.tail < self.elements.len()
    }

    /// Whether no element is waiting between the cursors.
    pub fn is_empty(&self) -> (r: bool)
        requires
            self.wf(),
        ensures
            r == (self.view().len() == 0),
    {
        self.head == self.tail
    }
}

/// A growable list bounded by a fixed capacity.
pub struct CInlineVec<T> {
    data: Vec<T>,
    capacity: usize,
}

impl<T> CInlineVec<T> {
    /// The stored elements, oldest first.
    pub closed spec fn view(self) -> Seq<T> {
        self.data@
    }

    /// The fixed bound on the element count.
    pub closed spec fn spec_capacity(self) -> int {
        self.capacity as int
    }

    pub open spec fn wf(self) -> bool {
        self.view().len() <= self.spec_capacity()
    }

    /// An empty list bounded by `capacity` elements.
    pub fn new(capacity: usize) -> (r: CInlineVec<T>)
        ensures
            r.wf(),
            r.view() == Seq::<T>::empty(),
            r.spec_capacity() == capacity,
    {
        CInlineVec { data: Vec::new(), capacity }
    }

    /// Appends `value`.
    pub fn push(&mut self, value: T)
        requires
            old(self).wf(),
            old(self).view().len() < old(self).spec_capacity(),
        ensures
            final(self).wf(),
            final(self).spec_capacity() == old(self).spec_capacity(),
            final(self).view() == old(self).view().push(value),
    {
        self.data.push(value);
    }

    /// Appends `value` only when `cond` holds.
    pub fn push_conditionally(&mut self, value: T, cond: bool)
        requires
            old(self).wf(),
            cond ==> old(self).view().len() < old(self).spec_capacity(),
        ensures
            final(self).wf(),
            final(self).spec_capacity() == old(self).spec_capacity(),
            cond ==> final(self).view() == old(self).view().push(value),
            !cond ==> *final(self) == *old(self),
    {
        if cond {
            self.data.push(value);
        }
    }

    /// Removes every element.
    pub fn clear(&mut self)
        requires
            old(self).wf(),
        ensures
            final(self).wf(),
            final(self).spec_capacity() == old(self).spec_capacity(),
            final(self).view() == Seq::<T>::empty(),
    {
        self.data.clear();
    }

    /// Whether the list holds no element.
    pub fn is_empty(&self) -> (r: bool)
        ensures
            r == (self.view().len() == 0),
    {
        self.data.len() == 0
    }

    /// The number of stored elements.
    pub fn element_count(&self) -> (r: usize)
        ensures
            r == self.view().len(),
    {
        self.data.len()
    }

    /// Removes and returns the most recently pushed element.
    pub fn pop(&mut self) -> (r: T)
        requires
            old(self).wf(),
            old(self).view().len() > 0,
        ensures
            final(self).wf(),
            final(self).spec_capacity() == old(self).spec_capacity(),
            r == old(self).view().last(),
            final(self).view() == old(self).view().drop_last(),
    {
        let r = self.data.pop().unwrap();
        r
    }

    /// The stored elements as a slice.
    pub fn get_slice(&self) -> (r: &[T])
        ensures
            r@ == self.view(),
    {
        self.data.as_slice()
    }
}

} // verus!
