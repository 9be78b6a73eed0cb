//! Single-producer/single-consumer ring buffer of fixed capacity, used by the
//! serial driver to decouple interrupt context from user writes.
//!
//! The ring loses one slot to distinguish full from empty, so a FIFO created
//! with `size` slots holds at most `size - 1` elements.

use vstd::prelude::*;

use crate::errors::ErrorCode;

verus! {

/// Fixed-capacity FIFO ring over a `Copy` element type.
pub struct FIFO<T: Copy> {
    data: Vec<Option<T>>,
    size: usize,
    head: usize,
    tail: usize,
}

impl<T: Copy> FIFO<T> {
    /// Slot index holding the `i`-th queued element (counting from the head).
    spec fn ring_at(self, i: int) -> int {
        if self.head + i < self.size {
            self.head + i
        } else {
            self.head + i - self.size
        }
    }

    /// Number of elements currently queued.
    spec fn spec_len(self) -> int {
        if self.head <= self.tail {
            self.tail - self.head
        } else {
            self.size - self.head + self.tail
        }
    }

    /// Structural invariant of the ring.
    pub closed spec fn wf(self) -> bool {
        &&& self.size >= 1
        &&& self.data@.len() == self.size
        &&& self.head < self.size
        &&& self.tail < self.size
        &&& forall|i: int|
            0 <= i < self.spec_len() ==> (#[trigger] self.data@[self.ring_at(i)]).is_some()
    }

    /// The queued elements, oldest first.
    pub closed spec fn contents(self) -> Seq<T> {
        Seq::new(self.spec_len() as nat, |i: int| self.data@[self.ring_at(i)].unwrap())
    }

    /// Greatest number of elements the FIFO can hold at once.
    pub closed spec fn capacity(self) -> int {
        self.size - 1
    }

    /// Create a FIFO with `size` slots, holding up to `size - 1` elements.
    pub fn new(size: usize) -> (r: FIFO<T>)
        requires
            size >= 1,
        ensures
            r.wf(),
            r.contents() == Seq::<T>::empty(),
            r.capacity() == size - 1,
    {
        let mut data: Vec<Option<T>> = Vec::new();
        let mut i: usize = 0;
        while i < size
            invariant
                i <= size,
                data@.len() == i,
            decreases size - i,
        {
            data.push(None);
            i = i + 1;
        }
        let r = FIFO { data, size, head: 0, tail: 0 };
        proof {
            assert(r.contents() =~= Seq::<T>::empty());
        }
        r
    }

    /// Current number of elements in the FIFO.
    pub fn len(&self) -> (r: usize)
        requires
            self.wf(),
        ensures
            r == self.contents().len(),
    {
        if self.head <= self.tail {
            self.tail - self.head
        } else {
            self.size - self.head + self.tail
        }
    }

    /// Current number of free element slots in the FIFO.
    pub fn free(&self) -> (r: usize)
        requires
            self.wf(),
        ensures
            r == self.capacity() - self.contents().len(),
    {
        if self.head <= self.tail {
            (self.size - (self.tail - self.head)) - 1
        } else {
            (self.head - self.tail) - 1
        }
    }

    /// Add a new item to the FIFO. If the FIFO is full, the item is dropped
    /// and `NoSpace` is returned.
    pub fn enqueue(&mut self, value: T) -> (r: Result<(), ErrorCode>)
        requires
            old(self).wf(),
        ensures
            final(self).wf(),
            final(self).capacity() == old(self).capacity(),
            old(self).contents().len() == old(self).capacity() ==> {
                &&& r == Result::<(), ErrorCode>::Err(ErrorCode::NoSpace)
                &&& final(self).contents() == old(self).contents()
            },
            old(self).contents().len() < old(self).capacity() ==> {
                &&& r == Result::<(), ErrorCode>::Ok(())
                &&& final(self).contents() == old(self).contents().push(value)
            },
    {
        if self.free() == 0 {
            return Err(ErrorCode::NoSpace);
        }
        let ghost pre = *self;
        self.data.set(self.tail, Some(value));
        self.tail = if self.tail == self.size - 1 {
            0
        } else {
            self.tail + 1
        };
        proof {
            assert forall|i: int| 0 <= i < self.spec_len() implies (#[trigger] self.data@[
                self.ring_at(i)]).is_some() by {
                if i < pre.spec_len() {
                    assert(self.ring_at(i) == pre.ring_at(i));
                } else {
                    assert(self.ring_at(i) == pre.tail);
                }
            }
            assert(self.contents() =~= pre.contents().push(value)) by {
                assert forall|i: int| 0 <= i < self.spec_len() implies self.data@[self.ring_at(
                    i)].unwrap() == pre.contents().push(value)[i] by {
                    if i < pre.spec_len() {
                        assert(self.ring_at(i) == pre.ring_at(i));
                        assert(pre.ring_at(i) != pre.tail);
                    } else {
                        assert(self.ring_at(i) == pre.tail);
                    }
                }
            }
        }
        Ok(())
    }

    /// Remove and return the oldest item from the FIFO, or `None` when empty.
    pub fn dequeue(&mut self) -> (r: Option<T>)
        requires
            old(self).wf(),
        ensures
            final(self).wf(),
            final(self).capacity() == old(self).capacity(),
            old(self).contents().len() == 0 ==> {
                &&& r is None
                &&& final(self).contents() == old(self).contents()
            },
            old(self).contents().len() > 0 ==> {
                &&& r == Some(old(self).contents()[0])
                &&& final(self).contents() == old(self).contents().subrange(
                    1,
                    old(self).contents().len() as int,
                )
            },
    {
        if self.len() == 0 {
            return None;
        }
        let ghost pre = *self;
        proof {
            assert(self.contents().len() > 0);
            assert((self.data@[self.ring_at(0)]).is_some());
            assert(self.ring_at(0) == self.head as int);
        }
        let item = self.data[self.head].unwrap();
        self.head = if self.head == self.size - 1 {
            0
        } else {
            self.head + 1
        };
        proof {
            assert forall|i: int| 0 <= i < self.spec_len() implies (#[trigger] self.data@[
                self.ring_at(i)]).is_some() by {
                assert(self.ring_at(i) == pre.ring_at(i + 1));
            }
            assert(self.contents() =~= pre.contents().subrange(1, pre.contents().len() as int))
                by {
                assert forall|i: int| 0 <= i < self.spec_len() implies self.data@[self.ring_at(
                    i)].unwrap() == pre.contents()[i + 1] by {
                    assert(self.ring_at(i) == pre.ring_at(i + 1));
                }
            }
            assert(item == pre.contents()[0]);
        }
        Some(item)
    }
}

/// A well-formed FIFO never holds more than its capacity.
pub proof fn lemma_fifo_len_bound<T: Copy>(f: FIFO<T>)
    requires
        f.wf(),
    ensures
        f.contents().len() <= f.capacity(),
{
}

/// The contents of a FIFO after enqueuing every element of `items`, in order,
/// starting from contents `s` (assuming no enqueue is refused).
pub open spec fn seq_push_all<T>(s: Seq<T>, items: Seq<T>) -> Seq<T>
    decreases items.len(),
{
    if items.len() == 0 {
        s
    } else {
        seq_push_all(s.push(items.first()), items.drop_first())
    }
}

/// FIFO-order law: enqueuing the elements of `items` into an empty FIFO whose
/// capacity is at least `items.len()` (so that no enqueue is refused, per
/// `enqueue`'s contract) leaves exactly `items` queued, and by `dequeue`'s
/// contract the `i`-th dequeue then returns `items[i]`: the elements come
/// back out in the order they went in.
pub proof fn lemma_fifo_order<T>(items: Seq<T>)
    ensures
        seq_push_all(Seq::<T>::empty(), items) == items,
        forall|i: int|
            0 <= i < items.len() ==> #[trigger] items.subrange(i, items.len() as int)[0]
                == items[i],
{
    lemma_seq_push_all(Seq::<T>::empty(), items);
    assert(seq_push_all(Seq::<T>::empty(), items) =~= items);
}

proof fn lemma_seq_push_all<T>(s: Seq<T>, items: Seq<T>)
    ensures
        seq_push_all(s, items) == s + items,
    decreases items.len(),
{
    if items.len() == 0 {
        assert(seq_push_all(s, items) =~= s + items);
    } else {
        lemma_seq_push_all(s.push(items.first()), items.drop_first());
        assert(s.push(items.first()) + items.drop_first() =~= s + items);
    }
}

} // verus!
