//! A fixed-capacity circular buffer (ring buffer) with verified FIFO
//! semantics.
//!
//! A [`RingBuffer`] owns `SIZE` slots of a single element type and tracks a
//! logical window of valid elements with two indices.  Insertion offers two
//! policies over the same index arithmetic: overwrite-oldest and
//! reject-when-full.  Removal, peeking, bulk draining and two traversal
//! shapes are all derived from the same window state.

use vstd::math::min;
use vstd::prelude::*;
use vstd::slice::SliceAdditionalExecFns;

mod laws;

pub use laws::drained_values;
pub use laws::inserted_all;
pub use laws::lemma_bulk_drain_equivalence;
pub use laws::lemma_fifo_order;
pub use laws::lemma_traversal_consistency;
pub use laws::remaining_after;

verus! {

/// A `RingBuffer` holds up to `SIZE` elements of type `T`.
///
/// The logical window of valid elements starts at slot `oldest` and wraps
/// around the fixed backing array; slots outside the window hold stale values
/// that are never read through the public operations.
pub struct RingBuffer<T, const SIZE: usize> {
    data: [T; SIZE],
    oldest: usize,
    num_elems: usize,
}

/// Errors while handling a `RingBuffer`.
#[derive(Debug, Clone, Copy, PartialEq, Eq, Structural)]
pub enum Error {
    /// The buffer is full.
    BufferFull,
}

impl<T, const SIZE: usize> RingBuffer<T, SIZE> {
    /// Physical slot holding the `i`-th element of the logical window,
    /// counting from the oldest element.
    spec fn slot(&self, i: int) -> int {
        if self.oldest as int + i < SIZE as int {
            self.oldest as int + i
        } else {
            self.oldest as int + i - SIZE as int
        }
    }

    /// Well-formedness: the capacity is non-zero and the window indices stay
    /// inside the backing array.  Established by construction and preserved
    /// by every operation.
    pub closed spec fn wf(&self) -> bool {
        &&& 0 < SIZE
        &&& self.oldest < SIZE
        &&& self.num_elems <= SIZE
    }
}

impl<T, const SIZE: usize> View for RingBuffer<T, SIZE> {
    type V = Seq<T>;

    /// The abstract value of the buffer: the elements of the logical window,
    /// oldest first.
    closed spec fn view(&self) -> Seq<T> {
        Seq::new(self.num_elems as nat, |i: int| self.data@[self.slot(i)])
    }
}

impl<T: Default + Copy, const SIZE: usize> Default for RingBuffer<T, SIZE> {
    /// An empty buffer; every backing slot is filled with the element type's
    /// default value.
    fn default() -> (result: Self)
        ensures
            result@ == Seq::<T>::empty(),
            SIZE >= 1 ==> result.wf(),
    {
        let result = RingBuffer { data: [T::default(); SIZE], oldest: 0, num_elems: 0 };
        proof {
            assert(result@ =~= Seq::<T>::empty());
        }
        result
    }
}

impl<T: Default + Copy, const SIZE: usize> RingBuffer<T, SIZE> {
    /// Make a new, empty `RingBuffer`.
    ///
    /// A zero-capacity buffer is a degenerate configuration on which the
    /// window arithmetic is undefined, so it is excluded by construction.
    pub fn new() -> (result: Self)
        requires
            SIZE >= 1,
        ensures
            result.wf(),
            result@ == Seq::<T>::empty(),
    {
        Default::default()
    }

    /// How many elements are in the buffer?
    pub fn len(&self) -> (n: usize)
        ensures
            n == self@.len(),
    {
        self.num_elems
    }

    /// Is the buffer empty?
    pub fn is_empty(&self) -> (empty: bool)
        ensures
            empty <==> self@.len() == 0,
    {
        self.len() == 0
    }

    /// Is the buffer full?
    pub fn is_full(&self) -> (full: bool)
        ensures
            full <==> self@.len() == SIZE as nat,
    {
        self.len() == SIZE
    }

    /// The physical slot that the next insertion writes: one past the newest
    /// element of the window, wrapped around the backing array.  Both
    /// insertion policies share this computation.
    fn target_slot(&self) -> (index: usize)
        requires
            self.wf(),
        ensures
            index as int == self.slot(self.num_elems as int),
            index < SIZE,
    {
        // (oldest + num_elems) reduced modulo SIZE, without overflow
        let wrap_at = SIZE - self.oldest;
        if self.num_elems >= wrap_at {
            self.num_elems - wrap_at
        } else {
            self.oldest + self.num_elems
        }
    }

    /// Push an element onto the buffer.  If the buffer is full, the oldest
    /// element is evicted and returned; this operation never fails.
    pub fn push_overwrite(&mut self, elem: T) -> (evicted: Option<T>)
        requires
            old(self).wf(),
        ensures
            final(self).wf(),
            old(self)@.len() < SIZE ==> evicted is None && final(self)@ == old(self)@.push(elem),
            old(self)@.len() == SIZE ==> evicted == Some(old(self)@[0])
                && final(self)@ == old(self)@.drop_first().push(elem),
            final(self)@.len() == if old(self)@.len() < SIZE {
                old(self)@.len() + 1
            } else {
                old(self)@.len()
            },
    {
        let index = self.target_slot();
        if self.is_full() {
            let ghost prev = *self;
            let evicted_elem = self.data[self.oldest];
            self.oldest = if self.oldest + 1 == SIZE {
                0
            } else {
                self.oldest + 1
            };
            self.data[index] = elem;
            proof {
                assert forall|i: int| 0 <= i < SIZE as int implies self@[i] == prev@.drop_first()
                    .push(elem)[i] by {
                    assert(self.slot(i) == prev.slot(i + 1));
                }
                assert(self@ =~= prev@.drop_first().push(elem));
            }
            Some(evicted_elem)
        } else {
            let ghost prev = *self;
            self.data[index] = elem;
            self.num_elems = self.num_elems + 1;
            proof {
                assert forall|i: int| 0 <= i < prev.num_elems as int implies self@[i]
                    == prev@[i] by {
                    assert(self.slot(i) != self.slot(prev.num_elems as int));
                }
                assert(self@ =~= prev@.push(elem));
            }
            None
        }
    }

    /// Push an element onto the buffer, unless the buffer is full: a full
    /// buffer rejects the insertion and is left completely unmodified.
    pub fn push_unless_full(&mut self, elem: T) -> (result: Result<(), Error>)
        requires
            old(self).wf(),
        ensures
            final(self).wf(),
            old(self)@.len() < SIZE ==> result is Ok && final(self)@ == old(self)@.push(elem),
            old(self)@.len() == SIZE ==> result == Err::<(), Error>(Error::BufferFull)
                && *final(self) == *old(self),
    {
        if self.is_full() {
            return Err(Error::BufferFull);
        }
        let ghost prev = *self;
        let index = self.target_slot();
        self.data[index] = elem;
        self.num_elems = self.num_elems + 1;
        proof {
            assert forall|i: int| 0 <= i < prev.num_elems as int implies self@[i] == prev@[i] by {
                assert(self.slot(i) != self.slot(prev.num_elems as int));
            }
            assert(self@ =~= prev@.push(elem));
        }
        Ok(())
    }

    /// Pop the oldest element off the buffer.  If the buffer is empty, then
    /// `None` is returned and nothing is mutated.
    pub fn pop(&mut self) -> (popped: Option<T>)
        requires
            old(self).wf(),
        ensures
            final(self).wf(),
            old(self)@.len() == 0 ==> popped is None && *final(self) == *old(self),
            old(self)@.len() > 0 ==> popped == Some(old(self)@[0])
                && final(self)@ == old(self)@.drop_first(),
    {
        if self.is_empty() {
            return None;
        }
        let ghost prev = *self;
        let elem = self.data[self.oldest];
        self.oldest = if self.oldest + 1 == SIZE {
            0
        } else {
            self.oldest + 1
        };
        self.num_elems = self.num_elems - 1;
        proof {
            assert forall|i: int| 0 <= i < self.num_elems as int implies self@[i]
                == prev@.drop_first()[i] by {
                assert(self.slot(i) == prev.slot(i + 1));
            }
            assert(self@ =~= prev@.drop_first());
        }
        Some(elem)
    }

    /// Peek at the oldest element of the buffer — the one that `pop` would
    /// return — without mutating anything.  `None` if the buffer is empty.
    pub fn peek(&self) -> (head: Option<&T>)
        requires
            self.wf(),
        ensures
            self@.len() == 0 ==> head is None,
            self@.len() > 0 ==> (head matches Some(elem) && *elem == self@[0]),
    {
        if self.is_empty() {
            return None;
        }
        let elem = &self.data[self.oldest];
        Some(elem)
    }

    /// Pop elements off the buffer into `buf`, oldest first, until either
    /// the buffer or `buf` is exhausted: `min(len, buf.len())` elements are
    /// removed and copied, slots of `buf` beyond that count are untouched,
    /// and the number of elements copied is returned.
    pub fn pop_many(&mut self, buf: &mut [T]) -> (count: usize)
        requires
            old(self).wf(),
        ensures
            final(self).wf(),
            count as int == min(old(self)@.len() as int, old(buf)@.len() as int),
            final(self)@ == old(self)@.skip(count as int),
            final(buf)@ == old(self)@.take(count as int) + old(buf)@.skip(count as int),
    {
        let count = if self.len() < buf.len() {
            self.len()
        } else {
            buf.len()
        };
        let mut copied: usize = 0;
        while copied < count
            invariant
                self.wf(),
                copied <= count,
                count as int == min(old(self)@.len() as int, old(buf)@.len() as int),
                count <= old(buf)@.len(),
                self@ == old(self)@.skip(copied as int),
                buf@.len() == old(buf)@.len(),
                forall|j: int| 0 <= j < copied as int ==> buf@[j] == old(self)@[j],
                forall|j: int| copied as int <= j < buf@.len() ==> buf@[j] == old(buf)@[j],
            decreases count - copied,
        {
            let ghost prev_window = self@;
            let elem = self.pop().unwrap();
            proof {
                assert(prev_window[0] == old(self)@[copied as int]);
                assert(prev_window.drop_first() =~= old(self)@.skip(copied as int + 1));
            }
            buf.set(copied, elem);
            copied = copied + 1;
        }
        proof {
            assert(buf@ =~= old(self)@.take(count as int) + old(buf)@.skip(count as int));
        }
        count
    }

    /// The length of the window never exceeds the capacity.
    pub proof fn lemma_capacity_invariant(&self)
        requires
            self.wf(),
        ensures
            0 <= self@.len() <= SIZE as nat,
    {
    }

    /// Turn the buffer into a consuming traversal that removes and yields
    /// the elements of the window, oldest first.
    pub fn into_iter(self) -> (it: ConsumingIntoIteratorRingbuffer<T, SIZE>)
        requires
            self.wf(),
        ensures
            it.wf(),
            it@ == self@,
    {
        ConsumingIntoIteratorRingbuffer { buffer: self }
    }

    /// Make a borrowing traversal over the window: a read-only cursor that
    /// starts at the window's current head and yields references to the
    /// elements, oldest first, without mutating the buffer.
    pub fn iter(&self) -> (it: IntoIteratorRingbuffer<'_, T, SIZE>)
        requires
            self.wf(),
        ensures
            it.wf(),
            it@ == self@,
    {
        let it = IntoIteratorRingbuffer { buffer: self, current: 0 };
        proof {
            assert(it@ =~= self@);
        }
        it
    }
}

/// A consuming traversal over a `RingBuffer`: owns the buffer and drains it,
/// oldest first.
pub struct ConsumingIntoIteratorRingbuffer<T, const SIZE: usize> {
    buffer: RingBuffer<T, SIZE>,
}

impl<T, const SIZE: usize> ConsumingIntoIteratorRingbuffer<T, SIZE> {
    /// Well-formedness, inherited from the drained buffer.
    pub closed spec fn wf(&self) -> bool {
        self.buffer.wf()
    }
}

impl<T, const SIZE: usize> View for ConsumingIntoIteratorRingbuffer<T, SIZE> {
    type V = Seq<T>;

    /// The elements this traversal has yet to yield, in yield order.
    closed spec fn view(&self) -> Seq<T> {
        self.buffer@
    }
}

impl<T: Default + Copy, const SIZE: usize> ConsumingIntoIteratorRingbuffer<T, SIZE> {
    /// Remove and yield the oldest remaining element; `None`, now and on
    /// every later call, once the buffer is drained.
    pub fn next(&mut self) -> (item: Option<T>)
        requires
            old(self).wf(),
        ensures
            final(self).wf(),
            old(self)@.len() == 0 ==> item is None && *final(self) == *old(self),
            old(self)@.len() > 0 ==> item == Some(old(self)@[0])
                && final(self)@ == old(self)@.drop_first(),
    {
        self.buffer.pop()
    }
}

/// A borrowing traversal over a `RingBuffer`: a cursor into the logical
/// window, independent of the buffer's own indices, yielding references
/// oldest first.
pub struct IntoIteratorRingbuffer<'a, T, const SIZE: usize> {
    buffer: &'a RingBuffer<T, SIZE>,
    current: usize,
}

impl<'a, T, const SIZE: usize> IntoIteratorRingbuffer<'a, T, SIZE> {
    /// Well-formedness: the buffer is well-formed and the cursor has not
    /// run past the window.
    pub closed spec fn wf(&self) -> bool {
        &&& self.buffer.wf()
        &&& self.current as nat <= self.buffer@.len()
    }
}

impl<'a, T, const SIZE: usize> View for IntoIteratorRingbuffer<'a, T, SIZE> {
    type V = Seq<T>;

    /// The elements this traversal has yet to yield, in yield order.
    closed spec fn view(&self) -> Seq<T> {
        self.buffer@.skip(self.current as int)
    }
}

impl<'a, T: Default + Copy, const SIZE: usize> IntoIteratorRingbuffer<'a, T, SIZE> {
    /// Yield a reference to the next element of the window; `None`, now and
    /// on every later call, once the cursor has passed the newest element.
    pub fn next(&mut self) -> (item: Option<&'a T>)
        requires
            old(self).wf(),
        ensures
            final(self).wf(),
            old(self)@.len() == 0 ==> item is None && *final(self) == *old(self),
            old(self)@.len() > 0 ==> (item matches Some(elem) && *elem == old(self)@[0])
                && final(self)@ == old(self)@.drop_first(),
    {
        if self.current < self.buffer.num_elems {
            let ghost prev = *self;
            // self.current reduced around the wrap of the window, without overflow
            let wrap_at = SIZE - self.buffer.oldest;
            let index = if self.current >= wrap_at {
                self.current - wrap_at
            } else {
                self.buffer.oldest + self.current
            };
            let elem = &self.buffer.data[index];
            self.current = self.current + 1;
            proof {
                assert(index as int == self.buffer.slot(prev.current as int));
                assert(*elem == self.buffer@[prev.current as int]);
                assert(self@ =~= prev@.drop_first());
            }
            Some(elem)
        } else {
            None
        }
    }
}

} // verus!
