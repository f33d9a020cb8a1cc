use vstd::prelude::*;

verus! {

use crate::model::{apply_op, Op};

/// Error returned by `push` against a saturated buffer.
/// It carries the rejected value back to the caller, so nothing is dropped silently.
#[derive(Debug)]
pub struct Full<T>(pub T);

/// Error returned by `pop` against a buffer with no occupied slots.
#[derive(Clone, Copy, Debug, PartialEq, Eq, Structural)]
pub struct Empty;

/// A bounded first-in first-out queue over storage of a capacity fixed at
/// construction. The occupied slots are the `count` contiguous slots
/// (wrapping at the capacity) that start at `head`; all state is integer
/// indices, so the whole value can be relocated freely.
pub struct RingBuffer<T> {
    storage: Vec<Option<T>>,
    head: usize,
    count: usize,
}

impl<T> RingBuffer<T> {
    /// The fixed capacity: the number of slots chosen at construction.
    pub closed spec fn cap(self) -> nat {
        self.storage@.len()
    }

    /// Physical index of the logical position `i` past `head`, wrapping at
    /// the capacity. Meaningful for `0 <= i <= cap()`.
    closed spec fn slot(self, i: int) -> int {
        if self.head + i < self.cap() {
            self.head + i
        } else {
            self.head + i - self.cap()
        }
    }

    /// Well-formed: the capacity is positive, `head` and `count` are in
    /// range, exactly the `count` slots starting at `head` (wrapping) are
    /// occupied, and every other slot is vacant.
    pub closed spec fn wf(self) -> bool {
        &&& 0 < self.storage@.len()
        &&& self.head < self.storage@.len()
        &&& self.count <= self.storage@.len()
        &&& forall|i: int|
            0 <= i < self.count ==> self.storage@[#[trigger] self.slot(i)] is Some
        &&& forall|i: int|
            self.count <= i < self.storage@.len() ==> self.storage@[#[trigger] self.slot(i)] is None
    }
}

impl<T> View for RingBuffer<T> {
    type V = Seq<T>;

    /// The queue contents, oldest first.
    closed spec fn view(&self) -> Seq<T> {
        Seq::new(self.count as nat, |i: int| self.storage@[self.slot(i)]->Some_0)
    }
}

impl<T> RingBuffer<T> {
    /// Creates an empty buffer with `capacity` slots, all vacant.
    /// A zero capacity is statically ruled out: it could only ever be both
    /// full and empty at once.
    pub fn new(capacity: usize) -> (r: RingBuffer<T>)
        requires
            0 < capacity,
        ensures
            r.wf(),
            r.cap() == capacity,
            r@ == Seq::<T>::empty(),
    {
        let mut storage: Vec<Option<T>> = Vec::new();
        while storage.len() < capacity
            invariant
                storage@.len() <= capacity,
                forall|j: int| 0 <= j < storage@.len() ==> storage@[j] is None,
            decreases capacity - storage@.len(),
        {
            storage.push(None);
        }
        let r = RingBuffer { storage, head: 0, count: 0 };
        proof {
            assert forall|i: int| 0 <= i < r.storage@.len() implies r.storage@[#[trigger] r.slot(i)]
                is None by {
                assert(r.slot(i) == i);
            }
            assert(r@ =~= Seq::<T>::empty());
        }
        r
    }

    /// The number of occupied slots.
    pub fn len(&self) -> (r: usize)
        ensures
            r == self@.len(),
    {
        self.count
    }

    /// The fixed capacity.
    pub fn capacity(&self) -> (r: usize)
        ensures
            r == self.cap(),
    {
        self.storage.len()
    }

    /// Whether no slot is occupied.
    pub fn is_empty(&self) -> (r: bool)
        ensures
            r == (self@.len() == 0),
    {
        self.count == 0
    }

    /// Whether every slot is occupied, so the next push would be refused.
    pub fn is_full(&self) -> (r: bool)
        ensures
            r == (self@.len() == self.cap()),
    {
        self.count == self.storage.len()
    }

    /// Synonym of [`Self::is_full`].
    pub fn full(&self) -> (r: bool)
        ensures
            r == (self@.len() == self.cap()),
    {
        self.is_full()
    }

    /// Appends `value` behind the newest element. Against a saturated buffer
    /// it fails with `Full`, hands `value` back inside the error, and leaves
    /// the buffer exactly as it was.
    pub fn push(&mut self, value: T) -> (r: Result<(), Full<T>>)
        requires
            old(self).wf(),
        ensures
            final(self).wf(),
            final(self).cap() == old(self).cap(),
            final(self)@ == apply_op(old(self)@, old(self).cap(), Op::Push(value)),
            r is Ok <==> old(self)@.len() < old(self).cap(),
            r matches Err(f) ==> f.0 == value && *final(self) == *old(self),
    {
        let cap: usize = self.storage.len();
        if self.count == cap {
            return Err(Full(value));
        }
        let tail: usize = if self.head < cap - self.count {
            self.head + self.count
        } else {
            self.head - (cap - self.count)
        };
        self.storage[tail] = Some(value);
        self.count = self.count + 1;
        proof {
            let prev = *old(self);
            assert(prev.slot(prev.count as int) == tail);
            assert forall|i: int| 0 <= i < self.count implies self.storage@[#[trigger] self.slot(
                i,
            )] is Some by {
                assert(self.slot(i) == prev.slot(i));
                if i < prev.count {
                    assert(prev.storage@[prev.slot(i)] is Some);
                    assert(prev.slot(i) != tail);
                }
            }
            assert forall|i: int|
                self.count <= i < self.storage@.len() implies self.storage@[#[trigger] self.slot(
                i,
            )] is None by {
                assert(self.slot(i) == prev.slot(i));
                assert(prev.storage@[prev.slot(i)] is None);
                assert(prev.slot(i) != tail);
            }
            assert forall|i: int| 0 <= i < prev.count implies self@[i] == prev@[i] by {
                assert(prev.slot(i) != tail);
            }
            assert(self@[prev.count as int] == value);
            assert(self@ =~= prev@.push(value));
        }
        Ok(())
    }

    /// Removes and returns the oldest element, transferring its ownership to
    /// the caller and leaving its slot vacant. Against an empty buffer it
    /// fails with `Empty` and leaves the buffer exactly as it was.
    pub fn pop(&mut self) -> (r: Result<T, Empty>)
        requires
            old(self).wf(),
        ensures
            final(self).wf(),
            final(self).cap() == old(self).cap(),
            final(self)@ == apply_op(old(self)@, old(self).cap(), Op::<T>::Pop),
            r is Ok <==> old(self)@.len() > 0,
            r matches Ok(v) ==> v == old(self)@[0],
            r is Err ==> *final(self) == *old(self),
    {
        if self.count == 0 {
            return Err(Empty);
        }
        let cap: usize = self.storage.len();
        let head: usize = self.head;
        proof {
            assert(old(self).slot(0) == head);
            assert(self.storage@[head as int] is Some);
        }
        let taken: Option<T> = self.storage[head].take();
        self.head = if head + 1 == cap {
            0
        } else {
            head + 1
        };
        self.count = self.count - 1;
        proof {
            let prev = *old(self);
            assert(self.storage@ =~= prev.storage@.update(head as int, None));
            assert forall|i: int| 0 <= i < self.count implies self.storage@[#[trigger] self.slot(
                i,
            )] is Some by {
                assert(self.slot(i) == prev.slot(i + 1));
                assert(prev.storage@[prev.slot(i + 1)] is Some);
                assert(prev.slot(i + 1) != prev.slot(0));
            }
            assert forall|i: int|
                self.count <= i < self.storage@.len() implies self.storage@[#[trigger] self.slot(
                i,
            )] is None by {
                assert(self.slot(i) == prev.slot(i + 1));
                if i == self.storage@.len() - 1 {
                    assert(self.slot(i) == head);
                } else {
                    assert(prev.storage@[prev.slot(i + 1)] is None);
                    assert(prev.slot(i + 1) != prev.slot(0));
                }
            }
            assert forall|i: int| 0 <= i < self.count implies self@[i] == prev@[i + 1] by {
                assert(self.slot(i) == prev.slot(i + 1));
                assert(prev.slot(i + 1) != prev.slot(0));
            }
            assert(self@ =~= prev@.drop_first());
            assert(taken == prev.storage@[prev.slot(0)]);
        }
        match taken {
            Some(v) => Ok(v),
            None => {
                proof {
                    assert(false);
                }
                Err(Empty)
            },
        }
    }

    /// Returns a reference to the oldest element without removing it, or
    /// `None` when the buffer is empty.
    pub fn peek(&self) -> (r: Option<&T>)
        requires
            self.wf(),
        ensures
            self@.len() == 0 ==> r is None,
            self@.len() > 0 ==> (r matches Some(v) && *v == self@[0]),
    {
        if self.count == 0 {
            return None;
        }
        proof {
            assert(self.slot(0) == self.head);
            assert(self.storage@[self.head as int] is Some);
        }
        match &self.storage[self.head] {
            Some(v) => Some(v),
            None => {
                proof {
                    assert(false);
                }
                None
            },
        }
    }
}

/// Occupancy accounting: a well-formed buffer never stores fewer than zero
/// or more than `cap()` elements, so the free room `cap() - len` is well
/// defined and the stored count plus the free room is exactly the capacity.
pub proof fn lemma_occupancy<T>(rb: &RingBuffer<T>)
    requires
        rb.wf(),
    ensures
        0 <= rb@.len() <= rb.cap(),
        rb@.len() + (rb.cap() - rb@.len()) == rb.cap(),
{
}

/// Builds a three-slot buffer holding `10` then `11` and hands it back by
/// value. The return is a relocation of the whole structure; because the
/// state is indices into owned storage, the contents and the invariant
/// survive the move, as the contract states.
pub fn make() -> (r: RingBuffer<u32>)
    ensures
        r.wf(),
        r.cap() == 3,
        r@ == seq![10u32, 11u32],
{
    let mut r = RingBuffer::<u32>::new(3);
    let _ = r.push(10);
    let _ = r.push(11);
    proof {
        assert(r@ =~= seq![10u32, 11u32]);
    }
    r
}

} // verus!
