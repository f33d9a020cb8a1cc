use vstd::prelude::*;

verus! {

/// One operation on a bounded queue.
pub enum Op<T> {
    Push(T),
    Pop,
}

/// The queue contents after one operation on contents `s` under capacity
/// `cap`: a push appends at the back when there is room and otherwise leaves
/// the queue unchanged; a pop removes the front element when there is one and
/// otherwise leaves the queue unchanged. `RingBuffer::push` and
/// `RingBuffer::pop` ensure that they step their contents exactly this way.
pub open spec fn apply_op<T>(s: Seq<T>, cap: nat, op: Op<T>) -> Seq<T> {
    match op {
        Op::Push(v) => if s.len() < cap {
            s.push(v)
        } else {
            s
        },
        Op::Pop => if s.len() == 0 {
            s
        } else {
            s.drop_first()
        },
    }
}

/// The queue contents after a whole sequence of operations, applied in order.
pub open spec fn apply_ops<T>(s: Seq<T>, cap: nat, ops: Seq<Op<T>>) -> Seq<T>
    decreases ops.len(),
{
    if ops.len() == 0 {
        s
    } else {
        apply_ops(apply_op(s, cap, ops[0]), cap, ops.drop_first())
    }
}

/// The sequence of operations that pushes `vals`, in order.
pub open spec fn pushes<T>(vals: Seq<T>) -> Seq<Op<T>> {
    Seq::new(vals.len(), |i: int| Op::Push(vals[i]))
}

/// The sequence of `k` pops.
pub open spec fn pops<T>(k: nat) -> Seq<Op<T>> {
    Seq::new(k, |i: int| Op::<T>::Pop)
}

/// The values that `k` successive pops return from contents `s`: the front
/// element each time, following `RingBuffer::pop`'s contract; a pop against
/// an empty queue returns nothing.
pub open spec fn popped<T>(s: Seq<T>, k: nat) -> Seq<T>
    decreases k,
{
    if k == 0 || s.len() == 0 {
        Seq::empty()
    } else {
        seq![s[0]] + popped(s.drop_first(), (k - 1) as nat)
    }
}

/// Bounded occupancy: one operation keeps the length between 0 and the
/// capacity.
pub proof fn lemma_apply_op_len_bounded<T>(s: Seq<T>, cap: nat, op: Op<T>)
    requires
        s.len() <= cap,
    ensures
        apply_op(s, cap, op).len() <= cap,
{
}

/// Bounded occupancy under every sequence of pushes and pops: starting from
/// contents within capacity, the number of stored elements never goes
/// negative (it is the length of a sequence) and never exceeds the capacity.
pub proof fn lemma_len_bounded<T>(s: Seq<T>, cap: nat, ops: Seq<Op<T>>)
    requires
        s.len() <= cap,
    ensures
        apply_ops(s, cap, ops).len() <= cap,
    decreases ops.len(),
{
    if ops.len() > 0 {
        lemma_apply_op_len_bounded(s, cap, ops[0]);
        lemma_len_bounded(apply_op(s, cap, ops[0]), cap, ops.drop_first());
    }
}

/// Splitting a sequence of operations: running `a + b` is running `a`, then
/// `b`.
pub proof fn lemma_apply_ops_concat<T>(s: Seq<T>, cap: nat, a: Seq<Op<T>>, b: Seq<Op<T>>)
    ensures
        apply_ops(s, cap, a + b) == apply_ops(apply_ops(s, cap, a), cap, b),
    decreases a.len(),
{
    if a.len() == 0 {
        assert(a + b =~= b);
    } else {
        assert((a + b).drop_first() =~= a.drop_first() + b);
        lemma_apply_ops_concat(apply_op(s, cap, a[0]), cap, a.drop_first(), b);
    }
}

/// Pushing `vals` into contents `s` with room for all of them appends them in
/// order, and every one of those pushes succeeds.
pub proof fn lemma_apply_pushes<T>(s: Seq<T>, cap: nat, vals: Seq<T>)
    requires
        s.len() + vals.len() <= cap,
    ensures
        apply_ops(s, cap, pushes(vals)) == s + vals,
    decreases vals.len(),
{
    if vals.len() == 0 {
        assert(s + vals =~= s);
    } else {
        assert(pushes(vals).drop_first() =~= pushes(vals.drop_first()));
        lemma_apply_pushes(s.push(vals[0]), cap, vals.drop_first());
        assert(s.push(vals[0]) + vals.drop_first() =~= s + vals);
    }
}

/// First-in first-out order: after pushing `p1, p2, ..., pk` (`k` at most the
/// capacity) into an empty queue with no intervening pops, `k` successive
/// pops return exactly `p1, p2, ..., pk`, in that order.
pub proof fn lemma_fifo<T>(cap: nat, vals: Seq<T>)
    requires
        vals.len() <= cap,
    ensures
        apply_ops(Seq::<T>::empty(), cap, pushes(vals)) == vals,
        popped(vals, vals.len()) == vals,
{
    lemma_apply_pushes(Seq::<T>::empty(), cap, vals);
    assert(Seq::<T>::empty() + vals =~= vals);
    lemma_popped_take(vals, vals.len());
    assert(vals.take(vals.len() as int) =~= vals);
}

/// `k` pops from contents `s` return the first `k` elements of `s`, in order
/// (all of `s` when `k` exceeds the length).
pub proof fn lemma_popped_take<T>(s: Seq<T>, k: nat)
    ensures
        k <= s.len() ==> popped(s, k) == s.take(k as int),
        k >= s.len() ==> popped(s, k) == s,
    decreases k,
{
    if k == 0 || s.len() == 0 {
        if k <= s.len() {
            assert(popped(s, k) =~= s.take(k as int));
        }
        if k >= s.len() {
            assert(popped(s, k) =~= s);
        }
    } else {
        lemma_popped_take(s.drop_first(), (k - 1) as nat);
        if k <= s.len() {
            assert(seq![s[0]] + s.drop_first().take(k - 1) =~= s.take(k as int));
        }
        if k >= s.len() {
            assert(seq![s[0]] + s.drop_first() =~= s);
        }
    }
}

/// `k` pops remove the first `k` elements from the contents (everything when
/// `k` exceeds the length).
pub proof fn lemma_apply_pops<T>(s: Seq<T>, cap: nat, k: nat)
    ensures
        k <= s.len() ==> apply_ops(s, cap, pops(k)) == s.skip(k as int),
        k >= s.len() ==> apply_ops(s, cap, pops(k)) == Seq::<T>::empty(),
    decreases k,
{
    if k == 0 {
        if k <= s.len() {
            assert(s.skip(0) =~= s);
        }
        if k >= s.len() {
            assert(s =~= Seq::<T>::empty());
        }
    } else {
        assert(pops::<T>(k).drop_first() =~= pops::<T>((k - 1) as nat));
        if s.len() == 0 {
            lemma_apply_pops(s, cap, (k - 1) as nat);
        } else {
            lemma_apply_pops(s.drop_first(), cap, (k - 1) as nat);
            if k <= s.len() {
                assert(s.drop_first().skip(k - 1) =~= s.skip(k as int));
            }
        }
    }
}

/// Round trip: filling an empty queue with `cap` pushes and then draining it
/// with `cap` pops returns exactly the pushed values, in order, and leaves
/// the queue empty.
pub proof fn lemma_round_trip<T>(cap: nat, vals: Seq<T>)
    requires
        vals.len() == cap,
    ensures
        popped(apply_ops(Seq::<T>::empty(), cap, pushes(vals)), cap) == vals,
        apply_ops(Seq::<T>::empty(), cap, pushes(vals) + pops(cap)) == Seq::<T>::empty(),
{
    lemma_fifo(cap, vals);
    lemma_apply_ops_concat(Seq::<T>::empty(), cap, pushes(vals), pops(cap));
    lemma_apply_pops(vals, cap, cap);
}

} // verus!
