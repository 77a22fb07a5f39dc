//! First-in first-out sample queue: appended at the tail, drained from the
//! head in whole chunks, never partially.
use std::collections::VecDeque;
use vstd::prelude::*;

verus! {

/// A queue of values; its view is the sequence from head to tail.
pub struct SampleFifo<T> {
    items: VecDeque<T>,
}

impl<T> View for SampleFifo<T> {
    type V = Seq<T>;

    closed spec fn view(&self) -> Seq<T> {
        self.items@
    }
}

/// One operation on a queue, as a caller issues it.
pub enum QueueOp<T> {
    /// Append these values at the tail.
    Push(Seq<T>),
    /// Take this many values from the head, all or nothing.
    Drain(nat),
}

/// The queue after `op`, and the values that `op` handed out.
pub open spec fn queue_step<T>(q: Seq<T>, op: QueueOp<T>) -> (Seq<T>, Seq<T>) {
    match op {
        QueueOp::Push(xs) => (q + xs, Seq::empty()),
        QueueOp::Drain(n) => if n <= q.len() {
            (q.skip(n as int), q.take(n as int))
        } else {
            (q, Seq::empty())
        },
    }
}

/// The queue after `ops` applied in order from `q`, and everything they
/// handed out, in the order handed out.
pub open spec fn queue_replay<T>(q: Seq<T>, ops: Seq<QueueOp<T>>) -> (Seq<T>, Seq<T>)
    decreases ops.len(),
{
    if ops.len() == 0 {
        (q, Seq::empty())
    } else {
        let first = queue_step(q, ops[0]);
        let rest = queue_replay(first.0, ops.drop_first());
        (rest.0, first.1 + rest.1)
    }
}

/// All values that `ops` push, in order.
pub open spec fn pushed_values<T>(ops: Seq<QueueOp<T>>) -> Seq<T>
    decreases ops.len(),
{
    if ops.len() == 0 {
        Seq::empty()
    } else {
        let head = match ops[0] {
            QueueOp::Push(xs) => xs,
            QueueOp::Drain(_) => Seq::empty(),
        };
        head + pushed_values(ops.drop_first())
    }
}

/// For any sequence of pushes and drains, the values drained, followed by
/// what is still queued, are the values that were queued at the start
/// followed by the values pushed: nothing is lost, duplicated or reordered,
/// and the drained values are a prefix of that sequence.
pub proof fn lemma_fifo_order<T>(q: Seq<T>, ops: Seq<QueueOp<T>>)
    ensures
        queue_replay(q, ops).1 + queue_replay(q, ops).0 == q + pushed_values(ops),
    decreases ops.len(),
{
    if ops.len() > 0 {
        let first = queue_step(q, ops[0]);
        lemma_fifo_order(first.0, ops.drop_first());
        match ops[0] {
            QueueOp::Push(xs) => {
                assert(first.1 + first.0 =~= q + xs);
            },
            QueueOp::Drain(n) => {
                assert(first.1 + first.0 =~= q);
            },
        }
        let rest = queue_replay(first.0, ops.drop_first());
        let head = match ops[0] {
            QueueOp::Push(xs) => xs,
            QueueOp::Drain(_) => Seq::empty(),
        };
        assert(first.1 + first.0 =~= q + head);
        assert((first.1 + rest.1) + rest.0 =~= first.1 + (rest.1 + rest.0));
        assert(q + (head + pushed_values(ops.drop_first())) =~= (q + head) + pushed_values(
            ops.drop_first(),
        ));
    } else {
        assert(Seq::<T>::empty() + q =~= q + Seq::<T>::empty());
    }
}

impl<T> SampleFifo<T> {
    pub fn new() -> (r: Self)
        ensures
            r@ == Seq::<T>::empty(),
    {
        SampleFifo { items: VecDeque::new() }
    }

    pub fn len(&self) -> (r: usize)
        ensures
            r == self@.len(),
    {
        self.items.len()
    }

    /// Appends one value at the tail.
    pub fn push(&mut self, x: T)
        ensures
            final(self)@ == old(self)@.push(x),
    {
        self.items.push_back(x);
    }

    /// Takes the value at the head, if any.
    pub fn pop(&mut self) -> (r: Option<T>)
        ensures
            match r {
                Some(x) => old(self)@.len() > 0 && x == old(self)@[0] && final(self)@
                    == old(self)@.drop_first(),
                None => old(self)@.len() == 0 && final(self)@ == old(self)@,
            },
    {
        self.items.pop_front()
    }

    /// Empties the queue.
    pub fn clear(&mut self)
        ensures
            final(self)@ == Seq::<T>::empty(),
    {
        self.items.clear();
    }

    /// Takes exactly `n` values from the head, or, when fewer are queued,
    /// nothing at all.
    pub fn try_drain(&mut self, n: usize) -> (r: Option<Vec<T>>)
        ensures
            (final(self)@, match r {
                Some(v) => v@,
                None => Seq::empty(),
            }) == queue_step(old(self)@, QueueOp::Drain(n as nat)),
            r.is_some() <==> n <= old(self)@.len(),
    {
        if self.items.len() < n {
            return None;
        }
        let mut out: Vec<T> = Vec::new();
        let mut i: usize = 0;
        while i < n
            invariant
                0 <= i <= n,
                n <= old(self)@.len(),
                out@ == old(self)@.take(i as int),
                self@ == old(self)@.skip(i as int),
            decreases n - i,
        {
            let x = self.items.pop_front();
            match x {
                Some(x) => {
                    out.push(x);
                },
                None => {
                    assert(false);
                },
            }
            i = i + 1;
            assert(out@ =~= old(self)@.take(i as int));
            assert(self@ =~= old(self)@.skip(i as int));
        }
        Some(out)
    }
}

impl<T: Copy> SampleFifo<T> {
    /// Appends `xs` at the tail, in order.
    pub fn push_all(&mut self, xs: &[T])
        ensures
            (final(self)@, Seq::<T>::empty()) == queue_step(old(self)@, QueueOp::Push(xs@)),
    {
        let mut i: usize = 0;
        while i < xs.len()
            invariant
                0 <= i <= xs@.len(),
                self@ == old(self)@ + xs@.take(i as int),
            decreases xs@.len() - i,
        {
            self.items.push_back(xs[i]);
            i = i + 1;
            assert(self@ =~= old(self)@ + xs@.take(i as int));
        }
        assert(xs@.take(xs@.len() as int) =~= xs@);
    }
}

} // verus!
