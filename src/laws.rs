//! Laws of the queue, stated over a model of a run of operations whose steps
//! are exactly the contracts of `Queue::enqueue` and `Queue::dequeue`.
use vstd::prelude::*;

verus! {

/// One operation on a queue.
pub enum QueueOp<T> {
    Enqueue(T),
    Dequeue,
}

/// Runs `ops` on a queue holding `s`. Gives the contents left and the values
/// handed out by the dequeues, in order, or `None` where some dequeue meets an
/// empty queue.
pub open spec fn run<T>(s: Seq<T>, ops: Seq<QueueOp<T>>) -> Option<(Seq<T>, Seq<T>)>
    decreases ops.len(),
{
    if ops.len() == 0 {
        Some((s, Seq::empty()))
    } else {
        let rest = ops.subrange(1, ops.len() as int);
        match ops[0] {
            QueueOp::Enqueue(v) => run(s.push(v), rest),
            QueueOp::Dequeue => {
                if s.len() == 0 {
                    None
                } else {
                    match run(s.subrange(1, s.len() as int), rest) {
                        Some((left, out)) => Some((left, seq![s[0]] + out)),
                        None => None,
                    }
                }
            },
        }
    }
}

/// The values that the enqueues of `ops` add, in order.
pub open spec fn enqueued_values<T>(ops: Seq<QueueOp<T>>) -> Seq<T>
    decreases ops.len(),
{
    if ops.len() == 0 {
        Seq::empty()
    } else {
        let rest = enqueued_values(ops.subrange(1, ops.len() as int));
        match ops[0] {
            QueueOp::Enqueue(v) => seq![v] + rest,
            QueueOp::Dequeue => rest,
        }
    }
}

/// How many dequeues `ops` holds.
pub open spec fn dequeue_count<T>(ops: Seq<QueueOp<T>>) -> nat
    decreases ops.len(),
{
    if ops.len() == 0 {
        0
    } else {
        let rest = dequeue_count(ops.subrange(1, ops.len() as int));
        match ops[0] {
            QueueOp::Enqueue(_) => rest,
            QueueOp::Dequeue => rest + 1,
        }
    }
}

/// First in, first out: over any run that never dequeues from an empty queue,
/// what was handed out followed by what is left is exactly what was held at
/// the start followed by every enqueued value, in order.
pub proof fn lemma_run_keeps_order<T>(s: Seq<T>, ops: Seq<QueueOp<T>>)
    requires
        run(s, ops) is Some,
    ensures
        ({
            let (left, out) = run(s, ops)->0;
            out + left == s + enqueued_values(ops)
        }),
    decreases ops.len(),
{
    if ops.len() > 0 {
        let rest = ops.subrange(1, ops.len() as int);
        match ops[0] {
            QueueOp::Enqueue(v) => {
                lemma_run_keeps_order(s.push(v), rest);
                assert(s.push(v) + enqueued_values(rest) =~= s + enqueued_values(ops));
            },
            QueueOp::Dequeue => {
                let tail = s.subrange(1, s.len() as int);
                lemma_run_keeps_order(tail, rest);
                let (left, out) = run(tail, rest)->0;
                assert(seq![s[0]] + out + left =~= seq![s[0]] + (out + left));
                assert(seq![s[0]] + (tail + enqueued_values(rest)) =~= s + enqueued_values(ops));
            },
        }
    } else {
        let (left, out) = run(s, ops)->0;
        assert(out + left =~= s + enqueued_values(ops));
    }
}

/// Every dequeue hands out one value, so over any run that never dequeues from
/// an empty queue, the number of elements left is the number held at the start
/// plus the enqueues less the dequeues.
pub proof fn lemma_run_length<T>(s: Seq<T>, ops: Seq<QueueOp<T>>)
    requires
        run(s, ops) is Some,
    ensures
        ({
            let (left, out) = run(s, ops)->0;
            &&& left.len() == s.len() + enqueued_values(ops).len() - dequeue_count(ops)
            &&& out.len() == dequeue_count(ops)
        }),
{
    lemma_run_keeps_order(s, ops);
    lemma_run_output_length(s, ops);
    let (left, out) = run(s, ops)->0;
    assert((out + left).len() == (s + enqueued_values(ops)).len());
}

proof fn lemma_run_output_length<T>(s: Seq<T>, ops: Seq<QueueOp<T>>)
    requires
        run(s, ops) is Some,
    ensures
        ({
            let (left, out) = run(s, ops)->0;
            out.len() == dequeue_count(ops)
        }),
    decreases ops.len(),
{
    if ops.len() > 0 {
        let rest = ops.subrange(1, ops.len() as int);
        match ops[0] {
            QueueOp::Enqueue(v) => lemma_run_output_length(s.push(v), rest),
            QueueOp::Dequeue => lemma_run_output_length(s.subrange(1, s.len() as int), rest),
        }
    }
}

/// The operations that enqueue each of `vs`, in order.
pub open spec fn enqueue_ops<T>(vs: Seq<T>) -> Seq<QueueOp<T>> {
    Seq::new(vs.len(), |i: int| QueueOp::Enqueue(vs[i]))
}

/// `n` dequeues.
pub open spec fn dequeue_ops<T>(n: nat) -> Seq<QueueOp<T>> {
    Seq::new(n, |i: int| QueueOp::Dequeue)
}

/// Enqueuing `v1, ..., vn` on a new queue and then dequeuing `n` times hands
/// out `v1, ..., vn` in that order and leaves the queue empty.
pub proof fn lemma_enqueue_then_drain<T>(vs: Seq<T>)
    ensures
        run(Seq::empty(), enqueue_ops(vs) + dequeue_ops(vs.len())) == Some(
            (Seq::<T>::empty(), vs),
        ),
{
    lemma_run_enqueues(Seq::empty(), vs, dequeue_ops(vs.len()));
    assert(Seq::<T>::empty() + vs =~= vs);
    lemma_run_dequeues(vs);
}

proof fn lemma_run_enqueues<T>(s: Seq<T>, vs: Seq<T>, rest: Seq<QueueOp<T>>)
    ensures
        run(s, enqueue_ops(vs) + rest) == run(s + vs, rest),
    decreases vs.len(),
{
    let ops = enqueue_ops(vs) + rest;
    if vs.len() == 0 {
        assert(ops =~= rest);
        assert(s + vs =~= s);
    } else {
        let tail = vs.subrange(1, vs.len() as int);
        assert(ops.subrange(1, ops.len() as int) =~= enqueue_ops(tail) + rest);
        lemma_run_enqueues(s.push(vs[0]), tail, rest);
        assert(s.push(vs[0]) + tail =~= s + vs);
    }
}

proof fn lemma_run_dequeues<T>(s: Seq<T>)
    ensures
        run(s, dequeue_ops(s.len())) == Some((Seq::<T>::empty(), s)),
    decreases s.len(),
{
    let ops = dequeue_ops::<T>(s.len());
    if s.len() == 0 {
        assert(s =~= Seq::<T>::empty());
    } else {
        let tail = s.subrange(1, s.len() as int);
        assert(ops.subrange(1, ops.len() as int) =~= dequeue_ops::<T>(tail.len()));
        lemma_run_dequeues(tail);
        assert(seq![s[0]] + tail =~= s);
    }
}

/// A new queue is empty.
pub proof fn lemma_new_queue_is_empty<T>()
    ensures
        run(Seq::<T>::empty(), Seq::empty()) == Some((Seq::<T>::empty(), Seq::<T>::empty())),
        Seq::<T>::empty().len() == 0,
{
}

/// One enqueue on an empty queue makes it non-empty, and dequeuing that only
/// element makes it empty again.
pub proof fn lemma_emptiness_transition<T>(v: T)
    ensures
        Seq::<T>::empty().push(v).len() != 0,
        run(Seq::<T>::empty(), seq![QueueOp::Enqueue(v), QueueOp::Dequeue]) == Some(
            (Seq::<T>::empty(), seq![v]),
        ),
{
    lemma_enqueue_then_drain(seq![v]);
    assert(enqueue_ops(seq![v]) + dequeue_ops(1) =~= seq![QueueOp::Enqueue(v), QueueOp::Dequeue]);
}

} // verus!
