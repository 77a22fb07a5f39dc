//! The audio-callback side and the worker side of the sample queues: what
//! one host frame pushes and takes, which timestamp goes with the samples
//! handed back, and the frames the worker takes for processing.
use crate::engine::FrameEngine;
use crate::fifo::{queue_step, QueueOp, SampleFifo};
use vstd::prelude::*;

verus! {

/// What the host does with one frame of audio.
pub enum IngestOutcome<T> {
    /// Too little converted audio was ready: the frame keeps its own audio.
    Discarded,
    /// The frame is overwritten with `samples`, and carries `timestamp`
    /// when one was pending.
    Modified { samples: Vec<T>, timestamp: Option<u64> },
}

/// One call of the ingest path, as far as timestamps go: the timestamp it
/// pushes and whether enough converted audio was ready for it.
pub struct IngestCall {
    pub timestamp: u64,
    pub output_ready: bool,
}

/// Pending timestamps after the output half of the ingest path, and the
/// timestamp it reports: the oldest one, when output was ready and one was
/// pending.
pub open spec fn stamp_pop(pending: Seq<u64>, ready: bool) -> (Seq<u64>, Option<u64>) {
    if ready && pending.len() > 0 {
        (pending.drop_first(), Some(pending[0]))
    } else {
        (pending, None)
    }
}

/// Pending timestamps after the whole ingest call `c`, and the timestamp
/// it reports.
pub open spec fn stamp_step(pending: Seq<u64>, c: IngestCall) -> (Seq<u64>, Option<u64>) {
    stamp_pop(pending.push(c.timestamp), c.output_ready)
}

/// Pending timestamps after `calls` in order, and the timestamps they
/// reported, in order.
pub open spec fn stamp_replay(pending: Seq<u64>, calls: Seq<IngestCall>) -> (Seq<u64>, Seq<u64>)
    decreases calls.len(),
{
    if calls.len() == 0 {
        (pending, Seq::empty())
    } else {
        let first = stamp_step(pending, calls[0]);
        let rest = stamp_replay(first.0, calls.drop_first());
        let reported = match first.1 {
            Some(t) => seq![t],
            None => Seq::empty(),
        };
        (rest.0, reported + rest.1)
    }
}

/// The timestamps that `calls` push, in order.
pub open spec fn call_stamps(calls: Seq<IngestCall>) -> Seq<u64> {
    calls.map_values(|c: IngestCall| c.timestamp)
}

/// The number of calls among `calls` that found output ready.
pub open spec fn ready_count(calls: Seq<IngestCall>) -> nat
    decreases calls.len(),
{
    if calls.len() == 0 {
        0
    } else {
        (if calls[0].output_ready { 1nat } else { 0nat }) + ready_count(calls.drop_first())
    }
}

proof fn lemma_stamp_replay(pending: Seq<u64>, calls: Seq<IngestCall>)
    ensures
        stamp_replay(pending, calls).1 + stamp_replay(pending, calls).0 == pending + call_stamps(
            calls,
        ),
        stamp_replay(pending, calls).1.len() == ready_count(calls),
    decreases calls.len(),
{
    if calls.len() > 0 {
        let first = stamp_step(pending, calls[0]);
        lemma_stamp_replay(first.0, calls.drop_first());
        let rest = stamp_replay(first.0, calls.drop_first());
        let reported = match first.1 {
            Some(t) => seq![t],
            None => Seq::<u64>::empty(),
        };
        assert(reported + first.0 =~= pending.push(calls[0].timestamp));
        assert(call_stamps(calls) =~= seq![calls[0].timestamp] + call_stamps(calls.drop_first()));
        assert((reported + rest.1) + rest.0 =~= reported + (rest.1 + rest.0));
        assert(pending + call_stamps(calls) =~= pending.push(calls[0].timestamp) + call_stamps(
            calls.drop_first(),
        ));
    } else {
        assert(Seq::<u64>::empty() + pending =~= pending + call_stamps(calls));
    }
}

/// For any sequence of ingest calls starting with no pending timestamp,
/// the K-th call that hands back converted audio reports the K-th pushed
/// timestamp: the reported timestamps are the pushed ones, in order, one
/// per output-bearing call, and the rest are still pending.
pub proof fn lemma_timestamp_pairing(calls: Seq<IngestCall>)
    ensures
        stamp_replay(Seq::empty(), calls).1.len() == ready_count(calls),
        stamp_replay(Seq::empty(), calls).1 + stamp_replay(Seq::empty(), calls).0 == call_stamps(
            calls,
        ),
        forall|k: int|
            0 <= k < stamp_replay(Seq::empty(), calls).1.len() ==> #[trigger] stamp_replay(
                Seq::empty(),
                calls,
            ).1[k] == calls[k].timestamp,
{
    lemma_stamp_replay(Seq::empty(), calls);
    assert(Seq::<u64>::empty() + call_stamps(calls) =~= call_stamps(calls));
    let r = stamp_replay(Seq::empty(), calls);
    assert forall|k: int| 0 <= k < r.1.len() implies #[trigger] r.1[k] == calls[k].timestamp by {
        assert((r.1 + r.0)[k] == r.1[k]);
    }
}

/// First half of the ingest path: queues the mono samples of one host
/// frame and its timestamp.
pub fn push_input<T: Copy>(
    input: &mut SampleFifo<T>,
    stamps: &mut SampleFifo<u64>,
    frame: &[T],
    timestamp: u64,
)
    ensures
        final(input)@ == old(input)@ + frame@,
        final(stamps)@ == old(stamps)@.push(timestamp),
{
    input.push_all(frame);
    stamps.push(timestamp);
}

/// Second half of the ingest path: takes exactly `n` converted samples and
/// the oldest pending timestamp, or, when fewer than `n` samples are ready,
/// takes nothing.
pub fn take_output<T>(output: &mut SampleFifo<T>, stamps: &mut SampleFifo<u64>, n: usize) -> (r:
    IngestOutcome<T>)
    ensures
        match r {
            IngestOutcome::Discarded => {
                &&& old(output)@.len() < n
                &&& final(output)@ == old(output)@
                &&& (final(stamps)@, None::<u64>) == stamp_pop(old(stamps)@, false)
            },
            IngestOutcome::Modified { samples, timestamp } => {
                &&& n <= old(output)@.len()
                &&& samples@ == old(output)@.take(n as int)
                &&& final(output)@ == old(output)@.skip(n as int)
                &&& (final(stamps)@, timestamp) == stamp_pop(old(stamps)@, true)
            },
        },
{
    match output.try_drain(n) {
        None => IngestOutcome::Discarded,
        Some(samples) => {
            let timestamp = stamps.pop();
            IngestOutcome::Modified { samples, timestamp }
        },
    }
}

/// The worker's take: exactly one frame of `sample_frame_size` samples from
/// the head of `input`, or nothing while fewer are queued.
pub fn next_frame<T: Copy>(engine: &FrameEngine<T>, input: &mut SampleFifo<T>) -> (r: Option<
    Vec<T>,
>)
    ensures
        ({
            let n = engine@.geometry.sample_frame_size as nat;
            (final(input)@, match r {
                Some(v) => v@,
                None => Seq::empty(),
            }) == queue_step(old(input)@, QueueOp::Drain(n)) && (r.is_some() <==> n
                <= old(input)@.len())
        }),
{
    let n = engine.geometry().sample_frame_size;
    input.try_drain(n)
}

/// Broadcasts one mono channel to `channels` identical channels.
pub fn upmix<T: Copy>(mono: &[T], channels: usize) -> (r: Vec<Vec<T>>)
    ensures
        r@.len() == channels,
        forall|c: int| 0 <= c < channels ==> (#[trigger] r@[c])@ == mono@,
{
    let mut r: Vec<Vec<T>> = Vec::new();
    let mut c: usize = 0;
    while c < channels
        invariant
            0 <= c <= channels,
            r@.len() == c,
            forall|k: int| 0 <= k < c ==> (#[trigger] r@[k])@ == mono@,
        decreases channels - c,
    {
        let copy = crate::sola::copy_range(mono, 0, mono.len());
        assert(mono@.subrange(0, mono@.len() as int) =~= mono@);
        r.push(copy);
        c = c + 1;
    }
    r
}

} // verus!
