//! Bounded frame ring connecting real-time audio callbacks to worker
//! threads.
//!
//! The storage is crossbeam's `ArrayQueue`, a bounded FIFO queue; this
//! module declares it to the verifier and gives its operations contracts
//! over a sequence of the frames it holds. `RingBuffer` wraps the queue
//! with overflow and underrun counters; its operations never block.

use vstd::prelude::*;
use crate::frame::AudioFrame;
use crossbeam::queue::ArrayQueue;

verus! {

#[verifier::external_type_specification]
#[verifier::external_body]
#[verifier::reject_recursive_types(T)]
pub struct ExArrayQueue<T>(ArrayQueue<T>);

/// The frames a queue holds, front first.
pub uninterp spec fn queue_items(q: ArrayQueue<AudioFrame>) -> Seq<AudioFrame>;

/// The fixed bound the queue was created with.
pub uninterp spec fn queue_capacity(q: ArrayQueue<AudioFrame>) -> nat;

/// Relies on crossbeam's `ArrayQueue::new`: an empty queue with the given
/// capacity. It panics on capacity zero (and on bounds near the index
/// range), so those are excluded here.
#[verifier::external_body]
fn queue_new(capacity: usize) -> (q: ArrayQueue<AudioFrame>)
    requires
        0 < capacity <= 0x1000_0000,
    ensures
        queue_items(q) == Seq::<AudioFrame>::empty(),
        queue_capacity(q) == capacity,
{
    ArrayQueue::new(capacity)
}

/// Relies on crossbeam's `ArrayQueue::push_mut`: appends at the tail and
/// fails exactly when the queue is full, handing the element back (it is
/// dropped here).
#[verifier::external_body]
fn queue_push(q: &mut ArrayQueue<AudioFrame>, frame: AudioFrame) -> (r: bool)
    ensures
        queue_capacity(*final(q)) == queue_capacity(*old(q)),
        queue_items(*old(q)).len() < queue_capacity(*old(q)) ==> r && queue_items(*final(q))
            == queue_items(*old(q)).push(frame),
        queue_items(*old(q)).len() >= queue_capacity(*old(q)) ==> !r && queue_items(*final(q))
            == queue_items(*old(q)),
{
    q.push_mut(frame).is_ok()
}

/// Relies on crossbeam's `ArrayQueue::pop_mut`: removes and returns the
/// front element, `None` exactly when the queue is empty.
#[verifier::external_body]
fn queue_pop(q: &mut ArrayQueue<AudioFrame>) -> (r: Option<AudioFrame>)
    ensures
        queue_capacity(*final(q)) == queue_capacity(*old(q)),
        queue_items(*old(q)).len() == 0 ==> r is None && queue_items(*final(q)) == queue_items(
            *old(q),
        ),
        queue_items(*old(q)).len() > 0 ==> r == Some(queue_items(*old(q))[0]) && queue_items(
            *final(q),
        ) == queue_items(*old(q)).drop_first(),
{
    q.pop_mut()
}

/// Relies on crossbeam's `ArrayQueue::len`: the number of elements held.
#[verifier::external_body]
fn queue_len(q: &ArrayQueue<AudioFrame>) -> (r: usize)
    ensures
        r == queue_items(*q).len(),
{
    q.len()
}

/// Bounded ring of audio frames with non-blocking push and pop and
/// monotone overflow and underrun counters.
pub struct RingBuffer {
    queue: ArrayQueue<AudioFrame>,
    capacity: usize,
    overflow_count: u64,
    underrun_count: u64,
}

/// A saturating count-up: the successor, capped at the counter's range.
pub open spec fn spec_count_up(c: u64) -> u64 {
    if c < u64::MAX {
        (c + 1) as u64
    } else {
        u64::MAX
    }
}

impl View for RingBuffer {
    type V = Seq<AudioFrame>;

    closed spec fn view(&self) -> Seq<AudioFrame> {
        queue_items(self.queue)
    }
}

impl RingBuffer {
    /// Well-formedness: the stored capacity is the queue's bound and the
    /// queue never holds more than it.
    pub closed spec fn wf(&self) -> bool {
        &&& self.capacity as nat == queue_capacity(self.queue)
        &&& 0 < self.capacity <= 0x1000_0000
        &&& self@.len() <= self.capacity
    }

    /// The overflow counter's current value.
    pub closed spec fn spec_overflow_count(&self) -> u64 {
        self.overflow_count
    }

    /// The underrun counter's current value.
    pub closed spec fn spec_underrun_count(&self) -> u64 {
        self.underrun_count
    }

    /// The fixed capacity.
    pub closed spec fn spec_capacity(&self) -> usize {
        self.capacity
    }

    /// An empty ring with the given capacity and zeroed counters.
    pub fn new(capacity: usize) -> (r: RingBuffer)
        requires
            0 < capacity <= 0x1000_0000,
        ensures
            r.wf(),
            r@ == Seq::<AudioFrame>::empty(),
            r.spec_capacity() == capacity,
            r.spec_overflow_count() == 0,
            r.spec_underrun_count() == 0,
    {
        RingBuffer { queue: queue_new(capacity), capacity, overflow_count: 0, underrun_count: 0 }
    }

    /// Push a frame. Fails and counts an overflow exactly when the ring is
    /// full; the frame is dropped then. Never blocks.
    pub fn push(&mut self, frame: AudioFrame) -> (r: bool)
        requires
            old(self).wf(),
        ensures
            final(self).wf(),
            final(self).spec_capacity() == old(self).spec_capacity(),
            final(self).spec_underrun_count() == old(self).spec_underrun_count(),
            old(self)@.len() < old(self).spec_capacity() ==> r && final(self)@ == old(self)@.push(
                frame,
            ) && final(self).spec_overflow_count() == old(self).spec_overflow_count(),
            old(self)@.len() >= old(self).spec_capacity() ==> !r && final(self)@ == old(self)@
                && final(self).spec_overflow_count() == spec_count_up(
                old(self).spec_overflow_count(),
            ),
    {
        let ok = queue_push(&mut self.queue, frame);
        if !ok {
            self.overflow_count = count_up(self.overflow_count);
        }
        ok
    }

    /// Pop the oldest frame. Returns `None` and counts an underrun exactly
    /// when the ring is empty. Never blocks.
    pub fn pop(&mut self) -> (r: Option<AudioFrame>)
        requires
            old(self).wf(),
        ensures
            final(self).wf(),
            final(self).spec_capacity() == old(self).spec_capacity(),
            final(self).spec_overflow_count() == old(self).spec_overflow_count(),
            old(self)@.len() > 0 ==> r == Some(old(self)@[0]) && final(self)@ == old(self)@.drop_first()
                && final(self).spec_underrun_count() == old(self).spec_underrun_count(),
            old(self)@.len() == 0 ==> r is None && final(self)@ == old(self)@
                && final(self).spec_underrun_count() == spec_count_up(old(self).spec_underrun_count()),
    {
        let r = queue_pop(&mut self.queue);
        if r.is_none() {
            self.underrun_count = count_up(self.underrun_count);
        }
        r
    }

    /// Pop without counting an underrun when empty.
    pub fn try_pop(&mut self) -> (r: Option<AudioFrame>)
        requires
            old(self).wf(),
        ensures
            final(self).wf(),
            final(self).spec_capacity() == old(self).spec_capacity(),
            final(self).spec_overflow_count() == old(self).spec_overflow_count(),
            final(self).spec_underrun_count() == old(self).spec_underrun_count(),
            old(self)@.len() > 0 ==> r == Some(old(self)@[0]) && final(self)@ == old(self)@.drop_first(),
            old(self)@.len() == 0 ==> r is None && final(self)@ == old(self)@,
    {
        queue_pop(&mut self.queue)
    }

    /// Whether the ring holds no frame.
    pub fn is_empty(&self) -> (r: bool)
        requires
            self.wf(),
        ensures
            r == (self@.len() == 0),
    {
        self.len() == 0
    }

    /// Whether the ring is at capacity.
    pub fn is_full(&self) -> (r: bool)
        requires
            self.wf(),
        ensures
            r == (self@.len() == self.spec_capacity()),
    {
        self.len() == self.capacity
    }

    /// Number of frames currently held.
    pub fn len(&self) -> (r: usize)
        requires
            self.wf(),
        ensures
            r == self@.len(),
    {
        queue_len(&self.queue)
    }

    /// The fixed capacity.
    pub fn capacity(&self) -> (r: usize)
        requires
            self.wf(),
        ensures
            r == self.spec_capacity(),
    {
        self.capacity
    }

    /// Total pushes that failed because the ring was full.
    pub fn overflow_count(&self) -> (r: u64)
        ensures
            r == self.spec_overflow_count(),
    {
        self.overflow_count
    }

    /// Total pops that found the ring empty.
    pub fn underrun_count(&self) -> (r: u64)
        ensures
            r == self.spec_underrun_count(),
    {
        self.underrun_count
    }

    /// Zero both counters; the frames held are unchanged.
    pub fn reset_stats(&mut self)
        requires
            old(self).wf(),
        ensures
            final(self).wf(),
            final(self)@ == old(self)@,
            final(self).spec_capacity() == old(self).spec_capacity(),
            final(self).spec_overflow_count() == 0,
            final(self).spec_underrun_count() == 0,
    {
        self.overflow_count = 0;
        self.underrun_count = 0;
    }

    /// Fill level in thousandths of the capacity.
    pub fn fill_level(&self) -> (r: u32)
        requires
            self.wf(),
        ensures
            r == self@.len() as int * 1000 / self.spec_capacity() as int,
            r <= 1000,
    {
        let level: u64 = (self.len() as u64) * 1000 / (self.capacity as u64);
        proof {
            assert(self@.len() as int * 1000 / self.capacity as int <= 1000) by (nonlinear_arith)
                requires
                    self@.len() <= self.capacity,
                    0 < self.capacity,
            ;
        }
        level as u32
    }
}

/// One ring operation: a push attempt carrying a frame, or a pop attempt.
pub enum RingOp {
    Push(AudioFrame),
    Pop,
}

/// Abstract state of a ring after a run of operations: the frames it
/// holds, the frames pushed and popped successfully in order, and how many
/// attempts failed. `RingBuffer::push` and `RingBuffer::pop` realise
/// exactly `ring_step` on this state (with the failure counts saturating
/// at the word size).
pub struct RingModel {
    pub capacity: nat,
    pub items: Seq<AudioFrame>,
    pub pushed: Seq<AudioFrame>,
    pub popped: Seq<AudioFrame>,
    pub overflow: nat,
    pub underrun: nat,
}

/// The state of a fresh ring: nothing held, nothing counted.
pub open spec fn ring_init(capacity: nat) -> RingModel {
    RingModel {
        capacity,
        items: Seq::empty(),
        pushed: Seq::empty(),
        popped: Seq::empty(),
        overflow: 0,
        underrun: 0,
    }
}

/// Effect of one operation: a push appends when there is room and counts
/// an overflow otherwise; a pop removes the front when there is one and
/// counts an underrun otherwise.
pub open spec fn ring_step(m: RingModel, op: RingOp) -> RingModel {
    match op {
        RingOp::Push(f) => {
            if m.items.len() < m.capacity {
                RingModel { items: m.items.push(f), pushed: m.pushed.push(f), ..m }
            } else {
                RingModel { overflow: m.overflow + 1, ..m }
            }
        },
        RingOp::Pop => {
            if m.items.len() > 0 {
                RingModel { items: m.items.drop_first(), popped: m.popped.push(m.items[0]), ..m }
            } else {
                RingModel { underrun: m.underrun + 1, ..m }
            }
        },
    }
}

/// The state after a whole run of operations on a fresh ring.
pub open spec fn ring_run(capacity: nat, ops: Seq<RingOp>) -> RingModel
    decreases ops.len(),
{
    if ops.len() == 0 {
        ring_init(capacity)
    } else {
        ring_step(ring_run(capacity, ops.drop_last()), ops.last())
    }
}

/// Number of push attempts in a run.
pub open spec fn count_push_ops(ops: Seq<RingOp>) -> nat
    decreases ops.len(),
{
    if ops.len() == 0 {
        0
    } else {
        count_push_ops(ops.drop_last()) + if ops.last() is Push {
            1nat
        } else {
            0nat
        }
    }
}

/// Number of pop attempts in a run.
pub open spec fn count_pop_ops(ops: Seq<RingOp>) -> nat
    decreases ops.len(),
{
    if ops.len() == 0 {
        0
    } else {
        count_pop_ops(ops.drop_last()) + if ops.last() is Pop {
            1nat
        } else {
            0nat
        }
    }
}

/// Ring conservation and FIFO law: after any interleaving of push and pop
/// attempts, the frames pushed successfully are exactly the frames popped
/// successfully followed by the frames still held, in order (so pops come
/// out in push order, and successful pushes minus successful pops equals
/// the occupancy); moreover successful pushes plus overflows equal the
/// push attempts, and successful pops plus underruns equal the pop
/// attempts.
pub proof fn lemma_ring_conservation(capacity: nat, ops: Seq<RingOp>)
    ensures
        ring_run(capacity, ops).pushed =~= ring_run(capacity, ops).popped + ring_run(
            capacity,
            ops,
        ).items,
        ring_run(capacity, ops).pushed.len() + ring_run(capacity, ops).overflow == count_push_ops(
            ops,
        ),
        ring_run(capacity, ops).popped.len() + ring_run(capacity, ops).underrun == count_pop_ops(
            ops,
        ),
    decreases ops.len(),
{
    if ops.len() == 0 {
    } else {
        let prev = ring_run(capacity, ops.drop_last());
        lemma_ring_conservation(capacity, ops.drop_last());
        match ops.last() {
            RingOp::Push(f) => {
                if prev.items.len() < prev.capacity {
                    assert(prev.pushed.push(f) =~= prev.popped + prev.items.push(f));
                }
            },
            RingOp::Pop => {
                if prev.items.len() > 0 {
                    assert(prev.pushed =~= prev.popped.push(prev.items[0])
                        + prev.items.drop_first());
                }
            },
        }
    }
}

/// A saturating count-up, executable form.
fn count_up(c: u64) -> (r: u64)
    ensures
        r == spec_count_up(c),
{
    if c < u64::MAX {
        c + 1
    } else {
        c
    }
}

} // verus!
