//! The bounded hand-off queue between the acquisition loop and the pipeline.
//!
//! The acquisition side produces whole [`Frame`]s; the processing side
//! consumes them. The queue is the only shared resource between the two, so
//! its discipline carries the pipeline's ordering guarantee: frames are
//! delivered in exactly the order produced, with no reordering and no merging.
//!
//! Backpressure policy: this library treats a full queue as a pacing
//! violation. [`FrameQueue::send`] hands the frame back as
//! [`PacingViolation`] instead of blocking or dropping it, and the caller is
//! expected to treat that as fatal, because a silently dropped frame would
//! desynchronize scanline alignment in every later frame.
//!
//! The storage is crossbeam's `ArrayQueue`, held behind trusted wrappers
//! whose contracts state what the crate's source shows of `push_mut` and
//! `pop_mut` under exclusive access.

use vstd::prelude::*;
use crossbeam::queue::ArrayQueue;

verus! {

/// One acquisition frame: the raw sample words of one burst group, in the
/// order they were sampled. Ownership moves with the frame: once sent, the
/// producer holds nothing of it.
pub struct Frame {
    pub samples: Vec<u16>,
}

impl View for Frame {
    type V = Seq<u16>;

    open spec fn view(&self) -> Seq<u16> {
        self.samples@
    }
}

impl Frame {
    /// Wraps a finished burst group of raw sample words as a frame.
    pub fn new(samples: Vec<u16>) -> (f: Frame)
        ensures
            f@ == samples@,
    {
        Frame { samples }
    }

    /// The number of raw sample words the frame holds.
    pub fn len(&self) -> (n: usize)
        ensures
            n == self@.len(),
    {
        self.samples.len()
    }
}

/// The sample words of a burst group, in burst order.
pub open spec fn spec_concat_bursts(bs: Seq<Seq<u16>>) -> Seq<u16>
    decreases bs.len(),
{
    if bs.len() == 0 {
        Seq::empty()
    } else {
        spec_concat_bursts(bs.drop_last()) + bs.last()
    }
}

/// Assembles one frame from a group of acquisition bursts. Succeeds, with
/// the bursts' samples in order, exactly when every burst carries the
/// agreed sample count: a frame is always `burst_len * bursts.len()`
/// samples, and a group with any short or long burst yields no frame at
/// all — partial frames are never submitted.
pub fn assemble_frame(bursts: &Vec<Vec<u16>>, burst_len: usize) -> (r: Option<Frame>)
    requires
        bursts@.len() * burst_len <= usize::MAX,
    ensures
        (forall|i: int| 0 <= i < bursts@.len() ==> (#[trigger] bursts@[i])@.len() == burst_len)
            <==> r is Some,
        r matches Some(f) ==> {
            &&& f@ == spec_concat_bursts(bursts@.map_values(|b: Vec<u16>| b@))
            &&& f@.len() == bursts@.len() * burst_len
        },
{
    let n = bursts.len();
    let mut samples: Vec<u16> = Vec::new();
    let mut i: usize = 0;
    proof {
        assert(bursts@.map_values(|b: Vec<u16>| b@).take(0) =~= Seq::<Seq<u16>>::empty());
        assert(0 * burst_len == 0) by (nonlinear_arith);
    }
    while i < n
        invariant
            0 <= i <= n,
            n == bursts@.len(),
            n * burst_len <= usize::MAX,
            forall|j: int| 0 <= j < i ==> (#[trigger] bursts@[j])@.len() == burst_len,
            samples@ == spec_concat_bursts(bursts@.map_values(|b: Vec<u16>| b@).take(i as int)),
            samples@.len() == i * burst_len,
        decreases n - i,
    {
        if bursts[i].len() != burst_len {
            return None;
        }
        proof {
            assert(0 <= i * burst_len <= (i + 1) * burst_len <= n * burst_len && (i + 1)
                * burst_len == i * burst_len + burst_len) by (nonlinear_arith)
                requires
                    0 <= i < n,
            ;
        }
        let mut burst = bursts[i].clone();
        proof {
            let bs = bursts@.map_values(|b: Vec<u16>| b@);
            assert(bs.take(i as int + 1).drop_last() =~= bs.take(i as int));
            assert(bs.take(i as int + 1).last() == bursts@[i as int]@);
        }
        samples.append(&mut burst);
        i = i + 1;
    }
    proof {
        assert(bursts@.map_values(|b: Vec<u16>| b@).take(n as int) =~= bursts@.map_values(
            |b: Vec<u16>| b@,
        ));
    }
    Some(Frame { samples })
}

#[verifier::external_type_specification]
#[verifier::external_body]
#[verifier::reject_recursive_types(T)]
pub struct ExArrayQueue<T>(ArrayQueue<T>);

/// The frames a bounded hand-off queue holds, oldest first.
pub uninterp spec fn queue_frames(q: ArrayQueue<Frame>) -> Seq<Seq<u16>>;

/// The capacity the bounded hand-off queue was created with.
pub uninterp spec fn queue_bound(q: ArrayQueue<Frame>) -> nat;

/// Relies on crossbeam's `ArrayQueue::new`: the new queue is empty and was
/// created with the given capacity. `new` panics on capacity zero (and on a
/// capacity too large to allocate), which the precondition rules out.
#[verifier::external_body]
fn queue_new(cap: usize) -> (q: ArrayQueue<Frame>)
    requires
        1 <= cap <= 65536,
    ensures
        queue_frames(q) == Seq::<Seq<u16>>::empty(),
        queue_bound(q) == cap,
{
    ArrayQueue::new(cap)
}

/// Relies on crossbeam's `ArrayQueue::push_mut`: under exclusive access the
/// element is appended at the tail, unless the queue already holds
/// `capacity` elements, in which case it is handed back as the error and the
/// queue is unchanged.
#[verifier::external_body]
fn queue_push(q: &mut ArrayQueue<Frame>, frame: Frame) -> (r: Result<(), Frame>)
    ensures
        queue_bound(*final(q)) == queue_bound(*old(q)),
        queue_frames(*old(q)).len() < queue_bound(*old(q)) ==> {
            &&& r is Ok
            &&& queue_frames(*final(q)) == queue_frames(*old(q)).push(frame@)
        },
        queue_frames(*old(q)).len() >= queue_bound(*old(q)) ==> {
            &&& r matches Err(back) && back@ == frame@
            &&& queue_frames(*final(q)) == queue_frames(*old(q))
        },
{
    q.push_mut(frame)
}

/// Relies on crossbeam's `ArrayQueue::pop_mut`: under exclusive access the
/// oldest element is removed and returned, or `None` on an empty queue.
#[verifier::external_body]
fn queue_pop(q: &mut ArrayQueue<Frame>) -> (r: Option<Frame>)
    ensures
        queue_bound(*final(q)) == queue_bound(*old(q)),
        queue_frames(*old(q)).len() == 0 ==> {
            &&& r is None
            &&& queue_frames(*final(q)) == queue_frames(*old(q))
        },
        queue_frames(*old(q)).len() > 0 ==> {
            &&& r matches Some(f) && f@ == queue_frames(*old(q))[0]
            &&& queue_frames(*final(q)) == queue_frames(*old(q)).drop_first()
        },
{
    q.pop_mut()
}

/// Relies on crossbeam's `ArrayQueue::len`: under exclusive single-owner use
/// it reports the number of elements currently held.
#[verifier::external_body]
fn queue_len(q: &ArrayQueue<Frame>) -> (n: usize)
    ensures
        n == queue_frames(*q).len(),
{
    q.len()
}

/// Relies on crossbeam's `ArrayQueue::capacity`: it returns the capacity the
/// queue was created with.
#[verifier::external_body]
fn queue_capacity(q: &ArrayQueue<Frame>) -> (n: usize)
    ensures
        n == queue_bound(*q),
{
    q.capacity()
}

/// The error a full queue raises: the consumer fell behind the producer.
/// The rejected frame is handed back rather than dropped.
pub struct PacingViolation {
    pub frame: Frame,
}

/// A bounded single-producer/single-consumer hand-off queue of raw frames.
pub struct FrameQueue {
    queue: ArrayQueue<Frame>,
}

impl FrameQueue {
    /// The frames currently waiting, oldest first, each as its sample words.
    pub closed spec fn frames(&self) -> Seq<Seq<u16>> {
        queue_frames(self.queue)
    }

    /// The fixed capacity the queue was created with.
    pub closed spec fn bound(&self) -> nat {
        queue_bound(self.queue)
    }

    /// Creates an empty queue of the given capacity.
    pub fn new(capacity: usize) -> (q: FrameQueue)
        requires
            1 <= capacity <= 65536,
        ensures
            q.frames() == Seq::<Seq<u16>>::empty(),
            q.bound() == capacity,
    {
        FrameQueue { queue: queue_new(capacity) }
    }

    /// Submits one whole frame. Succeeds, appending the frame behind every
    /// frame already waiting, exactly when the queue is below capacity;
    /// a full queue is a pacing violation and hands the frame back unchanged.
    pub fn send(&mut self, frame: Frame) -> (r: Result<(), PacingViolation>)
        ensures
            final(self).bound() == old(self).bound(),
            old(self).frames().len() < old(self).bound() ==> {
                &&& r is Ok
                &&& final(self).frames() == old(self).frames().push(frame@)
            },
            old(self).frames().len() >= old(self).bound() ==> {
                &&& r matches Err(v) && v.frame@ == frame@
                &&& final(self).frames() == old(self).frames()
            },
    {
        match queue_push(&mut self.queue, frame) {
            Ok(()) => Ok(()),
            Err(back) => Err(PacingViolation { frame: back }),
        }
    }

    /// Receives the oldest waiting frame, or `None` exactly when the queue
    /// is empty. The remaining frames keep their order.
    pub fn recv(&mut self) -> (r: Option<Frame>)
        ensures
            final(self).bound() == old(self).bound(),
            old(self).frames().len() == 0 ==> {
                &&& r is None
                &&& final(self).frames() == old(self).frames()
            },
            old(self).frames().len() > 0 ==> {
                &&& r matches Some(f) && f@ == old(self).frames()[0]
                &&& final(self).frames() == old(self).frames().drop_first()
            },
    {
        queue_pop(&mut self.queue)
    }

    /// The number of frames currently waiting.
    pub fn len(&self) -> (n: usize)
        ensures
            n == self.frames().len(),
    {
        queue_len(&self.queue)
    }

    /// The capacity the queue was created with.
    pub fn capacity(&self) -> (n: usize)
        ensures
            n == self.bound(),
    {
        queue_capacity(&self.queue)
    }

    /// Receives every waiting frame, in order. The queue is left empty and
    /// the returned frames are exactly the frames that were waiting.
    pub fn drain(&mut self) -> (v: Vec<Frame>)
        ensures
            final(self).bound() == old(self).bound(),
            final(self).frames().len() == 0,
            v@.len() == old(self).frames().len(),
            forall|i: int| 0 <= i < v@.len() ==> v@[i]@ == old(self).frames()[i],
    {
        let mut v: Vec<Frame> = Vec::new();
        loop
            invariant
                self.bound() == old(self).bound(),
                v@.len() + self.frames().len() == old(self).frames().len(),
                forall|i: int| 0 <= i < v@.len() ==> v@[i]@ == old(self).frames()[i],
                forall|j: int| 0 <= j < self.frames().len()
                    ==> self.frames()[j] == old(self).frames()[v@.len() + j],
            ensures
                self.bound() == old(self).bound(),
                self.frames().len() == 0,
                v@.len() == old(self).frames().len(),
                forall|i: int| 0 <= i < v@.len() ==> v@[i]@ == old(self).frames()[i],
            decreases self.frames().len(),
        {
            match self.recv() {
                Some(f) => {
                    v.push(f);
                }
                None => {
                    break;
                }
            }
        }
        v
    }
}

/// The queue model after `k` receives from a queue holding `frames`.
pub open spec fn after_receives(frames: Seq<Seq<u16>>, k: int) -> Seq<Seq<u16>>
    decreases k,
{
    if k <= 0 {
        frames
    } else {
        after_receives(frames.drop_first(), k - 1)
    }
}

/// First-in, first-out law of the hand-off queue model: after `k` frames
/// have been received from a queue holding `frames`, the next receive
/// returns `frames[k]`. Together with the contract of [`FrameQueue::send`]
/// (which appends at the tail), sending K frames and then receiving K times
/// yields them in the original order with no omissions.
pub proof fn lemma_queue_fifo(frames: Seq<Seq<u16>>, k: int)
    requires
        0 <= k < frames.len(),
    ensures
        after_receives(frames, k).len() == frames.len() - k,
        after_receives(frames, k)[0] == frames[k],
    decreases k,
{
    if k > 0 {
        lemma_queue_fifo(frames.drop_first(), k - 1);
    }
}

} // verus!
