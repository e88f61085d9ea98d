//! Bounded hand-over of frames from capture to processing: a permit count
//! for the frames being processed and a fixed-capacity queue for those that
//! wait, with an eviction policy for when the queue is full.

use vstd::prelude::*;

verus! {

/// A frame that waits for processing.
#[derive(Clone, Copy, PartialEq, Eq, Structural, Debug)]
pub struct QueuedFrame {
    pub frame_number: u64,
    pub captured_ms: u64,
}

/// Which frame gives way when a frame arrives at a full queue.
#[derive(Clone, Copy, PartialEq, Eq, Structural, Debug)]
pub enum DropPolicy {
    /// The frame that has waited longest leaves; the new one joins the queue.
    Oldest,
    /// The new frame is turned away.
    Newest,
}

/// What became of a frame that was offered for processing.
#[derive(Clone, Copy, PartialEq, Eq, Structural, Debug)]
pub enum Submission {
    /// A permit was free: the frame is to be processed now.
    Started,
    /// All permits are taken: the frame waits.
    Queued,
    /// The queue was full: the frame named here was dropped.
    Dropped(QueuedFrame),
}

/// What follows when processing of a frame is reported as ended.
#[derive(Clone, Copy, PartialEq, Eq, Structural, Debug)]
pub enum Completion {
    /// No frame with that number is being processed: nothing changed.
    NotInFlight,
    /// The permit is free again.
    Finished,
    /// The frame named here takes over the permit: it is to be processed now.
    Next(QueuedFrame),
}

/// The permits and the waiting frames of one run.
pub struct ProcessingQueue {
    pub ceiling: usize,
    pub capacity: usize,
    pub policy: DropPolicy,
    pub in_flight: Vec<QueuedFrame>,
    pub waiting: Vec<QueuedFrame>,
}

/// What a queue holds: its limits and policy, the frames being processed,
/// and the frames that wait, oldest first.
pub struct QueueState {
    pub ceiling: usize,
    pub capacity: usize,
    pub policy: DropPolicy,
    pub in_flight: Seq<QueuedFrame>,
    pub waiting: Seq<QueuedFrame>,
}

/// Whether a frame captured at `captured_ms` has waited longer than
/// `staleness_ms` at time `now_ms`.
pub open spec fn is_stale(captured_ms: u64, now_ms: u64, staleness_ms: u64) -> bool {
    now_ms - captured_ms > staleness_ms
}

/// The number of leading frames of `waiting` that are stale.
pub open spec fn stale_prefix(waiting: Seq<QueuedFrame>, now_ms: u64, staleness_ms: u64) -> nat
    decreases waiting.len(),
{
    if waiting.len() > 0 && is_stale(waiting[0].captured_ms, now_ms, staleness_ms) {
        1 + stale_prefix(waiting.drop_first(), now_ms, staleness_ms)
    } else {
        0
    }
}

/// The place of the first frame with number `frame_number` in `frames`, or
/// the length of `frames` if there is none.
pub open spec fn position(frames: Seq<QueuedFrame>, frame_number: u64) -> int
    decreases frames.len(),
{
    if frames.len() == 0 || frames[0].frame_number == frame_number {
        0
    } else {
        1 + position(frames.drop_first(), frame_number)
    }
}

/// `position` gives a place within the sequence or its length, the frame at
/// that place has the number asked for, and no frame before it has.
pub proof fn lemma_position(frames: Seq<QueuedFrame>, frame_number: u64)
    ensures
        0 <= position(frames, frame_number) <= frames.len(),
        position(frames, frame_number) < frames.len() ==> frames[position(
            frames,
            frame_number,
        )].frame_number == frame_number,
        forall|k: int|
            0 <= k < position(frames, frame_number) ==> (#[trigger] frames[k]).frame_number
                != frame_number,
    decreases frames.len(),
{
    if frames.len() > 0 && frames[0].frame_number != frame_number {
        let rest = frames.drop_first();
        lemma_position(rest, frame_number);
        assert forall|k: int| 0 <= k < position(frames, frame_number) implies (
        #[trigger] frames[k]).frame_number != frame_number by {
            if k > 0 {
                assert(frames[k] == rest[k - 1]);
            }
        }
    }
}

proof fn lemma_position_found(frames: Seq<QueuedFrame>, frame_number: u64, p: int)
    requires
        0 <= p <= frames.len(),
        forall|k: int| 0 <= k < p ==> (#[trigger] frames[k]).frame_number != frame_number,
        p < frames.len() ==> frames[p].frame_number == frame_number,
    ensures
        position(frames, frame_number) == p,
    decreases frames.len(),
{
    if frames.len() > 0 && p > 0 {
        let rest = frames.drop_first();
        assert(frames[0].frame_number != frame_number);
        assert forall|k: int| 0 <= k < p - 1 implies (#[trigger] rest[k]).frame_number
            != frame_number by {
            assert(rest[k] == frames[k + 1]);
        }
        lemma_position_found(rest, frame_number, p - 1);
    }
}

impl QueueState {
    /// At least one frame can be processed at a time, no more frames are in
    /// flight than the ceiling allows, no more wait than the queue can hold,
    /// and a frame waits only while every permit is taken.
    pub open spec fn wf(self) -> bool {
        &&& self.ceiling >= 1
        &&& self.in_flight.len() <= self.ceiling
        &&& self.waiting.len() <= self.capacity
        &&& (self.waiting.len() > 0 ==> self.in_flight.len() == self.ceiling)
    }

    /// The queue after a frame was offered, and what became of the frame.
    ///
    /// With a permit free the frame starts at once. Otherwise it waits, if
    /// the queue has room. At a full queue one frame is dropped: under
    /// `DropPolicy::Oldest` the head of the queue, and the new frame takes
    /// the last place; under `DropPolicy::Newest`, or where the queue holds
    /// no frame at all, the new frame.
    pub open spec fn submitted(self, frame: QueuedFrame) -> (QueueState, Submission) {
        if self.in_flight.len() < self.ceiling {
            (QueueState { in_flight: self.in_flight.push(frame), ..self }, Submission::Started)
        } else if self.waiting.len() < self.capacity {
            (QueueState { waiting: self.waiting.push(frame), ..self }, Submission::Queued)
        } else if self.waiting.len() > 0 && self.policy == DropPolicy::Oldest {
            (
                QueueState { waiting: self.waiting.drop_first().push(frame), ..self },
                Submission::Dropped(self.waiting[0]),
            )
        } else {
            (self, Submission::Dropped(frame))
        }
    }

    /// The queue after processing of the frame with number `frame_number`
    /// was reported as ended. Only a frame in flight can end: for any other
    /// number nothing changes. The frame leaves, and the frame that has
    /// waited longest, if one waits, takes over its permit.
    pub open spec fn completed(self, frame_number: u64) -> (QueueState, Completion) {
        let p = position(self.in_flight, frame_number);
        if p >= self.in_flight.len() {
            (self, Completion::NotInFlight)
        } else if self.waiting.len() > 0 {
            (
                QueueState {
                    in_flight: self.in_flight.remove(p).push(self.waiting[0]),
                    waiting: self.waiting.drop_first(),
                    ..self
                },
                Completion::Next(self.waiting[0]),
            )
        } else {
            (QueueState { in_flight: self.in_flight.remove(p), ..self }, Completion::Finished)
        }
    }

    /// The queue without the stale frames at its head, and those frames.
    pub open spec fn evicted(self, now_ms: u64, staleness_ms: u64) -> (
        QueueState,
        Seq<QueuedFrame>,
    ) {
        let n = stale_prefix(self.waiting, now_ms, staleness_ms) as int;
        (
            QueueState { waiting: self.waiting.subrange(n, self.waiting.len() as int), ..self },
            self.waiting.subrange(0, n),
        )
    }
}

impl View for ProcessingQueue {
    type V = QueueState;

    open spec fn view(&self) -> QueueState {
        QueueState {
            ceiling: self.ceiling,
            capacity: self.capacity,
            policy: self.policy,
            in_flight: self.in_flight@,
            waiting: self.waiting@,
        }
    }
}

impl ProcessingQueue {
    /// A queue with nothing in flight and nothing waiting. There is none
    /// with a ceiling of zero.
    pub fn new(ceiling: usize, capacity: usize, policy: DropPolicy) -> (q: Option<Self>)
        ensures
            ceiling == 0 <==> q is None,
            q matches Some(q) ==> q@.wf() && q@ == (QueueState {
                ceiling,
                capacity,
                policy,
                in_flight: Seq::empty(),
                waiting: Seq::empty(),
            }),
    {
        if ceiling == 0 {
            None
        } else {
            Some(
                ProcessingQueue {
                    ceiling,
                    capacity,
                    policy,
                    in_flight: Vec::new(),
                    waiting: Vec::new(),
                },
            )
        }
    }

    /// Offers a captured frame for processing.
    pub fn submit(&mut self, frame: QueuedFrame) -> (s: Submission)
        requires
            old(self)@.wf(),
        ensures
            final(self)@.wf(),
            (final(self)@, s) == old(self)@.submitted(frame),
    {
        if self.in_flight.len() < self.ceiling {
            self.in_flight.push(frame);
            Submission::Started
        } else if self.waiting.len() < self.capacity {
            self.waiting.push(frame);
            Submission::Queued
        } else if self.waiting.len() == 0 {
            Submission::Dropped(frame)
        } else {
            match self.policy {
                DropPolicy::Oldest => {
                    let oldest = self.waiting.remove(0);
                    self.waiting.push(frame);
                    assert(old(self).waiting@.remove(0) =~= old(self).waiting@.drop_first());
                    Submission::Dropped(oldest)
                },
                DropPolicy::Newest => Submission::Dropped(frame),
            }
        }
    }

    /// Records that processing of the frame with number `frame_number` has
    /// ended, with a record or without. A number that is not in flight
    /// changes nothing.
    pub fn complete(&mut self, frame_number: u64) -> (c: Completion)
        requires
            old(self)@.wf(),
        ensures
            final(self)@.wf(),
            (final(self)@, c) == old(self)@.completed(frame_number),
    {
        let mut p: usize = 0;
        while p < self.in_flight.len() && self.in_flight[p].frame_number != frame_number
            invariant
                *self == *old(self),
                p <= self.in_flight@.len(),
                forall|k: int|
                    0 <= k < p ==> (#[trigger] self.in_flight@[k]).frame_number != frame_number,
            decreases self.in_flight@.len() - p,
        {
            p = p + 1;
        }
        proof {
            lemma_position_found(self.in_flight@, frame_number, p as int);
        }
        if p >= self.in_flight.len() {
            return Completion::NotInFlight;
        }
        self.in_flight.remove(p);
        if self.waiting.len() > 0 {
            let next = self.waiting.remove(0);
            assert(old(self).waiting@.remove(0) =~= old(self).waiting@.drop_first());
            self.in_flight.push(next);
            Completion::Next(next)
        } else {
            Completion::Finished
        }
    }

    /// Drops from the head of the queue every frame that has waited longer
    /// than `staleness_ms`, up to the first that has not, and returns the
    /// dropped frames, oldest first.
    pub fn evict_stale(&mut self, now_ms: u64, staleness_ms: u64) -> (dropped: Vec<QueuedFrame>)
        requires
            old(self)@.wf(),
        ensures
            final(self)@.wf(),
            (final(self)@, dropped@) == old(self)@.evicted(now_ms, staleness_ms),
            old(self)@.waiting == dropped@ + final(self)@.waiting,
    {
        let mut dropped: Vec<QueuedFrame> = Vec::new();
        let ghost before = self.waiting@;
        assert(self.waiting@ =~= before.subrange(0, before.len() as int));
        assert(dropped@ =~= before.subrange(0, 0));
        while self.waiting.len() > 0 && frame_is_stale(&self.waiting[0], now_ms, staleness_ms)
            invariant
                self@.wf(),
                self.ceiling == old(self).ceiling,
                self.capacity == old(self).capacity,
                self.policy == old(self).policy,
                self.in_flight == old(self).in_flight,
                before == old(self).waiting@,
                dropped@.len() <= before.len(),
                dropped@ == before.subrange(0, dropped@.len() as int),
                self.waiting@ == before.subrange(dropped@.len() as int, before.len() as int),
                dropped@.len() + stale_prefix(self.waiting@, now_ms, staleness_ms) == stale_prefix(
                    before,
                    now_ms,
                    staleness_ms,
                ),
            decreases self.waiting@.len(),
        {
            let ghost w = self.waiting@;
            let f = self.waiting.remove(0);
            dropped.push(f);
            proof {
                assert(w.remove(0) =~= w.drop_first());
                assert(self.waiting@ =~= before.subrange(
                    dropped@.len() as int,
                    before.len() as int,
                ));
                assert(dropped@ =~= before.subrange(0, dropped@.len() as int));
            }
        }
        assert(before =~= dropped@ + self.waiting@);
        dropped
    }
}

/// Whether `frame` has waited longer than `staleness_ms` at time `now_ms`.
pub fn frame_is_stale(frame: &QueuedFrame, now_ms: u64, staleness_ms: u64) -> (b: bool)
    ensures
        b == is_stale(frame.captured_ms, now_ms, staleness_ms),
{
    now_ms > frame.captured_ms && now_ms - frame.captured_ms > staleness_ms
}

} // verus!
