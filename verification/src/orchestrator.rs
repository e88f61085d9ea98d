//! The orchestrator of one run: it checks the configuration, numbers the
//! frames, hands each frame to the enabled sinks, keeps processing within
//! its bounds, and assembles the ordered result.

use crate::capture::{
    millis_of, CaptureConfig, CaptureFailure, ConfigError, FrameSource, Poll, StopReason,
};
use crate::chunk::{Accepted, Chunk, ChunkedVideoWriter};
use crate::image::{
    distinct_frames, lemma_distinct_frames_kept, ordered_by_frame, sort_by_frame_number,
    TextRecord,
};
use crate::pipeline::{advance, next_state, PipelineResult, RunEvent, RunState};
use crate::queue::{
    lemma_position, position, Completion, DropPolicy, ProcessingQueue, QueueState, QueuedFrame,
    Submission,
};
use crate::types::ProcessorConfig;
use vstd::prelude::*;

verus! {

/// The bounds on processing: how many frames may be processed at a time,
/// how many may wait, and which frame gives way at a full queue.
#[derive(Clone, Copy, PartialEq, Eq, Structural, Debug)]
pub struct ProcessingLimits {
    pub ceiling: usize,
    pub capacity: usize,
    pub policy: DropPolicy,
}

/// Where one captured frame goes.
#[derive(Clone, Copy, PartialEq, Eq, Debug)]
pub struct FanOut {
    pub frame_index: u64,
    /// What the video writer made of the frame, where video is saved.
    pub video: Option<Accepted>,
    /// Whether the frame is to be saved as a screenshot.
    pub screenshot: bool,
    /// What the processing queue made of the frame.
    pub processing: Submission,
}

/// How processing of one frame ended: with the text found and the frame's
/// time, or without, after its retry.
pub enum ProcessingResult {
    Text { text: String, timestamp: String },
    Failed,
}

/// The state of one run.
pub struct Orchestrator {
    pub state: RunState,
    pub source: FrameSource,
    pub writer: Option<ChunkedVideoWriter>,
    pub save_screenshot: bool,
    pub processor: ProcessorConfig,
    pub queue: ProcessingQueue,
    pub records: Vec<TextRecord>,
    pub skipped: Vec<u64>,
}

/// What a run leaves behind.
pub struct Finished {
    pub state: RunState,
    pub result: PipelineResult,
    pub last_chunk: Option<Chunk>,
}

/// The event that a stopping frame source is to the run.
pub open spec fn event_of(reason: StopReason) -> RunEvent {
    match reason {
        StopReason::Cancelled => RunEvent::Cancelled,
        StopReason::DurationElapsed => RunEvent::StreamEnded,
        StopReason::MaxFramesReached => RunEvent::StreamEnded,
        StopReason::FatalCapture => RunEvent::FatalCapture,
    }
}

/// Why a run cannot start, if it cannot: the first fault of the capture
/// configuration, or else a processing ceiling of zero.
pub open spec fn start_fault(
    config: CaptureConfig,
    video_dir_writable: bool,
    screenshot_dir_writable: bool,
    limits: ProcessingLimits,
) -> Option<ConfigError> {
    if config.first_fault(video_dir_writable, screenshot_dir_writable) is Some {
        config.first_fault(video_dir_writable, screenshot_dir_writable)
    } else if limits.ceiling == 0 {
        Some(ConfigError::NoProcessingPermit)
    } else {
        None
    }
}

/// The frame numbers of records, in order.
pub open spec fn record_numbers(records: Seq<TextRecord>) -> Seq<u64> {
    records.map_values(|r: TextRecord| r.frame_number)
}

/// The frame numbers of queued frames, in order.
pub open spec fn frame_numbers(frames: Seq<QueuedFrame>) -> Seq<u64> {
    frames.map_values(|f: QueuedFrame| f.frame_number)
}

/// How often `n` occurs in `s`.
pub open spec fn times(s: Seq<u64>, n: u64) -> nat {
    s.to_multiset().count(n)
}

/// The skipped frames after a frame was offered to the queue: a frame that
/// the queue dropped is recorded as skipped.
pub open spec fn skipped_after_submission(skipped: Seq<u64>, s: Submission) -> Seq<u64> {
    match s {
        Submission::Dropped(d) => skipped.push(d.frame_number),
        _ => skipped,
    }
}

proof fn lemma_times_push(s: Seq<u64>, x: u64, n: u64)
    ensures
        times(s.push(x), n) == times(s, n) + (if n == x {
            1nat
        } else {
            0nat
        }),
{
    broadcast use vstd::multiset::group_multiset_axioms;

    vstd::seq_lib::to_multiset_build(s, x);
}

proof fn lemma_times_remove(s: Seq<u64>, i: int, n: u64)
    requires
        0 <= i < s.len(),
    ensures
        times(s.remove(i), n) + (if n == s[i] {
            1nat
        } else {
            0nat
        }) == times(s, n),
{
    broadcast use vstd::multiset::group_multiset_axioms;

    vstd::seq_lib::to_multiset_remove(s, i);
    assert(s.contains(s[i]));
    vstd::seq_lib::to_multiset_contains(s, s[i]);
}

proof fn lemma_times_concat(a: Seq<u64>, b: Seq<u64>, n: u64)
    ensures
        times(a + b, n) == times(a, n) + times(b, n),
{
    broadcast use vstd::multiset::group_multiset_axioms;

    vstd::seq_lib::lemma_multiset_commutative(a, b);
}

proof fn lemma_times_member(s: Seq<u64>, i: int)
    requires
        0 <= i < s.len(),
    ensures
        times(s, s[i]) >= 1,
{
    assert(s.contains(s[i]));
    vstd::seq_lib::to_multiset_contains(s, s[i]);
}

/// What it means that every emitted frame is held exactly once: no two
/// records have the same frame number, no frame is in flight or waits
/// twice, no frame with a record is still in flight or waiting, and every
/// number held is that of a frame that the source has emitted.
pub proof fn lemma_held_once(o: Orchestrator)
    requires
        o.accounted(),
    ensures
        distinct_frames(o.records@),
        frame_numbers(o.queue@.in_flight).no_duplicates(),
        frame_numbers(o.queue@.waiting).no_duplicates(),
        o.skipped@.no_duplicates(),
        forall|i: int|
            0 <= i < o.records@.len() ==> (#[trigger] o.records@[i]).frame_number
                < o.source.next_index,
        forall|i: int|
            0 <= i < o.skipped@.len() ==> (#[trigger] o.skipped@[i]) < o.source.next_index,
        forall|i: int|
            0 <= i < o.queue@.in_flight.len() ==> (#[trigger] o.queue@.in_flight[i]).frame_number
                < o.source.next_index,
        forall|i: int|
            0 <= i < o.queue@.waiting.len() ==> (#[trigger] o.queue@.waiting[i]).frame_number
                < o.source.next_index,
        forall|i: int, j: int|
            0 <= i < o.records@.len() && 0 <= j < o.queue@.in_flight.len() ==> (
            #[trigger] o.records@[i]).frame_number != (
            #[trigger] o.queue@.in_flight[j]).frame_number,
        forall|i: int, j: int|
            0 <= i < o.records@.len() && 0 <= j < o.queue@.waiting.len() ==> (
            #[trigger] o.records@[i]).frame_number != (
            #[trigger] o.queue@.waiting[j]).frame_number,
{
    let rec = record_numbers(o.records@);
    let fly = frame_numbers(o.queue@.in_flight);
    let wait = frame_numbers(o.queue@.waiting);
    let skip = o.skipped@;
    assert forall|x: u64| rec.to_multiset().contains(x) implies rec.to_multiset().count(x)
        == 1 by {
        assert(o.held(x) <= 1);
    }
    assert forall|x: u64| fly.to_multiset().contains(x) implies fly.to_multiset().count(x)
        == 1 by {
        assert(o.held(x) <= 1);
    }
    assert forall|x: u64| wait.to_multiset().contains(x) implies wait.to_multiset().count(x)
        == 1 by {
        assert(o.held(x) <= 1);
    }
    assert forall|x: u64| skip.to_multiset().contains(x) implies skip.to_multiset().count(x)
        == 1 by {
        assert(o.held(x) <= 1);
    }
    rec.lemma_multiset_has_no_duplicates_conv();
    fly.lemma_multiset_has_no_duplicates_conv();
    wait.lemma_multiset_has_no_duplicates_conv();
    skip.lemma_multiset_has_no_duplicates_conv();
    assert forall|i: int, j: int|
        0 <= i < o.records@.len() && 0 <= j < o.records@.len() && i
            != j implies o.records@[i].frame_number != o.records@[j].frame_number by {
        assert(rec[i] == o.records@[i].frame_number);
        assert(rec[j] == o.records@[j].frame_number);
    }
    assert forall|i: int| 0 <= i < o.records@.len() implies (
    #[trigger] o.records@[i]).frame_number < o.source.next_index by {
        assert(rec[i] == o.records@[i].frame_number);
        lemma_times_member(rec, i);
        assert(o.held(rec[i]) >= 1);
    }
    assert forall|i: int| 0 <= i < skip.len() implies (#[trigger] skip[i])
        < o.source.next_index by {
        lemma_times_member(skip, i);
        assert(o.held(skip[i]) >= 1);
    }
    assert forall|i: int| 0 <= i < o.queue@.in_flight.len() implies (
    #[trigger] o.queue@.in_flight[i]).frame_number < o.source.next_index by {
        assert(fly[i] == o.queue@.in_flight[i].frame_number);
        lemma_times_member(fly, i);
        assert(o.held(fly[i]) >= 1);
    }
    assert forall|i: int| 0 <= i < o.queue@.waiting.len() implies (
    #[trigger] o.queue@.waiting[i]).frame_number < o.source.next_index by {
        assert(wait[i] == o.queue@.waiting[i].frame_number);
        lemma_times_member(wait, i);
        assert(o.held(wait[i]) >= 1);
    }
    assert forall|i: int, j: int|
        0 <= i < o.records@.len() && 0 <= j < o.queue@.in_flight.len() implies (
    #[trigger] o.records@[i]).frame_number != (
    #[trigger] o.queue@.in_flight[j]).frame_number by {
        assert(rec[i] == o.records@[i].frame_number);
        assert(fly[j] == o.queue@.in_flight[j].frame_number);
        lemma_times_member(rec, i);
        lemma_times_member(fly, j);
        assert(o.held(rec[i]) <= 1);
    }
    assert forall|i: int, j: int|
        0 <= i < o.records@.len() && 0 <= j < o.queue@.waiting.len() implies (
    #[trigger] o.records@[i]).frame_number != (
    #[trigger] o.queue@.waiting[j]).frame_number by {
        assert(rec[i] == o.records@[i].frame_number);
        assert(wait[j] == o.queue@.waiting[j].frame_number);
        lemma_times_member(rec, i);
        lemma_times_member(wait, j);
        assert(o.held(rec[i]) <= 1);
    }
}

fn run_event(reason: StopReason) -> (e: RunEvent)
    ensures
        e == event_of(reason),
{
    match reason {
        StopReason::Cancelled => RunEvent::Cancelled,
        StopReason::DurationElapsed | StopReason::MaxFramesReached => RunEvent::StreamEnded,
        StopReason::FatalCapture => RunEvent::FatalCapture,
    }
}

impl Orchestrator {
    /// How many times the frame with number `n` is held: among the records,
    /// the skipped frames, the frames in flight and the frames that wait.
    pub open spec fn held(&self, n: u64) -> nat {
        times(record_numbers(self.records@), n) + times(self.skipped@, n) + times(
            frame_numbers(self.queue@.in_flight),
            n,
        ) + times(frame_numbers(self.queue@.waiting), n)
    }

    /// Every frame that the source has emitted is held exactly once: as a
    /// record, as skipped, in flight or waiting. No other frame is held.
    pub open spec fn accounted(&self) -> bool {
        &&& forall|n: u64| #[trigger]
            self.held(n) == (if n < self.source.next_index {
                1nat
            } else {
                0nat
            })
        &&& self.source.next_index == self.records@.len() + self.skipped@.len()
            + self.queue@.in_flight.len() + self.queue@.waiting.len()
    }

    /// Every record carries the tag of the run's kind of processing.
    pub open spec fn tagged(&self) -> bool {
        forall|i: int|
            0 <= i < self.records@.len() ==> (#[trigger] self.records@[i]).processing_type@
                == self.processor.tag()
    }

    /// Every part is well formed, and the run is running exactly as long as
    /// its frame source has not stopped.
    pub open spec fn parts_wf(&self) -> bool {
        &&& self.source.wf()
        &&& self.queue@.wf()
        &&& (self.writer matches Some(w) ==> w.wf())
        &&& (self.state == RunState::Running || self.state == RunState::Draining || self.state
            == RunState::FailedFatal)
        &&& (self.state == RunState::Running <==> self.source.stopped is None)
    }

    /// The parts are well formed, every emitted frame is held exactly once,
    /// and every record carries the run's tag.
    pub open spec fn wf(&self) -> bool {
        self.parts_wf() && self.accounted() && self.tagged()
    }

    /// Checks the configuration and, if it is sound, sets up a run that has
    /// captured nothing yet. The caller has probed the output directories
    /// that the configuration names and says whether each can be written.
    /// A configuration with a fault starts nothing: no frame is captured
    /// for it.
    pub fn start(
        config: &CaptureConfig,
        video_dir_writable: bool,
        screenshot_dir_writable: bool,
        processor: ProcessorConfig,
        limits: ProcessingLimits,
    ) -> (r: Result<Orchestrator, ConfigError>)
        ensures
            r is Ok <==> config.valid(video_dir_writable, screenshot_dir_writable) && limits.ceiling
                > 0,
            r matches Err(e) ==> Some(e) == start_fault(
                *config,
                video_dir_writable,
                screenshot_dir_writable,
                limits,
            ),
            r matches Ok(o) ==> o.wf() && o.state == RunState::Running && o.source == (FrameSource {
                max_frames: config.max_frames,
                duration_ms: match config.duration_secs {
                    Some(d) => Some(millis_of(d)),
                    None => None,
                },
                next_index: 0,
                retrying: false,
                stopped: None,
            }) && o.writer == (if config.save_video {
                Some(
                    ChunkedVideoWriter {
                        chunk_duration_ms: millis_of(config.video_chunk_duration_secs),
                        next_sequence: 0,
                        last_frame: None,
                        open: None,
                    },
                )
            } else {
                None
            }) && o.save_screenshot == config.save_screenshot && o.processor == processor
                && o.queue@ == (QueueState {
                ceiling: limits.ceiling,
                capacity: limits.capacity,
                policy: limits.policy,
                in_flight: Seq::empty(),
                waiting: Seq::empty(),
            }) && o.records@ == Seq::<TextRecord>::empty() && o.skipped@ == Seq::<u64>::empty(),
    {
        match config.validate(video_dir_writable, screenshot_dir_writable) {
            Err(e) => {
                return Err(e);
            },
            Ok(_) => {},
        }
        let queue = match ProcessingQueue::new(limits.ceiling, limits.capacity, limits.policy) {
            Some(q) => q,
            None => {
                return Err(ConfigError::NoProcessingPermit);
            },
        };
        let writer = if config.save_video {
            ChunkedVideoWriter::new(config.video_chunk_duration_ms())
        } else {
            None
        };
        let o = Orchestrator {
            state: RunState::Running,
            source: FrameSource::new(config.max_frames, config.duration_ms()),
            writer,
            save_screenshot: config.save_screenshot,
            processor,
            queue,
            records: Vec::new(),
            skipped: Vec::new(),
        };
        proof {
            broadcast use vstd::multiset::group_multiset_axioms;

            assert(record_numbers(o.records@) =~= Seq::<u64>::empty());
            assert(frame_numbers(o.queue@.in_flight) =~= Seq::<u64>::empty());
            assert(frame_numbers(o.queue@.waiting) =~= Seq::<u64>::empty());
            assert(o.skipped@ =~= Seq::<u64>::empty());
            assert(Seq::<u64>::empty().to_multiset() =~= vstd::multiset::Multiset::<u64>::empty())
                by {
                broadcast use vstd::seq_lib::group_to_multiset_ensures;

            }
            assert forall|n: u64| #[trigger] o.held(n) == 0 by {}
        }
        Ok(o)
    }

    /// Decides at a tick whether to capture. When the frame source stops,
    /// the run leaves `Running`: for `Draining`, or for `FailedFatal` where
    /// the source stopped on a fatal capture error.
    pub fn tick(&mut self, elapsed_ms: u64, cancelled: bool) -> (p: Poll)
        requires
            old(self).wf(),
        ensures
            final(self).wf(),
            final(self).source == old(self).source.polled(elapsed_ms, cancelled),
            match old(self).source.stop_reason(elapsed_ms, cancelled) {
                Some(r) => p == Poll::Stop(r) && final(self).state == next_state(
                    old(self).state,
                    event_of(r),
                ),
                None => p == Poll::Capture && final(self).state == old(self).state,
            },
            final(self).writer == old(self).writer,
            final(self).save_screenshot == old(self).save_screenshot,
            final(self).processor == old(self).processor,
            final(self).queue@ == old(self).queue@,
            final(self).records@ == old(self).records@,
            final(self).skipped@ == old(self).skipped@,
    {
        let p = self.source.poll(elapsed_ms, cancelled);
        match p {
            Poll::Stop(r) => {
                self.state = advance(self.state, run_event(r));
            },
            Poll::Capture => {},
        }
        proof {
            assert forall|n: u64| #[trigger] self.held(n) == old(self).held(n) by {}
        }
        p
    }

    /// Takes a frame that was captured at `timestamp_ms`: gives it its
    /// index and hands it to every enabled sink. A frame that the queue
    /// drops is recorded as skipped. A source that has stopped, or that has
    /// emitted as many frames as it may, takes no frame.
    pub fn frame_captured(&mut self, timestamp_ms: u64) -> (f: Option<FanOut>)
        requires
            old(self).wf(),
        ensures
            final(self).wf(),
            final(self).state == old(self).state,
            final(self).save_screenshot == old(self).save_screenshot,
            final(self).processor == old(self).processor,
            final(self).records@ == old(self).records@,
            final(self).source == old(self).source.after_capture(),
            !old(self).source.can_emit() ==> f is None && final(self).writer == old(self).writer
                && final(self).queue@ == old(self).queue@,
            !old(self).source.can_emit() ==> final(self).skipped@ == old(self).skipped@,
            old(self).source.can_emit() ==> ({
                let i = old(self).source.next_index;
                let queued = old(self).queue@.submitted(
                    QueuedFrame { frame_number: i, captured_ms: timestamp_ms },
                );
                &&& f == Some(
                    FanOut {
                        frame_index: i,
                        video: match old(self).writer {
                            Some(w) => Some(w.accepted(i, timestamp_ms).1),
                            None => None,
                        },
                        screenshot: old(self).save_screenshot,
                        processing: queued.1,
                    },
                )
                &&& final(self).writer == match old(self).writer {
                    Some(w) => Some(w.accepted(i, timestamp_ms).0),
                    None => None,
                }
                &&& final(self).queue@ == queued.0
                &&& final(self).skipped@ == skipped_after_submission(old(self).skipped@, queued.1)
            }),
    {
        let i = match self.source.captured() {
            Some(i) => i,
            None => {
                proof {
                    assert forall|n: u64| #[trigger] self.held(n) == old(self).held(n) by {}
                }
                return None;
            },
        };
        let video = match self.writer {
            Some(w) => {
                let mut w = w;
                let a = w.accept(i, timestamp_ms);
                self.writer = Some(w);
                Some(a)
            },
            None => None,
        };
        let frame = QueuedFrame { frame_number: i, captured_ms: timestamp_ms };
        let processing = self.queue.submit(frame);
        match processing {
            Submission::Dropped(d) => {
                self.skipped.push(d.frame_number);
            },
            _ => {},
        }
        proof {
            let flight = old(self).queue@.in_flight;
            let wait = old(self).queue@.waiting;
            assert forall|n: u64| #[trigger]
                self.held(n) == (if n < self.source.next_index {
                    1nat
                } else {
                    0nat
                }) by {
                assert(old(self).held(n) == (if n < i {
                    1nat
                } else {
                    0nat
                }));
                match processing {
                    Submission::Started => {
                        assert(frame_numbers(flight.push(frame)) =~= frame_numbers(flight).push(i));
                        lemma_times_push(frame_numbers(flight), i, n);
                    },
                    Submission::Queued => {
                        assert(frame_numbers(wait.push(frame)) =~= frame_numbers(wait).push(i));
                        lemma_times_push(frame_numbers(wait), i, n);
                    },
                    Submission::Dropped(d) => {
                        lemma_times_push(old(self).skipped@, d.frame_number, n);
                        if d != frame {
                            assert(frame_numbers(wait.drop_first().push(frame)) =~= frame_numbers(
                                wait,
                            ).remove(0).push(i));
                            lemma_times_remove(frame_numbers(wait), 0, n);
                            lemma_times_push(frame_numbers(wait).remove(0), i, n);
                        } else if self.queue@.waiting != wait {
                            assert(frame_numbers(wait.drop_first().push(frame)) =~= frame_numbers(
                                wait,
                            ).remove(0).push(i));
                            lemma_times_remove(frame_numbers(wait), 0, n);
                            lemma_times_push(frame_numbers(wait).remove(0), i, n);
                        }
                    },
                }
            }
        }
        Some(FanOut { frame_index: i, video, screenshot: self.save_screenshot, processing })
    }

    /// Records a capture that failed. The first failure is retried at once;
    /// the second in a row is fatal: the source stops and the run fails.
    pub fn capture_failed(&mut self) -> (f: CaptureFailure)
        requires
            old(self).wf(),
        ensures
            final(self).wf(),
            final(self).source == old(self).source.after_failure(),
            f == CaptureFailure::RetryNow <==> old(self).state == RunState::Running
                && !old(self).source.retrying,
            f == CaptureFailure::Fatal ==> final(self).state == next_state(
                old(self).state,
                RunEvent::FatalCapture,
            ),
            f == CaptureFailure::RetryNow ==> final(self).state == old(self).state,
            final(self).writer == old(self).writer,
            final(self).save_screenshot == old(self).save_screenshot,
            final(self).processor == old(self).processor,
            final(self).queue@ == old(self).queue@,
            final(self).records@ == old(self).records@,
            final(self).skipped@ == old(self).skipped@,
    {
        let f = self.source.capture_failed();
        match f {
            CaptureFailure::Fatal => {
                self.state = advance(self.state, RunEvent::FatalCapture);
            },
            CaptureFailure::RetryNow => {},
        }
        proof {
            assert forall|n: u64| #[trigger] self.held(n) == old(self).held(n) by {}
        }
        f
    }

    /// Records how processing of the frame with number `frame_number`
    /// ended. Only a frame that is in flight can end: for any other number
    /// nothing changes and the result is left out. Text becomes a record
    /// with that number and the tag of the run's kind of processing; a
    /// failure is recorded as skipped. The frame that has waited longest,
    /// if one waits, takes over the permit. The state of the run does not
    /// change: a frame that fails never fails the run.
    pub fn frame_processed(&mut self, frame_number: u64, result: ProcessingResult) -> (c:
        Completion)
        requires
            old(self).wf(),
        ensures
            final(self).wf(),
            final(self).state == old(self).state,
            final(self).source == old(self).source,
            final(self).writer == old(self).writer,
            final(self).save_screenshot == old(self).save_screenshot,
            final(self).processor == old(self).processor,
            (final(self).queue@, c) == old(self).queue@.completed(frame_number),
            c == Completion::NotInFlight ==> final(self).records@ == old(self).records@,
            c == Completion::NotInFlight ==> final(self).skipped@ == old(self).skipped@,
            c != Completion::NotInFlight ==> match result {
                ProcessingResult::Text { text, timestamp } => {
                    let r = final(self).records@.last();
                    &&& final(self).skipped@ == old(self).skipped@
                    &&& final(self).records@ == old(self).records@.push(r)
                    &&& r.text == text
                    &&& r.timestamp == timestamp
                    &&& r.frame_number == frame_number
                    &&& r.processing_type@ == old(self).processor.tag()
                },
                ProcessingResult::Failed => {
                    &&& final(self).records@ == old(self).records@
                    &&& final(self).skipped@ == old(self).skipped@.push(frame_number)
                },
            },
    {
        let c = self.queue.complete(frame_number);
        proof {
            lemma_position(old(self).queue@.in_flight, frame_number);
        }
        match c {
            Completion::NotInFlight => {
                proof {
                    assert forall|n: u64| #[trigger] self.held(n) == old(self).held(n) by {}
                }
                return c;
            },
            _ => {},
        }
        match result {
            ProcessingResult::Text { text, timestamp } => {
                let r = self.processor.record(frame_number, timestamp, text);
                self.records.push(r);
                proof {
                    assert(self.records@.drop_last() =~= old(self).records@);
                    assert(record_numbers(self.records@) =~= record_numbers(
                        old(self).records@,
                    ).push(frame_number));
                }
            },
            ProcessingResult::Failed => {
                self.skipped.push(frame_number);
            },
        }
        proof {
            let flight = old(self).queue@.in_flight;
            let wait = old(self).queue@.waiting;
            let p = position(flight, frame_number);
            assert(frame_numbers(flight)[p] == frame_number);
            assert forall|n: u64| #[trigger] self.held(n) == old(self).held(n) by {
                lemma_times_push(record_numbers(old(self).records@), frame_number, n);
                lemma_times_push(old(self).skipped@, frame_number, n);
                lemma_times_remove(frame_numbers(flight), p, n);
                assert(frame_numbers(flight.remove(p)) =~= frame_numbers(flight).remove(p));
                if wait.len() > 0 {
                    let w = wait[0].frame_number;
                    assert(frame_numbers(flight.remove(p).push(wait[0])) =~= frame_numbers(
                        flight,
                    ).remove(p).push(w));
                    lemma_times_push(frame_numbers(flight).remove(p), w, n);
                    assert(frame_numbers(wait.drop_first()) =~= frame_numbers(wait).remove(0));
                    lemma_times_remove(frame_numbers(wait), 0, n);
                }
            }
        }
        c
    }

    /// Drops the frames at the head of the queue that have waited longer
    /// than `staleness_ms`, records each as skipped, and returns them,
    /// oldest first.
    pub fn evict_stale(&mut self, now_ms: u64, staleness_ms: u64) -> (dropped: Vec<QueuedFrame>)
        requires
            old(self).wf(),
        ensures
            final(self).wf(),
            final(self).state == old(self).state,
            final(self).source == old(self).source,
            final(self).writer == old(self).writer,
            final(self).save_screenshot == old(self).save_screenshot,
            final(self).processor == old(self).processor,
            final(self).records@ == old(self).records@,
            (final(self).queue@, dropped@) == old(self).queue@.evicted(now_ms, staleness_ms),
            final(self).skipped@ == old(self).skipped@ + frame_numbers(dropped@),
    {
        let dropped = self.queue.evict_stale(now_ms, staleness_ms);
        let mut i: usize = 0;
        assert(self.skipped@ =~= old(self).skipped@ + frame_numbers(dropped@.subrange(0, 0)));
        while i < dropped.len()
            invariant
                i <= dropped@.len(),
                self.parts_wf(),
                self.tagged(),
                self.state == old(self).state,
                self.source == old(self).source,
                self.writer == old(self).writer,
                self.save_screenshot == old(self).save_screenshot,
                self.processor == old(self).processor,
                self.records@ == old(self).records@,
                (self.queue@, dropped@) == old(self).queue@.evicted(now_ms, staleness_ms),
                old(self).queue@.waiting == dropped@ + self.queue@.waiting,
                self.skipped@ == old(self).skipped@ + frame_numbers(dropped@.subrange(0, i as int)),
            decreases dropped@.len() - i,
        {
            self.skipped.push(dropped[i].frame_number);
            proof {
                assert(frame_numbers(dropped@.subrange(0, i + 1)) =~= frame_numbers(
                    dropped@.subrange(0, i as int),
                ).push(dropped@[i as int].frame_number));
            }
            i = i + 1;
        }
        proof {
            assert(dropped@.subrange(0, i as int) =~= dropped@);
            let wait = old(self).queue@.waiting;
            assert(frame_numbers(wait) =~= frame_numbers(dropped@) + frame_numbers(
                self.queue@.waiting,
            ));
            assert forall|n: u64| #[trigger] self.held(n) == old(self).held(n) by {
                lemma_times_concat(frame_numbers(dropped@), frame_numbers(self.queue@.waiting), n);
                lemma_times_concat(old(self).skipped@, frame_numbers(dropped@), n);
            }
        }
        dropped
    }

    /// Takes the video sink out of the run after it could not be set up or
    /// has failed for good. The other sinks go on as before.
    pub fn disable_video(&mut self) -> (open_chunk: Option<Chunk>)
        requires
            old(self).wf(),
        ensures
            final(self).wf(),
            final(self).writer is None,
            open_chunk == (match old(self).writer {
                Some(w) => w.open,
                None => None,
            }),
            final(self).state == old(self).state,
            final(self).source == old(self).source,
            final(self).save_screenshot == old(self).save_screenshot,
            final(self).processor == old(self).processor,
            final(self).queue@ == old(self).queue@,
            final(self).records@ == old(self).records@,
            final(self).skipped@ == old(self).skipped@,
    {
        let open_chunk = match self.writer {
            Some(w) => w.finalize(),
            None => None,
        };
        self.writer = None;
        proof {
            assert forall|n: u64| #[trigger] self.held(n) == old(self).held(n) by {}
        }
        open_chunk
    }

    /// Takes the screenshot sink out of the run after it could not be set
    /// up. The other sinks go on as before.
    pub fn disable_screenshots(&mut self)
        requires
            old(self).wf(),
        ensures
            final(self).wf(),
            !final(self).save_screenshot,
            final(self).state == old(self).state,
            final(self).source == old(self).source,
            final(self).writer == old(self).writer,
            final(self).processor == old(self).processor,
            final(self).queue@ == old(self).queue@,
            final(self).records@ == old(self).records@,
            final(self).skipped@ == old(self).skipped@,
    {
        self.save_screenshot = false;
        proof {
            assert forall|n: u64| #[trigger] self.held(n) == old(self).held(n) by {}
        }
    }

    /// Ends the run, after processing has drained or the wait for it has
    /// timed out. The open video chunk is handed out, and the records
    /// gathered so far are returned in the order of their frame numbers.
    /// No two of them have the same frame number, each is the record of a
    /// frame that the source emitted, and each carries the tag of the run's
    /// kind of processing. A run that has not failed ends in `Completed`,
    /// also when it was still running; one that has failed stays failed and
    /// still returns what it gathered.
    pub fn finish(self, drained_in_time: bool) -> (done: Finished)
        requires
            self.wf(),
        ensures
            done.state == (if self.state == RunState::FailedFatal {
                RunState::FailedFatal
            } else {
                RunState::Completed
            }),
            ordered_by_frame(done.result.records@),
            distinct_frames(done.result.records@),
            done.result.records@.to_multiset() == self.records@.to_multiset(),
            done.result.records@.len() == self.records@.len(),
            done.result.skipped == self.skipped@.len(),
            done.result.records@.len() + done.result.skipped <= self.source.next_index,
            forall|i: int|
                0 <= i < done.result.records@.len() ==> (
                #[trigger] done.result.records@[i]).frame_number < self.source.next_index,
            forall|i: int|
                0 <= i < done.result.records@.len() ==> (
                #[trigger] done.result.records@[i]).processing_type@ == self.processor.tag(),
            self.source.max_frames matches Some(m) ==> done.result.records@.len() <= m,
            self.source.max_frames matches Some(m) ==> forall|i: int|
                0 <= i < done.result.records@.len() ==> (
                #[trigger] done.result.records@[i]).frame_number < m,
            done.last_chunk == (match self.writer {
                Some(w) => w.open,
                None => None,
            }),
    {
        let stopped = advance(self.state, RunEvent::Cancelled);
        let state = advance(
            stopped,
            if drained_in_time {
                RunEvent::Drained
            } else {
                RunEvent::DrainTimedOut
            },
        );
        let last_chunk = match self.writer {
            Some(w) => w.finalize(),
            None => None,
        };
        let skipped = self.skipped.len();
        let ghost gathered = self.records@;
        let records = sort_by_frame_number(self.records);
        proof {
            lemma_held_once(self);
            lemma_distinct_frames_kept(gathered, records@);
            assert forall|i: int| 0 <= i < records@.len() implies (
            #[trigger] records@[i]).frame_number < self.source.next_index
                && records@[i].processing_type@ == self.processor.tag() by {
                assert(records@.contains(records@[i]));
                vstd::seq_lib::to_multiset_contains(records@, records@[i]);
                vstd::seq_lib::to_multiset_contains(gathered, records@[i]);
                let p = choose|p: int| 0 <= p < gathered.len() && gathered[p] == records@[i];
                assert(gathered[p].frame_number < self.source.next_index);
            }
        }
        Finished { state, result: PipelineResult { records, skipped }, last_chunk }
    }
}

} // verus!
