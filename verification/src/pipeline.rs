//! Run lifecycle, bounded hand-over of frames to processing, and the
//! assembly of the ordered result.

use crate::image::{distinct_frames, ordered_by_frame, sort_by_frame_number, TextRecord};
use vstd::prelude::*;

verus! {

/// The lifecycle of one pipeline run.
#[derive(Clone, Copy, PartialEq, Eq, Structural, Debug)]
pub enum RunState {
    Idle,
    Validating,
    Running,
    Draining,
    Completed,
    FailedFatal,
}

/// What can happen to a run.
#[derive(Clone, Copy, PartialEq, Eq, Structural, Debug)]
pub enum RunEvent {
    Start,
    ConfigAccepted,
    ConfigRejected,
    SinkInitFailed,
    StreamEnded,
    Cancelled,
    FatalCapture,
    Drained,
    DrainTimedOut,
}

/// The state that follows `s` on event `e`. An event that does not apply
/// to a state leaves it unchanged.
pub open spec fn next_state(s: RunState, e: RunEvent) -> RunState {
    match (s, e) {
        (RunState::Idle, RunEvent::Start) => RunState::Validating,
        (RunState::Validating, RunEvent::ConfigAccepted) => RunState::Running,
        (RunState::Validating, RunEvent::ConfigRejected) => RunState::FailedFatal,
        (RunState::Validating, RunEvent::SinkInitFailed) => RunState::FailedFatal,
        (RunState::Running, RunEvent::StreamEnded) => RunState::Draining,
        (RunState::Running, RunEvent::Cancelled) => RunState::Draining,
        (RunState::Running, RunEvent::FatalCapture) => RunState::FailedFatal,
        (RunState::Running, RunEvent::SinkInitFailed) => RunState::FailedFatal,
        (RunState::Draining, RunEvent::Drained) => RunState::Completed,
        (RunState::Draining, RunEvent::DrainTimedOut) => RunState::Completed,
        _ => s,
    }
}

/// The state reached from `s` after the events of `events`, in order.
pub open spec fn state_after(s: RunState, events: Seq<RunEvent>) -> RunState
    decreases events.len(),
{
    if events.len() == 0 {
        s
    } else {
        next_state(state_after(s, events.drop_last()), events.last())
    }
}

/// Whether a run in state `s` has ended.
pub open spec fn is_terminal(s: RunState) -> bool {
    s == RunState::Completed || s == RunState::FailedFatal
}

/// Moves a run from state `s` on event `e`.
pub fn advance(s: RunState, e: RunEvent) -> (n: RunState)
    ensures
        n == next_state(s, e),
{
    match s {
        RunState::Idle => match e {
            RunEvent::Start => RunState::Validating,
            _ => s,
        },
        RunState::Validating => match e {
            RunEvent::ConfigAccepted => RunState::Running,
            RunEvent::ConfigRejected | RunEvent::SinkInitFailed => RunState::FailedFatal,
            _ => s,
        },
        RunState::Running => match e {
            RunEvent::StreamEnded | RunEvent::Cancelled => RunState::Draining,
            RunEvent::FatalCapture | RunEvent::SinkInitFailed => RunState::FailedFatal,
            _ => s,
        },
        RunState::Draining => match e {
            RunEvent::Drained | RunEvent::DrainTimedOut => RunState::Completed,
            _ => s,
        },
        RunState::Completed | RunState::FailedFatal => s,
    }
}

/// Whether a run in state `s` has ended.
pub fn has_ended(s: RunState) -> (b: bool)
    ensures
        b == is_terminal(s),
{
    match s {
        RunState::Completed | RunState::FailedFatal => true,
        _ => false,
    }
}

/// A run that has ended stays where it is, whatever happens afterwards.
pub proof fn lemma_terminal_states_absorb(s: RunState, events: Seq<RunEvent>)
    requires
        is_terminal(s),
    ensures
        state_after(s, events) == s,
    decreases events.len(),
{
    if events.len() > 0 {
        lemma_terminal_states_absorb(s, events.drop_last());
    }
}

/// A running pipeline fails fatally only on a fatal capture error or a sink
/// that could not be set up; a pipeline that is draining never does.
pub proof fn lemma_fatal_only_from_capture_or_sink(s: RunState, e: RunEvent)
    requires
        s == RunState::Running || s == RunState::Draining,
        next_state(s, e) == RunState::FailedFatal,
    ensures
        s == RunState::Running,
        e == RunEvent::FatalCapture || e == RunEvent::SinkInitFailed,
{
}

/// Cancelling never makes a run fail: from any state but `FailedFatal`, the
/// state after a cancellation is not `FailedFatal`, and a running pipeline
/// that is cancelled and then drains, in time or not, ends in `Completed`.
pub proof fn lemma_cancellation_completes(s: RunState, drained_in_time: bool)
    requires
        s != RunState::FailedFatal,
    ensures
        next_state(s, RunEvent::Cancelled) != RunState::FailedFatal,
        s == RunState::Running ==> next_state(
            next_state(s, RunEvent::Cancelled),
            if drained_in_time {
                RunEvent::Drained
            } else {
                RunEvent::DrainTimedOut
            },
        ) == RunState::Completed,
{
}

/// What to do after an attempt on a frame has failed.
#[derive(Clone, Copy, PartialEq, Eq, Structural, Debug)]
pub enum FailureAction {
    Retry,
    Skip,
}

/// After the first failed attempt the frame is tried once more; after any
/// later one it is skipped. `attempts` counts the attempts made so far.
pub open spec fn failure_action(attempts: u32) -> FailureAction {
    if attempts <= 1 {
        FailureAction::Retry
    } else {
        FailureAction::Skip
    }
}

/// Decides between one more attempt and skipping the frame.
pub fn after_failure(attempts: u32) -> (a: FailureAction)
    ensures
        a == failure_action(attempts),
{
    if attempts <= 1 {
        FailureAction::Retry
    } else {
        FailureAction::Skip
    }
}

/// How processing of one frame ended.
pub enum FrameOutcome {
    Processed(TextRecord),
    Skipped { frame_number: u64 },
}

/// The records of the frames that were processed, in the order of `outcomes`.
pub open spec fn processed_records(outcomes: Seq<FrameOutcome>) -> Seq<TextRecord>
    decreases outcomes.len(),
{
    if outcomes.len() == 0 {
        Seq::empty()
    } else {
        let head = processed_records(outcomes.drop_last());
        match outcomes.last() {
            FrameOutcome::Processed(r) => head.push(r),
            FrameOutcome::Skipped { .. } => head,
        }
    }
}

/// The number of frames that were skipped.
pub open spec fn skipped_count(outcomes: Seq<FrameOutcome>) -> nat
    decreases outcomes.len(),
{
    if outcomes.len() == 0 {
        0
    } else {
        let head = skipped_count(outcomes.drop_last());
        match outcomes.last() {
            FrameOutcome::Processed(_) => head,
            FrameOutcome::Skipped { .. } => head + 1,
        }
    }
}

/// What a run hands to its caller: the records ordered by frame number, and
/// the number of frames that were skipped.
pub struct PipelineResult {
    pub records: Vec<TextRecord>,
    pub skipped: usize,
}

proof fn lemma_counts_fit(outcomes: Seq<FrameOutcome>)
    ensures
        skipped_count(outcomes) + processed_records(outcomes).len() == outcomes.len(),
    decreases outcomes.len(),
{
    if outcomes.len() > 0 {
        lemma_counts_fit(outcomes.drop_last());
    }
}

/// Builds the result of a run from the outcomes of its frames, given in the
/// order in which processing completed, whatever that order was.
pub fn assemble_result(outcomes: Vec<FrameOutcome>) -> (res: PipelineResult)
    ensures
        ordered_by_frame(res.records@),
        res.records@.to_multiset() == processed_records(outcomes@).to_multiset(),
        res.skipped == skipped_count(outcomes@),
        res.records@.len() + res.skipped == outcomes@.len(),
{
    let total: usize = outcomes.len();
    let mut rest: Vec<FrameOutcome> = outcomes;
    let mut picked: Vec<TextRecord> = Vec::new();
    let mut skipped: usize = 0;
    proof {
        broadcast use vstd::seq_lib::group_to_multiset_ensures;
        lemma_counts_fit(outcomes@);
        assert(picked@.to_multiset().add(processed_records(rest@).to_multiset())
            =~= processed_records(outcomes@).to_multiset());
    }
    while rest.len() > 0
        invariant
            picked@.to_multiset().add(processed_records(rest@).to_multiset())
                == processed_records(outcomes@).to_multiset(),
            skipped + skipped_count(rest@) == skipped_count(outcomes@),
            skipped_count(outcomes@) <= outcomes@.len(),
            outcomes@.len() == total,
        decreases rest@.len(),
    {
        let ghost before = rest@;
        let ghost before_picked = picked@;
        let o = rest.pop().unwrap();
        proof {
            assert(before.drop_last() =~= rest@);
            assert(before.last() == o);
        }
        match o {
            FrameOutcome::Processed(r) => {
                picked.push(r);
                proof {
                    vstd::seq_lib::to_multiset_build(before_picked, r);
                    vstd::seq_lib::to_multiset_build(processed_records(rest@), r);
                    assert(picked@.to_multiset().add(processed_records(rest@).to_multiset())
                        =~= before_picked.to_multiset().add(
                        processed_records(before).to_multiset(),
                    ));
                }
            },
            FrameOutcome::Skipped { .. } => {
                skipped = skipped + 1;
            },
        }
    }
    proof {
        broadcast use vstd::seq_lib::group_to_multiset_ensures;
        assert(processed_records(rest@) =~= Seq::<TextRecord>::empty());
        assert(picked@.to_multiset() =~= processed_records(outcomes@).to_multiset());
        lemma_counts_fit(outcomes@);
    }
    let records = sort_by_frame_number(picked);
    proof {
        vstd::seq_lib::to_multiset_len(records@);
        vstd::seq_lib::to_multiset_len(processed_records(outcomes@));
    }
    PipelineResult { records, skipped }
}

/// Records that are ordered by frame number, with no number occurring
/// twice, are determined by which records they are: two such sequences that
/// hold the same records are equal. So the order in which processing
/// completed leaves no trace in an assembled result.
pub proof fn lemma_order_is_unique(a: Seq<TextRecord>, b: Seq<TextRecord>)
    requires
        ordered_by_frame(a),
        ordered_by_frame(b),
        distinct_frames(a),
        a.to_multiset() == b.to_multiset(),
    ensures
        a == b,
    decreases a.len(),
{
    vstd::seq_lib::to_multiset_len(a);
    vstd::seq_lib::to_multiset_len(b);
    if a.len() == 0 {
        assert(a =~= b);
    } else {
        let n = a.len() as int;
        let x = a[n - 1];
        let y = b[n - 1];
        assert(a.contains(x));
        assert(b.contains(y));
        vstd::seq_lib::to_multiset_contains(a, x);
        vstd::seq_lib::to_multiset_contains(b, x);
        vstd::seq_lib::to_multiset_contains(a, y);
        vstd::seq_lib::to_multiset_contains(b, y);
        let i = choose|i: int| 0 <= i < n && a[i] == y;
        let j = choose|j: int| 0 <= j < n && b[j] == x;
        assert(b[j].frame_number <= b[n - 1].frame_number);
        assert(a[i].frame_number <= a[n - 1].frame_number);
        assert(i == n - 1);
        assert(x == y);
        vstd::seq_lib::to_multiset_remove(a, n - 1);
        vstd::seq_lib::to_multiset_remove(b, n - 1);
        assert(a.remove(n - 1) =~= a.drop_last());
        assert(b.remove(n - 1) =~= b.drop_last());
        lemma_order_is_unique(a.drop_last(), b.drop_last());
        assert(a =~= a.drop_last().push(x));
        assert(b =~= b.drop_last().push(y));
    }
}

} // verus!
