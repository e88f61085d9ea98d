//! Capture configuration, its validation, and the frame source's rules for
//! numbering frames, retrying failed captures and stopping.

use vstd::prelude::*;

verus! {

/// How a capture run is configured. The frame rate is held in thousandths
/// of a frame per second; an absent `duration_secs` means that the run
/// lasts until it is cancelled.
pub struct CaptureConfig {
    pub fps_millis: u64,
    pub duration_secs: Option<u64>,
    pub max_frames: Option<u64>,
    pub save_screenshot: bool,
    pub save_video: bool,
    pub video_chunk_duration_secs: u64,
    pub output_dir_video: Option<String>,
    pub output_dir_screenshot: Option<String>,
}

/// Why a configuration was turned down.
#[derive(Clone, Copy, PartialEq, Eq, Structural, Debug)]
pub enum ConfigError {
    NonPositiveFps,
    NonPositiveDuration,
    NonPositiveChunkDuration,
    MissingVideoDir,
    UnwritableVideoDir,
    MissingScreenshotDir,
    UnwritableScreenshotDir,
    NoProcessingPermit,
    UnknownProcessingType,
    MissingOcrConfig,
    MissingVisionConfig,
}

impl ConfigError {
    /// The reason in words, as it is reported to the host process.
    pub open spec fn reason_text(self) -> Seq<char> {
        match self {
            ConfigError::NonPositiveFps => "the frame rate must be positive"@,
            ConfigError::NonPositiveDuration => "the duration must be positive"@,
            ConfigError::NonPositiveChunkDuration => "the video chunk duration must be positive"@,
            ConfigError::MissingVideoDir => "no video output directory is given"@,
            ConfigError::UnwritableVideoDir => "the video output directory cannot be written"@,
            ConfigError::MissingScreenshotDir => "no screenshot output directory is given"@,
            ConfigError::UnwritableScreenshotDir =>
                "the screenshot output directory cannot be written"@,
            ConfigError::NoProcessingPermit => "no frame may be processed at a time"@,
            ConfigError::UnknownProcessingType => "the processing type is unknown"@,
            ConfigError::MissingOcrConfig => "the text recognition settings are missing"@,
            ConfigError::MissingVisionConfig => "the vision model settings are incomplete"@,
        }
    }

    /// The reason in words.
    pub fn reason(&self) -> (s: &'static str)
        ensures
            s@ == self.reason_text(),
    {
        match self {
            ConfigError::NonPositiveFps => "the frame rate must be positive",
            ConfigError::NonPositiveDuration => "the duration must be positive",
            ConfigError::NonPositiveChunkDuration => "the video chunk duration must be positive",
            ConfigError::MissingVideoDir => "no video output directory is given",
            ConfigError::UnwritableVideoDir => "the video output directory cannot be written",
            ConfigError::MissingScreenshotDir => "no screenshot output directory is given",
            ConfigError::UnwritableScreenshotDir =>
                "the screenshot output directory cannot be written",
            ConfigError::NoProcessingPermit => "no frame may be processed at a time",
            ConfigError::UnknownProcessingType => "the processing type is unknown",
            ConfigError::MissingOcrConfig => "the text recognition settings are missing",
            ConfigError::MissingVisionConfig => "the vision model settings are incomplete",
        }
    }
}

impl CaptureConfig {
    /// The configuration can be run: rate and duration are positive, and
    /// each enabled sink has a directory to write to. A sink that is enabled
    /// without a directory has none: no other directory stands in for it.
    /// The two flags say whether the directory named for a sink can be
    /// written; they count for nothing where no directory is named.
    pub open spec fn valid(&self, video_dir_writable: bool, screenshot_dir_writable: bool) -> bool {
        &&& self.fps_millis > 0
        &&& self.duration_secs != Some(0u64)
        &&& (self.save_video ==> self.video_chunk_duration_secs > 0 && self.output_dir_video
            is Some && video_dir_writable)
        &&& (self.save_screenshot ==> self.output_dir_screenshot is Some
            && screenshot_dir_writable)
    }

    /// The first fault of the configuration, if it has one: the rate, then
    /// the duration, then the video sink, then the screenshot sink.
    pub open spec fn first_fault(
        &self,
        video_dir_writable: bool,
        screenshot_dir_writable: bool,
    ) -> Option<ConfigError> {
        if self.fps_millis == 0 {
            Some(ConfigError::NonPositiveFps)
        } else if self.duration_secs == Some(0u64) {
            Some(ConfigError::NonPositiveDuration)
        } else if self.save_video && self.video_chunk_duration_secs == 0 {
            Some(ConfigError::NonPositiveChunkDuration)
        } else if self.save_video && self.output_dir_video is None {
            Some(ConfigError::MissingVideoDir)
        } else if self.save_video && !video_dir_writable {
            Some(ConfigError::UnwritableVideoDir)
        } else if self.save_screenshot && self.output_dir_screenshot is None {
            Some(ConfigError::MissingScreenshotDir)
        } else if self.save_screenshot && !screenshot_dir_writable {
            Some(ConfigError::UnwritableScreenshotDir)
        } else {
            None
        }
    }

    /// Checks the configuration before a run starts. The caller has probed
    /// the output directories that the configuration names and says whether
    /// each can be written.
    pub fn validate(&self, video_dir_writable: bool, screenshot_dir_writable: bool) -> (r: Result<
        (),
        ConfigError,
    >)
        ensures
            r is Ok <==> self.valid(video_dir_writable, screenshot_dir_writable),
            r is Err ==> Some(r->Err_0) == self.first_fault(
                video_dir_writable,
                screenshot_dir_writable,
            ),
            r is Ok ==> self.first_fault(video_dir_writable, screenshot_dir_writable) is None,
    {
        if self.fps_millis == 0 {
            return Err(ConfigError::NonPositiveFps);
        }
        match self.duration_secs {
            Some(d) => {
                if d == 0 {
                    return Err(ConfigError::NonPositiveDuration);
                }
            },
            None => {},
        }
        if self.save_video {
            if self.video_chunk_duration_secs == 0 {
                return Err(ConfigError::NonPositiveChunkDuration);
            }
            if self.output_dir_video.is_none() {
                return Err(ConfigError::MissingVideoDir);
            }
            if !video_dir_writable {
                return Err(ConfigError::UnwritableVideoDir);
            }
        }
        if self.save_screenshot {
            if self.output_dir_screenshot.is_none() {
                return Err(ConfigError::MissingScreenshotDir);
            }
            if !screenshot_dir_writable {
                return Err(ConfigError::UnwritableScreenshotDir);
            }
        }
        Ok(())
    }

    /// The time between two capture ticks, in whole milliseconds.
    pub fn tick_interval_ms(&self) -> (ms: u64)
        requires
            self.fps_millis > 0,
        ensures
            ms == 1_000_000u64 / self.fps_millis,
    {
        1_000_000 / self.fps_millis
    }

    /// The run's duration in milliseconds, if it has one.
    pub fn duration_ms(&self) -> (ms: Option<u64>)
        ensures
            self.duration_secs is None <==> ms is None,
            self.duration_secs matches Some(d) ==> ms == Some(millis_of(d)),
    {
        match self.duration_secs {
            Some(d) => Some(secs_to_millis(d)),
            None => None,
        }
    }

    /// The length of a video chunk in milliseconds.
    pub fn video_chunk_duration_ms(&self) -> (ms: u64)
        ensures
            ms == millis_of(self.video_chunk_duration_secs),
    {
        secs_to_millis(self.video_chunk_duration_secs)
    }
}

/// A number of seconds as milliseconds. One too large to count in
/// milliseconds is held at the largest number.
pub open spec fn millis_of(secs: u64) -> u64 {
    if secs * 1000 <= u64::MAX {
        (secs * 1000) as u64
    } else {
        u64::MAX
    }
}

/// Converts seconds to milliseconds.
pub fn secs_to_millis(secs: u64) -> (ms: u64)
    ensures
        ms == millis_of(secs),
{
    if secs <= u64::MAX / 1000 {
        secs * 1000
    } else {
        u64::MAX
    }
}

/// The wait before the next capture tick, after a capture that took
/// `capture_took_ms`: what is left of the interval, and nothing where the
/// capture took the whole interval or longer. A late tick is never made up
/// for by a shorter wait afterwards.
pub fn next_tick_delay_ms(interval_ms: u64, capture_took_ms: u64) -> (delay: u64)
    ensures
        capture_took_ms >= interval_ms ==> delay == 0,
        capture_took_ms < interval_ms ==> delay == interval_ms - capture_took_ms,
{
    if capture_took_ms >= interval_ms {
        0
    } else {
        interval_ms - capture_took_ms
    }
}

/// Why a frame source stopped.
#[derive(Clone, Copy, PartialEq, Eq, Structural, Debug)]
pub enum StopReason {
    Cancelled,
    DurationElapsed,
    MaxFramesReached,
    FatalCapture,
}

/// What a frame source does at a tick.
#[derive(Clone, Copy, PartialEq, Eq, Structural, Debug)]
pub enum Poll {
    Capture,
    Stop(StopReason),
}

/// What follows a failed capture.
#[derive(Clone, Copy, PartialEq, Eq, Structural, Debug)]
pub enum CaptureFailure {
    /// Capture again at once.
    RetryNow,
    /// The stream ends here.
    Fatal,
}

/// One step of a frame source's run.
#[derive(Clone, Copy, PartialEq, Eq, Structural, Debug)]
pub enum SourceStep {
    Tick { elapsed_ms: u64, cancelled: bool },
    Captured,
    Failed,
}

/// The state of a frame source: the index of the next frame, whether the
/// last capture failed, and why the source stopped, if it did.
#[derive(Clone, Copy, PartialEq, Eq, Structural, Debug)]
pub struct FrameSource {
    pub max_frames: Option<u64>,
    pub duration_ms: Option<u64>,
    pub next_index: u64,
    pub retrying: bool,
    pub stopped: Option<StopReason>,
}

impl FrameSource {
    /// The number of frames that the source may emit at most.
    pub open spec fn frame_limit(&self) -> u64 {
        match self.max_frames {
            Some(m) => m,
            None => u64::MAX,
        }
    }

    /// The source has emitted no more frames than it may.
    pub open spec fn wf(&self) -> bool {
        self.next_index <= self.frame_limit()
    }

    /// Why the source stops at a tick `elapsed_ms` after its start, if it
    /// does. A source that has stopped stays stopped for the same reason.
    pub open spec fn stop_reason(&self, elapsed_ms: u64, cancelled: bool) -> Option<StopReason> {
        if self.stopped is Some {
            self.stopped
        } else if cancelled {
            Some(StopReason::Cancelled)
        } else if self.duration_ms is Some && elapsed_ms >= self.duration_ms->Some_0 {
            Some(StopReason::DurationElapsed)
        } else if self.next_index >= self.frame_limit() {
            Some(StopReason::MaxFramesReached)
        } else {
            None
        }
    }

    /// The source after a tick: stopped where `stop_reason` gives a reason,
    /// otherwise as it was.
    pub open spec fn polled(&self, elapsed_ms: u64, cancelled: bool) -> FrameSource {
        FrameSource { stopped: self.stop_reason(elapsed_ms, cancelled), ..*self }
    }

    /// Whether the source may emit one more frame.
    pub open spec fn can_emit(&self) -> bool {
        self.stopped is None && self.next_index < self.frame_limit()
    }

    /// The source after a capture that succeeded.
    pub open spec fn after_capture(&self) -> FrameSource {
        if self.can_emit() {
            FrameSource { next_index: (self.next_index + 1) as u64, retrying: false, ..*self }
        } else {
            *self
        }
    }

    /// The source after a capture that failed.
    pub open spec fn after_failure(&self) -> FrameSource {
        if self.stopped is Some {
            *self
        } else if !self.retrying {
            FrameSource { retrying: true, ..*self }
        } else {
            FrameSource { stopped: Some(StopReason::FatalCapture), ..*self }
        }
    }

    /// The source after one step of a run.
    pub open spec fn after_step(&self, step: SourceStep) -> FrameSource {
        match step {
            SourceStep::Tick { elapsed_ms, cancelled } => self.polled(elapsed_ms, cancelled),
            SourceStep::Captured => self.after_capture(),
            SourceStep::Failed => self.after_failure(),
        }
    }

    /// The source after the steps of `steps`, in order.
    pub open spec fn after_steps(&self, steps: Seq<SourceStep>) -> FrameSource
        decreases steps.len(),
    {
        if steps.len() == 0 {
            *self
        } else {
            self.after_steps(steps.drop_last()).after_step(steps.last())
        }
    }

    /// A source that has emitted nothing yet.
    pub fn new(max_frames: Option<u64>, duration_ms: Option<u64>) -> (s: Self)
        ensures
            s.wf(),
            s == (FrameSource {
                max_frames,
                duration_ms,
                next_index: 0,
                retrying: false,
                stopped: None,
            }),
    {
        FrameSource { max_frames, duration_ms, next_index: 0, retrying: false, stopped: None }
    }

    fn limit(&self) -> (m: u64)
        ensures
            m == self.frame_limit(),
    {
        match self.max_frames {
            Some(m) => m,
            None => u64::MAX,
        }
    }

    /// Decides at a tick whether to capture or to stop. The source stops on
    /// cancellation, at the first tick at or after the end of its duration,
    /// and once it has emitted as many frames as it may.
    pub fn poll(&mut self, elapsed_ms: u64, cancelled: bool) -> (p: Poll)
        requires
            old(self).wf(),
        ensures
            final(self).wf(),
            *final(self) == old(self).polled(elapsed_ms, cancelled),
            match old(self).stop_reason(elapsed_ms, cancelled) {
                Some(r) => p == Poll::Stop(r),
                None => p == Poll::Capture,
            },
    {
        let limit = self.limit();
        let reason = match self.stopped {
            Some(r) => Some(r),
            None => {
                if cancelled {
                    Some(StopReason::Cancelled)
                } else if self.duration_ms.is_some() && elapsed_ms >= self.duration_ms.unwrap() {
                    Some(StopReason::DurationElapsed)
                } else if self.next_index >= limit {
                    Some(StopReason::MaxFramesReached)
                } else {
                    None
                }
            },
        };
        self.stopped = reason;
        match reason {
            Some(r) => Poll::Stop(r),
            None => Poll::Capture,
        }
    }

    /// Records a capture that succeeded and gives the frame its index. The
    /// indices are 0, 1, 2 and so on: a failed capture uses none up. A
    /// source that has stopped, or that has emitted as many frames as it
    /// may, gives no index and does not change.
    pub fn captured(&mut self) -> (index: Option<u64>)
        requires
            old(self).wf(),
        ensures
            final(self).wf(),
            *final(self) == old(self).after_capture(),
            old(self).can_emit() ==> index == Some(old(self).next_index),
            !old(self).can_emit() ==> index is None,
    {
        let limit = self.limit();
        if self.stopped.is_none() && self.next_index < limit {
            let i = self.next_index;
            self.next_index = i + 1;
            self.retrying = false;
            Some(i)
        } else {
            None
        }
    }

    /// Records a capture that failed. The first failure after a success is
    /// retried at once; a second one in a row is fatal and stops the source.
    /// A source that has stopped does not change.
    pub fn capture_failed(&mut self) -> (f: CaptureFailure)
        requires
            old(self).wf(),
        ensures
            final(self).wf(),
            *final(self) == old(self).after_failure(),
            f == CaptureFailure::RetryNow <==> old(self).stopped is None && !old(self).retrying,
            f == CaptureFailure::Fatal <==> old(self).stopped is Some || old(self).retrying,
    {
        if self.stopped.is_some() {
            CaptureFailure::Fatal
        } else if !self.retrying {
            self.retrying = true;
            CaptureFailure::RetryNow
        } else {
            self.stopped = Some(StopReason::FatalCapture);
            CaptureFailure::Fatal
        }
    }

    /// The number of frames emitted so far.
    pub fn emitted(&self) -> (n: u64)
        ensures
            n == self.next_index,
    {
        self.next_index
    }
}

/// The number of captures that succeeded among `steps`.
pub open spec fn captures_in(steps: Seq<SourceStep>) -> nat
    decreases steps.len(),
{
    if steps.len() == 0 {
        0
    } else if steps.last() == SourceStep::Captured {
        captures_in(steps.drop_last()) + 1
    } else {
        captures_in(steps.drop_last())
    }
}

/// Whatever happens in a run, the source never emits more frames than
/// `max_frames`, where that is set, nor more than captures succeeded, and
/// the number of frames emitted never goes down.
pub proof fn lemma_emitted_within_max_frames(s: FrameSource, steps: Seq<SourceStep>)
    requires
        s.wf(),
    ensures
        s.after_steps(steps).wf(),
        s.after_steps(steps).max_frames == s.max_frames,
        s.max_frames matches Some(m) ==> s.after_steps(steps).next_index <= m,
        s.next_index <= s.after_steps(steps).next_index <= s.next_index + captures_in(steps),
    decreases steps.len(),
{
    if steps.len() > 0 {
        lemma_emitted_within_max_frames(s, steps.drop_last());
    }
}

/// Once a source has stopped, no later step makes it emit a frame or changes
/// why it stopped.
pub proof fn lemma_stopped_source_stays_stopped(s: FrameSource, steps: Seq<SourceStep>)
    requires
        s.stopped is Some,
    ensures
        s.after_steps(steps) == s,
    decreases steps.len(),
{
    if steps.len() > 0 {
        lemma_stopped_source_stays_stopped(s, steps.drop_last());
    }
}

/// A source with a duration stops at the first tick at or after its end,
/// cancelled or not and however many frames it has emitted.
pub proof fn lemma_stops_when_duration_elapsed(s: FrameSource, elapsed_ms: u64, cancelled: bool)
    requires
        s.duration_ms matches Some(d) && elapsed_ms >= d,
    ensures
        s.polled(elapsed_ms, cancelled).stopped is Some,
        !s.polled(elapsed_ms, cancelled).can_emit(),
{
}

} // verus!
