use k21_node::capture::{CaptureConfig, CaptureFailure, ConfigError, Poll, StopReason};
use k21_node::chunk::{Accepted, Chunk};
use k21_node::orchestrator::{FanOut, Orchestrator, ProcessingLimits, ProcessingResult};
use k21_node::pipeline::RunState;
use k21_node::queue::{Completion, DropPolicy, QueuedFrame, Submission};
use k21_node::types::{ProcessorConfig, VisionSettings};

fn capture_config() -> CaptureConfig {
    CaptureConfig {
        fps_millis: 1000,
        duration_secs: None,
        max_frames: Some(5),
        save_screenshot: true,
        save_video: true,
        video_chunk_duration_secs: 10,
        output_dir_video: Some("/tmp/video".to_string()),
        output_dir_screenshot: Some("/tmp/shots".to_string()),
    }
}

fn processor() -> ProcessorConfig {
    ProcessorConfig::Vision(VisionSettings {
        endpoint_url: "http://localhost:11434".to_string(),
        api_key: "test-key".to_string(),
        model: "llava".to_string(),
        prompt: "What is on screen?".to_string(),
    })
}

fn limits(ceiling: usize, capacity: usize) -> ProcessingLimits {
    ProcessingLimits { ceiling, capacity, policy: DropPolicy::Oldest }
}

fn text(frame_number: u64) -> ProcessingResult {
    ProcessingResult::Text {
        text: format!("frame {}", frame_number),
        timestamp: format!("t{}", frame_number),
    }
}

fn accounted(o: &Orchestrator) -> bool {
    let mut held: Vec<u64> = Vec::new();
    for r in &o.records {
        held.push(r.frame_number);
    }
    for n in &o.skipped {
        held.push(*n);
    }
    for f in &o.queue.in_flight {
        held.push(f.frame_number);
    }
    for f in &o.queue.waiting {
        held.push(f.frame_number);
    }
    held.sort();
    let mut expected: Vec<u64> = Vec::new();
    for n in 0..o.source.emitted() {
        expected.push(n);
    }
    held == expected
}

fn started(config: &CaptureConfig, ceiling: usize, capacity: usize) -> Orchestrator {
    match Orchestrator::start(config, true, true, processor(), limits(ceiling, capacity)) {
        Ok(o) => o,
        Err(e) => panic!("run did not start: {:?}", e),
    }
}

fn start_fault(config: &CaptureConfig, video: bool, shots: bool, ceiling: usize) -> ConfigError {
    match Orchestrator::start(config, video, shots, processor(), limits(ceiling, 4)) {
        Ok(_) => panic!("run started"),
        Err(e) => e,
    }
}

#[test]
fn a_faulty_config_starts_nothing() {
    let c = capture_config();
    assert_eq!(start_fault(&c, false, true, 2), ConfigError::UnwritableVideoDir);
    assert_eq!(start_fault(&c, true, false, 2), ConfigError::UnwritableScreenshotDir);
    assert_eq!(start_fault(&c, true, true, 0), ConfigError::NoProcessingPermit);
    assert_eq!(start_fault(&c, false, false, 0), ConfigError::UnwritableVideoDir);
    let mut c = capture_config();
    c.output_dir_video = None;
    assert_eq!(start_fault(&c, true, true, 2), ConfigError::MissingVideoDir);
    let mut c = capture_config();
    c.fps_millis = 0;
    assert_eq!(start_fault(&c, true, true, 2), ConfigError::NonPositiveFps);
}

#[test]
fn a_started_run_is_running_and_empty() {
    let o = started(&capture_config(), 2, 4);
    assert_eq!(o.state, RunState::Running);
    assert_eq!(o.source.emitted(), 0);
    assert_eq!(o.source.max_frames, Some(5));
    assert_eq!(o.source.duration_ms, None);
    assert_eq!(o.writer.unwrap().chunk_duration_ms, 10_000);
    assert!(o.save_screenshot);
    assert_eq!(o.processor.processing_type(), "Vision");
    assert_eq!(o.queue.ceiling, 2);
    assert_eq!(o.queue.capacity, 4);
    assert!(o.records.is_empty());
    assert!(o.skipped.is_empty());
    let mut c = capture_config();
    c.save_video = false;
    c.duration_secs = Some(3);
    let o = started(&c, 1, 0);
    assert!(o.writer.is_none());
    assert_eq!(o.source.duration_ms, Some(3000));
}

#[test]
fn a_frame_goes_to_every_enabled_sink() {
    let mut o = started(&capture_config(), 1, 1);
    assert_eq!(o.tick(0, false), Poll::Capture);
    assert_eq!(
        o.frame_captured(0),
        Some(FanOut {
            frame_index: 0,
            video: Some(Accepted::Buffered),
            screenshot: true,
            processing: Submission::Started,
        })
    );
    assert_eq!(
        o.frame_captured(1000),
        Some(FanOut {
            frame_index: 1,
            video: Some(Accepted::Buffered),
            screenshot: true,
            processing: Submission::Queued,
        })
    );
    assert!(accounted(&o));
    let f = o.frame_captured(2000).unwrap();
    assert_eq!(
        f.processing,
        Submission::Dropped(QueuedFrame { frame_number: 1, captured_ms: 1000 })
    );
    assert_eq!(o.skipped, vec![1]);
    assert!(accounted(&o));
    let mut c = capture_config();
    c.save_video = false;
    c.save_screenshot = false;
    let mut o = started(&c, 1, 1);
    assert_eq!(
        o.frame_captured(0),
        Some(FanOut {
            frame_index: 0,
            video: None,
            screenshot: false,
            processing: Submission::Started,
        })
    );
}

#[test]
fn an_outcome_for_a_frame_that_is_not_in_flight_is_left_out() {
    let mut c = capture_config();
    c.max_frames = Some(0);
    let mut o = started(&c, 2, 2);
    assert_eq!(o.frame_captured(0), None);
    assert_eq!(o.frame_processed(0, text(0)), Completion::NotInFlight);
    let done = o.finish(true);
    assert_eq!(done.state, RunState::Completed);
    assert!(done.result.records.is_empty());
    assert_eq!(done.result.skipped, 0);

    let mut o = started(&capture_config(), 1, 2);
    o.frame_captured(0);
    o.frame_captured(100);
    assert_eq!(o.frame_processed(1, text(1)), Completion::NotInFlight);
    assert_eq!(o.frame_processed(9, ProcessingResult::Failed), Completion::NotInFlight);
    assert!(o.records.is_empty());
    assert!(o.skipped.is_empty());
    assert_eq!(
        o.frame_processed(0, text(0)),
        Completion::Next(QueuedFrame { frame_number: 1, captured_ms: 100 })
    );
    assert_eq!(o.frame_processed(0, text(0)), Completion::NotInFlight);
    assert_eq!(o.records.len(), 1);
    assert_eq!(o.frame_processed(1, text(1)), Completion::Finished);
    assert!(accounted(&o));
    let done = o.finish(true);
    assert_eq!(done.result.records.len(), 2);
    assert_eq!(done.result.records[0].frame_number, 0);
    assert_eq!(done.result.records[1].frame_number, 1);
}

#[test]
fn records_carry_the_tag_of_the_run() {
    let mut o = started(&capture_config(), 1, 1);
    o.frame_captured(0);
    o.frame_processed(0, text(0));
    assert_eq!(o.records[0].processing_type, "Vision");
    assert_eq!(o.records[0].text, "frame 0");
    assert_eq!(o.records[0].timestamp, "t0");
    assert_eq!(o.records[0].frame_number, 0);
}

#[test]
fn one_failed_frame_of_five_leaves_four_records() {
    let mut o = started(&capture_config(), 2, 8);
    let mut to_process: Vec<u64> = Vec::new();
    let mut t: u64 = 0;
    loop {
        match o.tick(t, false) {
            Poll::Capture => {
                let f = o.frame_captured(t).unwrap();
                if f.processing == Submission::Started {
                    to_process.push(f.frame_index);
                }
            }
            Poll::Stop(r) => {
                assert_eq!(r, StopReason::MaxFramesReached);
                break;
            }
        }
        t += 1000;
    }
    assert_eq!(o.state, RunState::Draining);
    assert_eq!(to_process, vec![0, 1]);
    while let Some(n) = to_process.pop() {
        let result = if n == 3 { ProcessingResult::Failed } else { text(n) };
        match o.frame_processed(n, result) {
            Completion::Next(next) => to_process.push(next.frame_number),
            Completion::Finished => {}
            Completion::NotInFlight => panic!("frame {} was not in flight", n),
        }
        assert!(accounted(&o));
    }
    assert!(o.queue.in_flight.is_empty());
    assert_eq!(o.state, RunState::Draining);
    let done = o.finish(true);
    assert_eq!(done.state, RunState::Completed);
    let mut numbers = Vec::new();
    for r in &done.result.records {
        numbers.push(r.frame_number);
        assert_eq!(r.processing_type, "Vision");
    }
    assert_eq!(numbers, vec![0, 1, 2, 4]);
    assert_eq!(done.result.records.len(), 4);
    assert_eq!(done.result.skipped, 1);
    assert_eq!(
        done.last_chunk,
        Some(Chunk { sequence: 0, start_ms: 0, end_ms: 4000, first_frame: 0, last_frame: 4 })
    );
}

#[test]
fn a_cancelled_run_ends_completed() {
    let mut c = capture_config();
    c.max_frames = None;
    c.fps_millis = 2000;
    let interval = c.tick_interval_ms();
    assert_eq!(interval, 500);
    let mut o = started(&c, 4, 4);
    let mut t: u64 = 0;
    loop {
        match o.tick(t, t >= 2000) {
            Poll::Capture => {
                let f = o.frame_captured(t).unwrap();
                assert_eq!(f.processing, Submission::Started);
                assert_eq!(o.frame_processed(f.frame_index, text(f.frame_index)), Completion::Finished);
            }
            Poll::Stop(r) => {
                assert_eq!(r, StopReason::Cancelled);
                break;
            }
        }
        t += interval;
    }
    assert_eq!(o.state, RunState::Draining);
    assert_eq!(o.frame_captured(t), None);
    let done = o.finish(false);
    assert_eq!(done.state, RunState::Completed);
    assert_eq!(done.result.records.len(), 4);
    assert_eq!(done.result.records[3].frame_number, 3);
    assert_eq!(done.result.skipped, 0);
}

#[test]
fn a_fatal_capture_error_fails_the_run_and_keeps_the_records() {
    let mut o = started(&capture_config(), 2, 2);
    let f = o.frame_captured(0).unwrap();
    o.frame_processed(f.frame_index, text(f.frame_index));
    assert_eq!(o.capture_failed(), CaptureFailure::RetryNow);
    assert_eq!(o.state, RunState::Running);
    assert_eq!(o.capture_failed(), CaptureFailure::Fatal);
    assert_eq!(o.state, RunState::FailedFatal);
    assert_eq!(o.tick(10, false), Poll::Stop(StopReason::FatalCapture));
    assert_eq!(o.frame_captured(20), None);
    let done = o.finish(true);
    assert_eq!(done.state, RunState::FailedFatal);
    assert_eq!(done.result.records.len(), 1);
    assert_eq!(done.result.records[0].text, "frame 0");
}

#[test]
fn finishing_a_running_run_completes_it() {
    let o = started(&capture_config(), 1, 1);
    let done = o.finish(true);
    assert_eq!(done.state, RunState::Completed);
    assert!(done.result.records.is_empty());
    assert_eq!(done.last_chunk, None);
}

#[test]
fn stale_frames_are_recorded_as_skipped() {
    let mut o = started(&capture_config(), 1, 4);
    o.frame_captured(0);
    o.frame_captured(100);
    o.frame_captured(200);
    o.frame_captured(5000);
    assert_eq!(o.queue.waiting.len(), 3);
    let dropped = o.evict_stale(5100, 1000);
    assert_eq!(
        dropped,
        vec![
            QueuedFrame { frame_number: 1, captured_ms: 100 },
            QueuedFrame { frame_number: 2, captured_ms: 200 },
        ]
    );
    assert_eq!(o.queue.waiting, vec![QueuedFrame { frame_number: 3, captured_ms: 5000 }]);
    assert_eq!(o.skipped, vec![1, 2]);
    assert!(accounted(&o));
    let done = o.finish(false);
    assert_eq!(done.result.skipped, 2);
    assert!(done.result.records.is_empty());
}

#[test]
fn a_sink_that_failed_leaves_the_others_running() {
    let mut o = started(&capture_config(), 1, 4);
    o.frame_captured(0);
    assert_eq!(
        o.disable_video(),
        Some(Chunk { sequence: 0, start_ms: 0, end_ms: 0, first_frame: 0, last_frame: 0 })
    );
    assert_eq!(o.disable_video(), None);
    let f = o.frame_captured(1000).unwrap();
    assert_eq!(f.video, None);
    assert!(f.screenshot);
    o.disable_screenshots();
    let f = o.frame_captured(2000).unwrap();
    assert!(!f.screenshot);
    assert_eq!(f.processing, Submission::Queued);
    assert_eq!(o.state, RunState::Running);
}
