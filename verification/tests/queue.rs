use k21_node::capture::ConfigError;
use k21_node::queue::{
    frame_is_stale, Completion, DropPolicy, ProcessingQueue, QueuedFrame, Submission,
};
use k21_node::types::{
    JsOcrConfig, JsProcessorConfig, JsVisionConfig, OcrSettings, ProcessorConfig, VisionSettings,
};

fn frame(n: u64) -> QueuedFrame {
    QueuedFrame { frame_number: n, captured_ms: n * 100 }
}

#[test]
fn no_queue_without_a_permit() {
    assert!(ProcessingQueue::new(0, 4, DropPolicy::Oldest).is_none());
    let q = ProcessingQueue::new(1, 0, DropPolicy::Newest).unwrap();
    assert!(q.in_flight.is_empty());
    assert!(q.waiting.is_empty());
}

#[test]
fn frames_start_until_the_ceiling_then_wait() {
    let mut q = ProcessingQueue::new(2, 2, DropPolicy::Oldest).unwrap();
    assert_eq!(q.submit(frame(0)), Submission::Started);
    assert_eq!(q.submit(frame(1)), Submission::Started);
    assert_eq!(q.in_flight, vec![frame(0), frame(1)]);
    assert_eq!(q.submit(frame(2)), Submission::Queued);
    assert_eq!(q.submit(frame(3)), Submission::Queued);
    assert_eq!(q.in_flight, vec![frame(0), frame(1)]);
    assert_eq!(q.waiting, vec![frame(2), frame(3)]);
}

#[test]
fn a_full_queue_drops_the_oldest() {
    let mut q = ProcessingQueue::new(1, 2, DropPolicy::Oldest).unwrap();
    assert_eq!(q.submit(frame(0)), Submission::Started);
    assert_eq!(q.submit(frame(1)), Submission::Queued);
    assert_eq!(q.submit(frame(2)), Submission::Queued);
    assert_eq!(q.submit(frame(3)), Submission::Dropped(frame(1)));
    assert_eq!(q.waiting, vec![frame(2), frame(3)]);
    assert_eq!(q.in_flight, vec![frame(0)]);
}

#[test]
fn a_full_queue_turns_the_newest_away() {
    let mut q = ProcessingQueue::new(1, 2, DropPolicy::Newest).unwrap();
    assert_eq!(q.submit(frame(0)), Submission::Started);
    assert_eq!(q.submit(frame(1)), Submission::Queued);
    assert_eq!(q.submit(frame(2)), Submission::Queued);
    assert_eq!(q.submit(frame(3)), Submission::Dropped(frame(3)));
    assert_eq!(q.waiting, vec![frame(1), frame(2)]);
}

#[test]
fn a_queue_without_room_drops_what_arrives() {
    let mut q = ProcessingQueue::new(1, 0, DropPolicy::Oldest).unwrap();
    assert_eq!(q.submit(frame(0)), Submission::Started);
    assert_eq!(q.submit(frame(1)), Submission::Dropped(frame(1)));
    assert!(q.waiting.is_empty());
}

#[test]
fn completion_hands_the_permit_to_the_oldest_waiting() {
    let mut q = ProcessingQueue::new(1, 3, DropPolicy::Oldest).unwrap();
    assert_eq!(q.complete(0), Completion::NotInFlight);
    assert!(q.in_flight.is_empty());
    q.submit(frame(0));
    q.submit(frame(1));
    q.submit(frame(2));
    assert_eq!(q.complete(0), Completion::Next(frame(1)));
    assert_eq!(q.in_flight, vec![frame(1)]);
    assert_eq!(q.complete(1), Completion::Next(frame(2)));
    assert_eq!(q.in_flight, vec![frame(2)]);
    assert_eq!(q.complete(2), Completion::Finished);
    assert!(q.in_flight.is_empty());
    assert_eq!(q.submit(frame(3)), Submission::Started);
}

#[test]
fn only_a_frame_in_flight_can_end() {
    let mut q = ProcessingQueue::new(2, 3, DropPolicy::Oldest).unwrap();
    q.submit(frame(0));
    q.submit(frame(1));
    q.submit(frame(2));
    assert_eq!(q.complete(2), Completion::NotInFlight);
    assert_eq!(q.complete(7), Completion::NotInFlight);
    assert_eq!(q.in_flight, vec![frame(0), frame(1)]);
    assert_eq!(q.waiting, vec![frame(2)]);
    assert_eq!(q.complete(1), Completion::Next(frame(2)));
    assert_eq!(q.in_flight, vec![frame(0), frame(2)]);
    assert_eq!(q.complete(1), Completion::NotInFlight);
    assert_eq!(q.complete(0), Completion::Finished);
    assert_eq!(q.in_flight, vec![frame(2)]);
}

#[test]
fn stale_frames_leave_from_the_head() {
    let mut q = ProcessingQueue::new(1, 5, DropPolicy::Oldest).unwrap();
    q.submit(frame(0));
    q.submit(frame(1));
    q.submit(frame(2));
    q.submit(frame(3));
    let dropped = q.evict_stale(1000, 750);
    assert_eq!(dropped, vec![frame(1), frame(2)]);
    assert_eq!(q.waiting, vec![frame(3)]);
    assert_eq!(q.in_flight, vec![frame(0)]);
    assert!(q.evict_stale(1000, 750).is_empty());
    assert_eq!(q.evict_stale(u64::MAX, 0), vec![frame(3)]);
    assert!(q.waiting.is_empty());
}

#[test]
fn staleness_is_strict() {
    assert!(frame_is_stale(&frame(1), 1000, 899));
    assert!(!frame_is_stale(&frame(1), 1000, 900));
    assert!(!frame_is_stale(&frame(20), 1000, 0));
}

fn ocr() -> JsOcrConfig {
    JsOcrConfig {
        ocr_model: "tesseract".to_string(),
        bounding_boxes: Some(true),
        dpi: Some(300),
        psm: None,
        oem: Some(1),
    }
}

fn vision() -> JsVisionConfig {
    JsVisionConfig {
        url: Some("http://localhost:11434".to_string()),
        api_key: Some("test-key".to_string()),
        model: Some("llava".to_string()),
        prompt: Some("What is on screen?".to_string()),
    }
}

#[test]
fn the_tag_picks_the_kind() {
    let c = JsProcessorConfig {
        processing_type: "OCR".to_string(),
        vision_config: Some(vision()),
        ocr_config: Some(ocr()),
    };
    match c.resolve() {
        Ok(ProcessorConfig::Ocr(s)) => {
            assert_eq!(s.model, "tesseract");
            assert_eq!(s.bounding_boxes, Some(true));
            assert_eq!(s.dpi, Some(300));
            assert_eq!(s.psm, None);
            assert_eq!(s.oem, Some(1));
        }
        _ => panic!("expected text recognition"),
    }
    let c = JsProcessorConfig {
        processing_type: "Vision".to_string(),
        vision_config: Some(vision()),
        ocr_config: None,
    };
    match c.resolve() {
        Ok(ProcessorConfig::Vision(s)) => {
            assert_eq!(s.endpoint_url, "http://localhost:11434");
            assert_eq!(s.api_key, "test-key");
            assert_eq!(s.model, "llava");
            assert_eq!(s.prompt, "What is on screen?");
        }
        _ => panic!("expected a vision model"),
    }
}

fn fault(c: JsProcessorConfig) -> Option<ConfigError> {
    match c.resolve() {
        Ok(_) => None,
        Err(e) => Some(e),
    }
}

#[test]
fn each_processor_fault_is_named() {
    assert_eq!(
        fault(JsProcessorConfig {
            processing_type: "ocr".to_string(),
            vision_config: Some(vision()),
            ocr_config: Some(ocr()),
        }),
        Some(ConfigError::UnknownProcessingType)
    );
    assert_eq!(
        fault(JsProcessorConfig {
            processing_type: "OCR".to_string(),
            vision_config: Some(vision()),
            ocr_config: None,
        }),
        Some(ConfigError::MissingOcrConfig)
    );
    assert_eq!(
        fault(JsProcessorConfig {
            processing_type: "Vision".to_string(),
            vision_config: None,
            ocr_config: Some(ocr()),
        }),
        Some(ConfigError::MissingVisionConfig)
    );
    let mut v = vision();
    v.prompt = None;
    assert_eq!(
        fault(JsProcessorConfig {
            processing_type: "Vision".to_string(),
            vision_config: Some(v),
            ocr_config: None,
        }),
        Some(ConfigError::MissingVisionConfig)
    );
}

#[test]
fn host_shape_of_a_config_resolves_to_it() {
    let c = JsProcessorConfig::from_config(ProcessorConfig::Ocr(OcrSettings {
        model: "tesseract".to_string(),
        bounding_boxes: None,
        dpi: Some(150),
        psm: Some(3),
        oem: None,
    }));
    assert_eq!(c.processing_type, "OCR");
    assert!(c.vision_config.is_none());
    match c.resolve() {
        Ok(ProcessorConfig::Ocr(s)) => {
            assert_eq!(s.model, "tesseract");
            assert_eq!(s.dpi, Some(150));
            assert_eq!(s.psm, Some(3));
        }
        _ => panic!("expected text recognition"),
    }
    let config = ProcessorConfig::Vision(VisionSettings {
        endpoint_url: "http://example.test".to_string(),
        api_key: "test-key".to_string(),
        model: "m".to_string(),
        prompt: "p".to_string(),
    });
    assert_eq!(config.processing_type(), "Vision");
    let c = JsProcessorConfig::from_config(config);
    assert_eq!(c.processing_type, "Vision");
    assert!(c.ocr_config.is_none());
    match c.resolve() {
        Ok(ProcessorConfig::Vision(s)) => {
            assert_eq!(s.endpoint_url, "http://example.test");
            assert_eq!(s.prompt, "p");
        }
        _ => panic!("expected a vision model"),
    }
}

#[test]
fn settings_convert_field_by_field() {
    let s = ocr().into_settings();
    assert_eq!(s.model, "tesseract");
    let back = JsOcrConfig::from_settings(s);
    assert_eq!(back.ocr_model, "tesseract");
    assert_eq!(back.dpi, Some(300));
    let s = vision().into_settings().unwrap();
    let back = JsVisionConfig::from_settings(s);
    assert_eq!(back.url, Some("http://localhost:11434".to_string()));
    let mut v = vision();
    v.url = None;
    assert!(v.into_settings().is_none());
}

#[test]
fn a_record_carries_the_tag_of_its_kind() {
    let config = ProcessorConfig::Ocr(OcrSettings {
        model: "tesseract".to_string(),
        bounding_boxes: None,
        dpi: None,
        psm: None,
        oem: None,
    });
    let r = config.record(4, "2024-05-01T10:00:04Z".to_string(), "hello".to_string());
    assert_eq!(r.frame_number, 4);
    assert_eq!(r.timestamp, "2024-05-01T10:00:04Z");
    assert_eq!(r.text, "hello");
    assert_eq!(r.processing_type, "OCR");
    assert_eq!(config.processing_type(), "OCR");
}

#[test]
fn each_fault_has_its_reason() {
    assert_eq!(ConfigError::NonPositiveFps.reason(), "the frame rate must be positive");
    assert_eq!(ConfigError::NonPositiveDuration.reason(), "the duration must be positive");
    assert_eq!(
        ConfigError::NonPositiveChunkDuration.reason(),
        "the video chunk duration must be positive"
    );
    assert_eq!(ConfigError::MissingVideoDir.reason(), "no video output directory is given");
    assert_eq!(
        ConfigError::MissingScreenshotDir.reason(),
        "no screenshot output directory is given"
    );
    assert_eq!(
        ConfigError::UnwritableVideoDir.reason(),
        "the video output directory cannot be written"
    );
    assert_eq!(
        ConfigError::UnwritableScreenshotDir.reason(),
        "the screenshot output directory cannot be written"
    );
    assert_eq!(ConfigError::NoProcessingPermit.reason(), "no frame may be processed at a time");
    assert_eq!(ConfigError::UnknownProcessingType.reason(), "the processing type is unknown");
    assert_eq!(
        ConfigError::MissingOcrConfig.reason(),
        "the text recognition settings are missing"
    );
    assert_eq!(
        ConfigError::MissingVisionConfig.reason(),
        "the vision model settings are incomplete"
    );
}
