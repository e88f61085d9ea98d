//! Processor configuration: the shape taken from the host process, and the
//! tagged configuration that a run works with.

use crate::capture::ConfigError;
use crate::image::TextRecord;
use vstd::prelude::*;

verus! {

/// Processor configuration as the host process gives it: a tag and, for
/// each kind of processing, its settings or nothing.
pub struct JsProcessorConfig {
    pub processing_type: String,
    pub vision_config: Option<JsVisionConfig>,
    pub ocr_config: Option<JsOcrConfig>,
}

/// Settings of a vision model as the host process gives them.
pub struct JsVisionConfig {
    pub url: Option<String>,
    pub api_key: Option<String>,
    pub model: Option<String>,
    pub prompt: Option<String>,
}

/// Settings of text recognition as the host process gives them.
pub struct JsOcrConfig {
    pub ocr_model: String,
    pub bounding_boxes: Option<bool>,
    pub dpi: Option<u32>,
    pub psm: Option<u32>,
    pub oem: Option<u32>,
}

/// Settings of text recognition.
pub struct OcrSettings {
    pub model: String,
    pub bounding_boxes: Option<bool>,
    pub dpi: Option<u32>,
    pub psm: Option<u32>,
    pub oem: Option<u32>,
}

/// Settings of a vision model: where to send a frame, and what to ask.
pub struct VisionSettings {
    pub endpoint_url: String,
    pub api_key: String,
    pub model: String,
    pub prompt: String,
}

/// How the frames of a run are turned into text: one of the two kinds.
pub enum ProcessorConfig {
    Ocr(OcrSettings),
    Vision(VisionSettings),
}

/// The tag of text recognition.
pub open spec fn ocr_tag() -> Seq<char> {
    "OCR"@
}

/// The tag of processing by a vision model.
pub open spec fn vision_tag() -> Seq<char> {
    "Vision"@
}

/// The recognition settings that a host-facing value stands for.
pub open spec fn ocr_settings_of(c: JsOcrConfig) -> OcrSettings {
    OcrSettings {
        model: c.ocr_model,
        bounding_boxes: c.bounding_boxes,
        dpi: c.dpi,
        psm: c.psm,
        oem: c.oem,
    }
}

/// The host-facing shape of recognition settings.
pub open spec fn js_of_ocr_settings(s: OcrSettings) -> JsOcrConfig {
    JsOcrConfig {
        ocr_model: s.model,
        bounding_boxes: s.bounding_boxes,
        dpi: s.dpi,
        psm: s.psm,
        oem: s.oem,
    }
}

/// The vision settings that a host-facing value stands for: there are none
/// unless all four fields are given.
pub open spec fn vision_settings_of(c: JsVisionConfig) -> Option<VisionSettings> {
    if c.url is Some && c.api_key is Some && c.model is Some && c.prompt is Some {
        Some(
            VisionSettings {
                endpoint_url: c.url->Some_0,
                api_key: c.api_key->Some_0,
                model: c.model->Some_0,
                prompt: c.prompt->Some_0,
            },
        )
    } else {
        None
    }
}

/// The host-facing shape of vision settings.
pub open spec fn js_of_vision_settings(s: VisionSettings) -> JsVisionConfig {
    JsVisionConfig {
        url: Some(s.endpoint_url),
        api_key: Some(s.api_key),
        model: Some(s.model),
        prompt: Some(s.prompt),
    }
}

/// What a host-facing configuration resolves to. The tag decides the kind;
/// the settings of that kind must be there, and those of the other kind do
/// not count.
pub open spec fn resolved(c: JsProcessorConfig) -> Result<ProcessorConfig, ConfigError> {
    if c.processing_type@ == ocr_tag() {
        match c.ocr_config {
            Some(o) => Ok(ProcessorConfig::Ocr(ocr_settings_of(o))),
            None => Err(ConfigError::MissingOcrConfig),
        }
    } else if c.processing_type@ == vision_tag() {
        match c.vision_config {
            Some(v) => match vision_settings_of(v) {
                Some(s) => Ok(ProcessorConfig::Vision(s)),
                None => Err(ConfigError::MissingVisionConfig),
            },
            None => Err(ConfigError::MissingVisionConfig),
        }
    } else {
        Err(ConfigError::UnknownProcessingType)
    }
}

impl JsOcrConfig {
    /// Converts to recognition settings.
    pub fn into_settings(self) -> (s: OcrSettings)
        ensures
            s == ocr_settings_of(self),
    {
        OcrSettings {
            model: self.ocr_model,
            bounding_boxes: self.bounding_boxes,
            dpi: self.dpi,
            psm: self.psm,
            oem: self.oem,
        }
    }

    /// Converts recognition settings to their host-facing shape.
    pub fn from_settings(s: OcrSettings) -> (c: JsOcrConfig)
        ensures
            c == js_of_ocr_settings(s),
            ocr_settings_of(c) == s,
    {
        JsOcrConfig {
            ocr_model: s.model,
            bounding_boxes: s.bounding_boxes,
            dpi: s.dpi,
            psm: s.psm,
            oem: s.oem,
        }
    }
}

impl JsVisionConfig {
    /// Converts to vision settings, if all four fields are given.
    pub fn into_settings(self) -> (s: Option<VisionSettings>)
        ensures
            s == vision_settings_of(self),
    {
        match (self.url, self.api_key, self.model, self.prompt) {
            (Some(endpoint_url), Some(api_key), Some(model), Some(prompt)) => Some(
                VisionSettings { endpoint_url, api_key, model, prompt },
            ),
            _ => None,
        }
    }

    /// Converts vision settings to their host-facing shape.
    pub fn from_settings(s: VisionSettings) -> (c: JsVisionConfig)
        ensures
            c == js_of_vision_settings(s),
            vision_settings_of(c) == Some(s),
    {
        JsVisionConfig {
            url: Some(s.endpoint_url),
            api_key: Some(s.api_key),
            model: Some(s.model),
            prompt: Some(s.prompt),
        }
    }
}

impl From<JsOcrConfig> for OcrSettings {
    fn from(c: JsOcrConfig) -> (s: OcrSettings) {
        c.into_settings()
    }
}

impl vstd::std_specs::convert::FromSpecImpl<JsOcrConfig> for OcrSettings {
    open spec fn obeys_from_spec() -> bool {
        true
    }

    open spec fn from_spec(c: JsOcrConfig) -> OcrSettings {
        ocr_settings_of(c)
    }
}

impl From<OcrSettings> for JsOcrConfig {
    fn from(s: OcrSettings) -> (c: JsOcrConfig) {
        JsOcrConfig::from_settings(s)
    }
}

impl vstd::std_specs::convert::FromSpecImpl<OcrSettings> for JsOcrConfig {
    open spec fn obeys_from_spec() -> bool {
        true
    }

    open spec fn from_spec(s: OcrSettings) -> JsOcrConfig {
        js_of_ocr_settings(s)
    }
}

impl From<VisionSettings> for JsVisionConfig {
    fn from(s: VisionSettings) -> (c: JsVisionConfig) {
        JsVisionConfig::from_settings(s)
    }
}

impl vstd::std_specs::convert::FromSpecImpl<VisionSettings> for JsVisionConfig {
    open spec fn obeys_from_spec() -> bool {
        true
    }

    open spec fn from_spec(s: VisionSettings) -> JsVisionConfig {
        js_of_vision_settings(s)
    }
}

fn has_tag(s: &String, tag: &str) -> (b: bool)
    ensures
        b == (s@ == tag@),
{
    let t = tag.to_owned();
    *s == t
}

impl ProcessorConfig {
    /// The tag of this kind of processing, as records carry it.
    pub fn processing_type(&self) -> (tag: &'static str)
        ensures
            tag@ == self.tag(),
    {
        match self {
            ProcessorConfig::Ocr(_) => "OCR",
            ProcessorConfig::Vision(_) => "Vision",
        }
    }
}

impl ProcessorConfig {
    /// The tag of this kind of processing.
    pub open spec fn tag(&self) -> Seq<char> {
        match self {
            ProcessorConfig::Ocr(_) => ocr_tag(),
            ProcessorConfig::Vision(_) => vision_tag(),
        }
    }

    /// The record of a processed frame: the text found, with the frame's
    /// number and time and the tag of this kind of processing.
    pub fn record(&self, frame_number: u64, timestamp: String, text: String) -> (r: TextRecord)
        ensures
            r.text == text,
            r.timestamp == timestamp,
            r.frame_number == frame_number,
            r.processing_type@ == self.tag(),
    {
        TextRecord {
            text,
            timestamp,
            frame_number,
            processing_type: self.processing_type().to_owned(),
        }
    }
}

impl JsProcessorConfig {
    /// Resolves a host-facing configuration to the one kind of processing
    /// that its tag names, or says why it cannot.
    pub fn resolve(self) -> (r: Result<ProcessorConfig, ConfigError>)
        ensures
            r == resolved(self),
    {
        if has_tag(&self.processing_type, "OCR") {
            match self.ocr_config {
                Some(o) => Ok(ProcessorConfig::Ocr(o.into_settings())),
                None => Err(ConfigError::MissingOcrConfig),
            }
        } else if has_tag(&self.processing_type, "Vision") {
            match self.vision_config {
                Some(v) => match v.into_settings() {
                    Some(s) => Ok(ProcessorConfig::Vision(s)),
                    None => Err(ConfigError::MissingVisionConfig),
                },
                None => Err(ConfigError::MissingVisionConfig),
            }
        } else {
            Err(ConfigError::UnknownProcessingType)
        }
    }

    /// The host-facing shape of a configuration: its tag, and the settings
    /// of its kind alone. Resolving the result gives the configuration back.
    pub fn from_config(config: ProcessorConfig) -> (c: JsProcessorConfig)
        ensures
            resolved(c) == Ok::<ProcessorConfig, ConfigError>(config),
            config matches ProcessorConfig::Ocr(s) ==> c.processing_type@ == ocr_tag()
                && c.ocr_config == Some(js_of_ocr_settings(s)) && c.vision_config is None,
            config matches ProcessorConfig::Vision(s) ==> c.processing_type@ == vision_tag()
                && c.vision_config == Some(js_of_vision_settings(s)) && c.ocr_config is None,
    {
        proof {
            reveal_strlit("OCR");
            reveal_strlit("Vision");
            assert("OCR"@.len() != "Vision"@.len());
        }
        match config {
            ProcessorConfig::Ocr(s) => JsProcessorConfig {
                processing_type: "OCR".to_owned(),
                vision_config: None,
                ocr_config: Some(JsOcrConfig::from_settings(s)),
            },
            ProcessorConfig::Vision(s) => JsProcessorConfig {
                processing_type: "Vision".to_owned(),
                vision_config: Some(JsVisionConfig::from_settings(s)),
                ocr_config: None,
            },
        }
    }
}

} // verus!
