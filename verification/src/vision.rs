//! The vision layer as the rules see it: what a model reports of a frame, and what rule and
//! confidence that amounts to.
//!
//! A model reports confidences and coordinates as floating-point numbers. They come in here as
//! integers: a confidence as the whole number of basis points that it scales to, a coordinate as
//! the bits of its `f32`, which are passed on as they are.

use image::DynamicImage;
use vstd::prelude::*;

use crate::rules::{RuleType, MAX_CONFIDENCE_BP};
use crate::text::{join2, join3};

verus! {

/// A failure of the vision layer.
#[derive(Debug)]
pub enum VisionError {
    ModelLoadFailed(String),
    InferenceFailed(String),
    UnexpectedOutputShape { expected: String, got: String },
}

impl VisionError {
    /// The failure in words.
    pub open spec fn spec_message(self) -> Seq<char> {
        match self {
            VisionError::ModelLoadFailed(s) => "model load failed: "@ + s@,
            VisionError::InferenceFailed(s) => "inference failed: "@ + s@,
            VisionError::UnexpectedOutputShape { expected, got } => {
                "unexpected output shape: expected "@ + expected@ + ", got "@ + got@
            },
        }
    }

    /// The failure in words.
    pub fn message(&self) -> (message: String)
        ensures
            message@ == self.spec_message(),
    {
        match self {
            VisionError::ModelLoadFailed(s) => join2("model load failed: ", s.as_str()),
            VisionError::InferenceFailed(s) => join2("inference failed: ", s.as_str()),
            VisionError::UnexpectedOutputShape { expected, got } => {
                let start = join3(
                    "unexpected output shape: expected ",
                    expected.as_str(),
                    ", got ",
                );
                join2(start.as_str(), got.as_str())
            },
        }
    }
}

/// One detection as a model reports it, not yet tied to a rule.
#[derive(Clone, Copy, Debug)]
pub struct RawDetection {
    /// Corners of the box in the coordinates of the model.
    pub bbox_model_xyxy: [u32; 4],
    /// Corners of the box in the coordinates of the picture.
    pub bbox_original_xyxy: [u32; 4],
    pub class_index: usize,
    /// Confidence times 10000, without its fraction. It may lie outside of 0 to 10000.
    pub scaled_confidence: i64,
}

/// The class of a worker without protective equipment.
pub const CLASS_NO_PPE: usize = 0;

/// The class of a worker in a zone that is closed to them.
pub const CLASS_ZONE_BREACH: usize = 1;

/// The rule that a class of the model stands for; other classes stand for none.
pub open spec fn rule_of_class(class_index: int) -> Option<RuleType> {
    if class_index == CLASS_NO_PPE {
        Some(RuleType::PpeMissing)
    } else if class_index == CLASS_ZONE_BREACH {
        Some(RuleType::ZoneBreach)
    } else {
        None
    }
}

/// A scaled confidence, held within 0 to 10000.
pub open spec fn clamped_bp(scaled: int) -> int {
    if scaled < 0 {
        0
    } else if scaled > MAX_CONFIDENCE_BP {
        MAX_CONFIDENCE_BP as int
    } else {
        scaled
    }
}

/// The rule and confidence that a raw detection amounts to, where its class stands for a rule.
pub fn to_rule_confidence_bp(raw: &RawDetection) -> (translated: Option<(RuleType, u16)>)
    ensures
        match translated {
            Some((rule, bp)) => {
                &&& rule_of_class(raw.class_index as int) == Some(rule)
                &&& bp == clamped_bp(raw.scaled_confidence as int)
            },
            None => rule_of_class(raw.class_index as int) is None,
        },
{
    let rule_type = if raw.class_index == CLASS_NO_PPE {
        RuleType::PpeMissing
    } else if raw.class_index == CLASS_ZONE_BREACH {
        RuleType::ZoneBreach
    } else {
        return None;
    };
    let confidence_bp: u16 = if raw.scaled_confidence < 0 {
        0
    } else if raw.scaled_confidence > MAX_CONFIDENCE_BP as i64 {
        MAX_CONFIDENCE_BP
    } else {
        raw.scaled_confidence as u16
    };
    Some((rule_type, confidence_bp))
}

/// The inference engine. It holds no model and detects nothing yet.
pub struct VisionEngine {}

impl VisionEngine {
    /// An engine for the model at a path. No model is loaded, so this always succeeds.
    pub fn new(_model_path: &str) -> (engine: Result<VisionEngine, VisionError>)
        ensures
            engine is Ok,
    {
        Ok(VisionEngine {  })
    }

    /// What the model detects in a picture: nothing.
    pub fn infer(&self, _image: &DynamicImage) -> (found: Result<Vec<RawDetection>, VisionError>)
        ensures
            found matches Ok(detections) && detections@.len() == 0,
    {
        Ok(Vec::new())
    }
}

} // verus!
