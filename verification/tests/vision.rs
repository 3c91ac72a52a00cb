use fundi::rules::RuleType;
use fundi::vision::{to_rule_confidence_bp, RawDetection, VisionEngine, VisionError};

fn raw(class_index: usize, scaled_confidence: i64) -> RawDetection {
    RawDetection { bbox_model_xyxy: [0; 4], bbox_original_xyxy: [0; 4], class_index, scaled_confidence }
}

#[test]
fn classes_stand_for_rules() {
    assert_eq!(to_rule_confidence_bp(&raw(0, 8000)), Some((RuleType::PpeMissing, 8000)));
    assert_eq!(to_rule_confidence_bp(&raw(1, 1)), Some((RuleType::ZoneBreach, 1)));
    assert_eq!(to_rule_confidence_bp(&raw(2, 8000)), None);
    assert_eq!(to_rule_confidence_bp(&raw(usize::MAX, 8000)), None);
}

#[test]
fn confidence_is_held_in_range() {
    assert_eq!(to_rule_confidence_bp(&raw(0, -1)), Some((RuleType::PpeMissing, 0)));
    assert_eq!(to_rule_confidence_bp(&raw(0, i64::MIN)), Some((RuleType::PpeMissing, 0)));
    assert_eq!(to_rule_confidence_bp(&raw(0, 10_000)), Some((RuleType::PpeMissing, 10_000)));
    assert_eq!(to_rule_confidence_bp(&raw(0, 10_001)), Some((RuleType::PpeMissing, 10_000)));
    assert_eq!(to_rule_confidence_bp(&raw(0, i64::MAX)), Some((RuleType::PpeMissing, 10_000)));
}

#[test]
fn scaling_before_the_clamp_is_scaling_after_it() {
    for confidence in [0.0f32, 0.25, 0.6, 0.99999, 1.0, 1.5, -0.3, f32::NAN, f32::INFINITY, f32::NEG_INFINITY, 1e30] {
        let expected = (confidence * 10000.0).clamp(0.0, 10000.0) as u16;
        let scaled = (confidence * 10000.0) as i64;
        assert_eq!(to_rule_confidence_bp(&raw(0, scaled)), Some((RuleType::PpeMissing, expected)));
    }
}

#[test]
fn engine_detects_nothing() {
    let engine = VisionEngine::new("models/any.onnx").unwrap();
    let picture = image::DynamicImage::new_luma8(2, 2);
    assert!(engine.infer(&picture).unwrap().is_empty());
}

#[test]
fn vision_failures_in_words() {
    assert_eq!(VisionError::ModelLoadFailed("a".to_string()).message(), "model load failed: a");
    assert_eq!(VisionError::InferenceFailed("b".to_string()).message(), "inference failed: b");
    let shape = VisionError::UnexpectedOutputShape { expected: "1x4".to_string(), got: "2x4".to_string() };
    assert_eq!(shape.message(), "unexpected output shape: expected 1x4, got 2x4");
}
