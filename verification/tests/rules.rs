use chrono::{DateTime, Duration as ChronoDuration, TimeZone, Utc};
use fundi::ids::Uuid;
use fundi::rules::{Detection, IncidentCandidate, RuleEngineError, RuleType, RulesEngine, RulesEngineConfig};
use fundi::time::{TimeDelta, Timestamp};

fn new_id() -> Uuid {
    Uuid { bits: uuid::Uuid::new_v4().as_u128() }
}

fn stamp(t: DateTime<Utc>) -> Timestamp {
    Timestamp::new(t.timestamp(), t.timestamp_subsec_nanos()).unwrap()
}

fn detection(
    site: Uuid,
    worker: Option<Uuid>,
    rule: RuleType,
    confidence_bp: u16,
    occured_at: DateTime<Utc>,
) -> Detection {
    Detection { site_id: site, worker_id: worker, rule_type: rule, confidence_bp, occured_at: stamp(occured_at) }
}

#[test]
fn fires_on_first_valid_detection() {
    let mut engine = RulesEngine::new(RulesEngineConfig::default());
    let site = new_id();
    let now = Utc::now();

    let result = engine
        .evaluate(&[detection(site, None, RuleType::ZoneBreach, 8000, now)])
        .unwrap();

    assert_eq!(result.len(), 1);
    assert_eq!(result[0].rule_triggered, RuleType::ZoneBreach);
}

#[test]
fn below_min_confidence_is_silently_dropped_not_errores() {
    let mut engine = RulesEngine::new(RulesEngineConfig::default());
    let site = new_id();
    let now = Utc::now();

    let result = engine
        .evaluate(&[detection(site, None, RuleType::PpeMissing, 400, now)])
        .unwrap();

    assert!(result.is_empty());
}

#[test]
fn confidence_exactly_at_threshold_fires() {
    let mut engine = RulesEngine::new(RulesEngineConfig::default());
    let site = new_id();
    let now = Utc::now();

    let result = engine
        .evaluate(&[detection(site, None, RuleType::PpeMissing, 6000, now)])
        .unwrap();

    assert_eq!(result.len(), 1);
}

#[test]
fn confidence_over_10000_is_a_hard_error() {
    let mut engine = RulesEngine::new(RulesEngineConfig::default());
    let site = new_id();
    let now = Utc::now();

    let result = engine.evaluate(&[detection(site, None, RuleType::PpeMissing, 10_001, now)]);

    assert_eq!(result, Err(RuleEngineError::ConfidenceOutOfRange(10_001)));
}

#[test]
fn malformed_detection_blocks_the_entire_batch_not_just_itself() {
    let mut engine = RulesEngine::new(RulesEngineConfig::default());
    let site = new_id();
    let now = Utc::now();

    let good = detection(site, None, RuleType::ZoneBreach, 9000, now);
    let bad = detection(site, None, RuleType::PpeMissing, 20_000, now);

    let result = engine.evaluate(&[good, bad]);
    assert!(result.is_err());

    let mut engine2 = RulesEngine::new(RulesEngineConfig::default());
    let retry = engine2
        .evaluate(&[detection(site, None, RuleType::ZoneBreach, 9000, now)])
        .unwrap();
    assert_eq!(retry.len(), 1);

    // The engine that refused the batch has not noted a firing either.
    let same_engine = engine
        .evaluate(&[detection(site, None, RuleType::ZoneBreach, 9000, now)])
        .unwrap();
    assert_eq!(same_engine.len(), 1);
}

#[test]
fn debounce_suppresses_repeat_within_window() {
    let mut engine = RulesEngine::new(RulesEngineConfig::default());
    let site = new_id();
    let t0 = Utc::now();
    let t1 = t0 + ChronoDuration::seconds(10);

    let first = engine
        .evaluate(&[detection(site, None, RuleType::ZoneBreach, 9000, t0)])
        .unwrap();
    let second = engine
        .evaluate(&[detection(site, None, RuleType::ZoneBreach, 9000, t1)])
        .unwrap();

    assert_eq!(first.len(), 1);
    assert_eq!(second.len(), 0);
}

#[test]
fn debounce_boundary_is_inclusive_at_exact_window() {
    let mut engine = RulesEngine::new(RulesEngineConfig::default());
    let site = new_id();
    let t0 = Utc::now();
    let t1 = t0 + ChronoDuration::seconds(30);

    engine
        .evaluate(&[detection(site, None, RuleType::ZoneBreach, 9000, t0)])
        .unwrap();
    let second = engine
        .evaluate(&[detection(site, None, RuleType::ZoneBreach, 9000, t1)])
        .unwrap();

    assert_eq!(second.len(), 1);
}

#[test]
fn different_workers_at_same_site_are_debounced_independently() {
    let mut engine = RulesEngine::new(RulesEngineConfig::default());
    let site = new_id();
    let worker_a = Some(new_id());
    let worker_b = Some(new_id());
    let now = Utc::now();

    let result = engine
        .evaluate(&[
            detection(site, worker_a, RuleType::PpeMissing, 9000, now),
            detection(site, worker_b, RuleType::PpeMissing, 9000, now),
        ])
        .unwrap();

    assert_eq!(result.len(), 2);
}

#[test]
fn zone_breach_with_no_worker_attributed_still_fires() {
    let mut engine = RulesEngine::new(RulesEngineConfig::default());
    let site = new_id();
    let now = Utc::now();

    let result = engine
        .evaluate(&[detection(site, None, RuleType::ZoneBreach, 7500, now)])
        .unwrap();

    assert_eq!(result.len(), 1);
    assert_eq!(result[0].worker_id, None);
}

#[test]
fn different_rule_types_at_same_site_worker_do_not_share_debounce_state() {
    let mut engine = RulesEngine::new(RulesEngineConfig::default());
    let site = new_id();
    let worker = Some(new_id());
    let now = Utc::now();

    let result = engine
        .evaluate(&[
            detection(site, worker, RuleType::PpeMissing, 9000, now),
            detection(site, worker, RuleType::ZoneBreach, 9000, now),
        ])
        .unwrap();

    assert_eq!(result.len(), 2);
}

#[test]
fn default_settings_are_sixty_percent_and_thirty_seconds() {
    let config = RulesEngineConfig::default();
    assert_eq!(config.min_confidence_bp, 6000);
    assert_eq!(config.debounce_window, TimeDelta::seconds(30));
}

#[test]
fn incident_copies_the_detection() {
    let site = Uuid { bits: 1 };
    let worker = Some(Uuid { bits: 2 });
    let t = Utc.timestamp_opt(1_700_000_000, 5).unwrap();
    let mut engine = RulesEngine::new(RulesEngineConfig::default());
    let result = engine.evaluate(&[detection(site, worker, RuleType::PpeMissing, 10_000, t)]).unwrap();
    assert_eq!(
        result,
        vec![IncidentCandidate {
            site_id: site,
            worker_id: worker,
            rule_triggered: RuleType::PpeMissing,
            confidence_bp: 10_000,
            detected_at: stamp(t),
        }]
    );
}

#[test]
fn one_nanosecond_short_of_the_window_is_suppressed() {
    let mut engine = RulesEngine::new(RulesEngineConfig::default());
    let site = Uuid { bits: 7 };
    let t0 = Utc.timestamp_opt(1_700_000_000, 0).unwrap();
    let t1 = t0 + ChronoDuration::seconds(30) - ChronoDuration::nanoseconds(1);
    assert_eq!(engine.evaluate(&[detection(site, None, RuleType::ZoneBreach, 9000, t0)]).unwrap().len(), 1);
    assert_eq!(engine.evaluate(&[detection(site, None, RuleType::ZoneBreach, 9000, t1)]).unwrap().len(), 0);
}

#[test]
fn suppressed_repeats_do_not_extend_the_silence() {
    let mut engine = RulesEngine::new(RulesEngineConfig::default());
    let site = Uuid { bits: 7 };
    let t0 = Utc.timestamp_opt(1_700_000_000, 0).unwrap();
    let fired: Vec<usize> = [0, 20, 30, 50, 60]
        .iter()
        .map(|s| {
            let t = t0 + ChronoDuration::seconds(*s);
            engine.evaluate(&[detection(site, None, RuleType::ZoneBreach, 9000, t)]).unwrap().len()
        })
        .collect();
    assert_eq!(fired, vec![1, 0, 1, 0, 1]);
}

#[test]
fn earlier_detection_after_a_firing_is_suppressed() {
    let mut engine = RulesEngine::new(RulesEngineConfig::default());
    let site = Uuid { bits: 7 };
    let t0 = Utc.timestamp_opt(1_700_000_000, 0).unwrap();
    let t1 = t0 - ChronoDuration::days(2);
    assert_eq!(engine.evaluate(&[detection(site, None, RuleType::ZoneBreach, 9000, t0)]).unwrap().len(), 1);
    assert_eq!(engine.evaluate(&[detection(site, None, RuleType::ZoneBreach, 9000, t1)]).unwrap().len(), 0);
}

#[test]
fn batching_makes_no_difference() {
    let site = Uuid { bits: 7 };
    let t0 = Utc.timestamp_opt(1_700_000_000, 0).unwrap();
    let all: Vec<Detection> = (0..40)
        .map(|i| {
            let worker = if i % 3 == 0 { None } else { Some(Uuid { bits: i % 3 }) };
            let rule = if i % 2 == 0 { RuleType::PpeMissing } else { RuleType::ZoneBreach };
            let bp = (5000 + (i * 977) % 5000) as u16;
            detection(site, worker, rule, bp, t0 + ChronoDuration::seconds(7 * i as i64))
        })
        .collect();
    let whole = RulesEngine::new(RulesEngineConfig::default()).evaluate(&all).unwrap();
    let mut engine = RulesEngine::new(RulesEngineConfig::default());
    let mut pieces = engine.evaluate(&all[..13]).unwrap();
    pieces.extend(engine.evaluate(&all[13..]).unwrap());
    assert_eq!(whole, pieces);
    assert!(whole.len() > 3 && whole.len() < 40);

    // What one key fires does not depend on the others.
    let own: Vec<Detection> = all.iter().filter(|d| d.worker_id.is_none() && d.rule_type == RuleType::PpeMissing).cloned().collect();
    let alone = RulesEngine::new(RulesEngineConfig::default()).evaluate(&own).unwrap();
    let among: Vec<IncidentCandidate> = whole
        .iter()
        .filter(|c| c.worker_id.is_none() && c.rule_triggered == RuleType::PpeMissing)
        .cloned()
        .collect();
    assert_eq!(alone, among);

    // Noise leaves no trace.
    let loud: Vec<Detection> = all.iter().filter(|d| d.confidence_bp >= 6000).cloned().collect();
    assert_eq!(RulesEngine::new(RulesEngineConfig::default()).evaluate(&loud).unwrap(), whole);
}

#[test]
fn first_confidence_out_of_range_is_reported() {
    let mut engine = RulesEngine::new(RulesEngineConfig::default());
    let now = Utc::now();
    let batch = [
        detection(Uuid { bits: 1 }, None, RuleType::ZoneBreach, 10_000, now),
        detection(Uuid { bits: 1 }, None, RuleType::ZoneBreach, 12_345, now),
        detection(Uuid { bits: 1 }, None, RuleType::ZoneBreach, 54_321, now),
    ];
    assert_eq!(engine.evaluate(&batch), Err(RuleEngineError::ConfidenceOutOfRange(12_345)));
}

#[test]
fn empty_batch_fires_nothing() {
    let mut engine = RulesEngine::new(RulesEngineConfig::default());
    assert_eq!(engine.evaluate(&[]), Ok(vec![]));
}

#[test]
fn sites_are_debounced_independently() {
    let mut engine = RulesEngine::new(RulesEngineConfig::default());
    let now = Utc::now();
    let fired = engine
        .evaluate(&[
            detection(Uuid { bits: 1 }, None, RuleType::ZoneBreach, 9000, now),
            detection(Uuid { bits: 2 }, None, RuleType::ZoneBreach, 9000, now),
            detection(Uuid { bits: 1 }, None, RuleType::ZoneBreach, 9000, now),
        ])
        .unwrap();
    assert_eq!(fired.len(), 2);
}

#[test]
fn rule_names() {
    assert_eq!(RuleType::PpeMissing.as_db_str(), "ppe_missing");
    assert_eq!(RuleType::ZoneBreach.as_db_str(), "zone_breach");
}

#[test]
fn noise_neither_fires_nor_silences() {
    let mut engine = RulesEngine::new(RulesEngineConfig::default());
    let site = new_id();
    let now = Utc::now();
    let noise = detection(site, None, RuleType::PpeMissing, 5999, now);
    let loud = detection(site, None, RuleType::PpeMissing, 6000, now);
    let fired = engine.evaluate(&[noise, loud, noise]).unwrap();
    assert_eq!(fired.len(), 1);
    assert_eq!(fired[0].confidence_bp, 6000);
}

#[test]
fn any_two_incidents_of_a_key_are_a_window_apart() {
    let mut engine = RulesEngine::new(RulesEngineConfig::default());
    let site = Uuid { bits: 7 };
    let t0 = Utc.timestamp_opt(1_700_000_000, 0).unwrap();
    let mut life = Vec::new();
    for seconds in [0, 45, 10, 74, 75, -100, 200, 105, 230, 229] {
        let t = t0 + ChronoDuration::seconds(seconds);
        let refused = detection(site, None, RuleType::ZoneBreach, 10_001, t + ChronoDuration::seconds(500));
        assert!(engine.evaluate(&[refused]).is_err());
        life.extend(engine.evaluate(&[detection(site, None, RuleType::ZoneBreach, 9000, t)]).unwrap());
    }
    let times: Vec<i64> = life.iter().map(|i| i.detected_at.timestamp() - 1_700_000_000).collect();
    assert_eq!(times, vec![0, 45, 75, 200, 230]);
    for i in 0..times.len() {
        for j in i + 1..times.len() {
            assert!(times[j] - times[i] >= 30);
        }
    }
}

#[test]
fn short_windows_do_not_add_up_across_a_leap_second() {
    let config = RulesEngineConfig { min_confidence_bp: 0, debounce_window: TimeDelta::new(0, 500_000_000).unwrap() };
    let mut engine = RulesEngine::new(config);
    let at = |secs: i64, nanos: u32| Detection {
        site_id: Uuid { bits: 7 },
        worker_id: None,
        rule_type: RuleType::ZoneBreach,
        confidence_bp: 1,
        occured_at: Timestamp::new(secs, nanos).unwrap(),
    };
    let fired = engine.evaluate(&[at(59, 800_000_000), at(59, 1_400_000_000), at(60, 0)]).unwrap();
    assert_eq!(fired.len(), 3);
}

#[test]
fn leap_second_of_another_key_takes_nothing_from_short_windows() {
    let config = RulesEngineConfig { min_confidence_bp: 0, debounce_window: TimeDelta::new(0, 500_000_000).unwrap() };
    let mut engine = RulesEngine::new(config);
    let at = |rule_type: RuleType, secs: i64, nanos: u32| Detection {
        site_id: Uuid { bits: 7 },
        worker_id: None,
        rule_type,
        confidence_bp: 1,
        occured_at: Timestamp::new(secs, nanos).unwrap(),
    };
    let fired = engine
        .evaluate(&[
            at(RuleType::ZoneBreach, 59, 0),
            at(RuleType::PpeMissing, 59, 1_400_000_000),
            at(RuleType::ZoneBreach, 59, 499_999_999),
            at(RuleType::ZoneBreach, 59, 500_000_000),
            at(RuleType::ZoneBreach, 60, 0),
        ])
        .unwrap();
    let times: Vec<i64> = fired
        .iter()
        .filter(|i| i.rule_triggered == RuleType::ZoneBreach)
        .map(|i| i.detected_at.timestamp() * 1_000_000_000 + i.detected_at.timestamp_subsec_nanos() as i64)
        .collect();
    assert_eq!(times, vec![59_000_000_000, 59_500_000_000, 60_000_000_000]);
}
