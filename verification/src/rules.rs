//! The safety rules engine: detections in, incident candidates out.
//!
//! The engine drops detections below a confidence floor and keeps one continuous violation from
//! firing over and over: after an incident, the same site, worker and rule stay silent for a
//! configured window. It touches nothing but its own memory of past firings.

use vstd::prelude::*;

use crate::debounce::FiringLog;
use crate::ids::Uuid;
use crate::time::{elapsed_at_least, elapsed_nanos, TimeDelta, Timestamp};

verus! {

/// A safety rule that a worker can break.
#[derive(Clone, Copy, Debug, PartialEq, Eq, Hash, Structural)]
pub enum RuleType {
    PpeMissing,
    ZoneBreach,
}

/// What two detections must share for one to silence the other.
#[derive(Clone, Copy, Debug, PartialEq, Eq, Hash, Structural)]
pub struct DebounceKey {
    pub site_id: Uuid,
    pub worker_id: Option<Uuid>,
    pub rule_type: RuleType,
}

impl RuleType {
    /// The name of the rule in the database.
    pub open spec fn spec_db_str(self) -> Seq<char> {
        match self {
            RuleType::PpeMissing => "ppe_missing"@,
            RuleType::ZoneBreach => "zone_breach"@,
        }
    }

    /// The name of the rule in the database: the one place that spells it.
    pub fn as_db_str(&self) -> (name: &'static str)
        ensures
            name@ == self.spec_db_str(),
    {
        match self {
            RuleType::PpeMissing => "ppe_missing",
            RuleType::ZoneBreach => "zone_breach",
        }
    }
}

/// One detection of the vision layer in one frame. Confidence is in basis points, from 0 to
/// 10000.
#[derive(Clone, Copy, Debug)]
pub struct Detection {
    pub site_id: Uuid,
    pub worker_id: Option<Uuid>,
    pub rule_type: RuleType,
    pub confidence_bp: u16,
    pub occured_at: Timestamp,
}

/// Why a batch of detections is refused as a whole.
#[derive(Debug, PartialEq, Eq, Structural)]
pub enum RuleEngineError {
    /// A detection claims this confidence, which is above 10000 basis points.
    ConfidenceOutOfRange(u16),
}

/// An incident that is due to be stored.
#[derive(Clone, Copy, Debug, PartialEq, Eq, Structural)]
pub struct IncidentCandidate {
    pub site_id: Uuid,
    pub worker_id: Option<Uuid>,
    pub rule_triggered: RuleType,
    pub confidence_bp: u16,
    pub detected_at: Timestamp,
}

/// Highest confidence, in basis points.
pub const MAX_CONFIDENCE_BP: u16 = 10_000;

/// Settings of the engine.
pub struct RulesEngineConfig {
    /// Lowest confidence, in basis points, at which a detection counts. Lower ones are noise and
    /// are dropped without an error.
    pub min_confidence_bp: u16,
    /// Time that must pass after an incident before the same key can fire again.
    pub debounce_window: TimeDelta,
}

impl Default for RulesEngineConfig {
    /// A floor of 6000 basis points and a window of 30 seconds.
    fn default() -> (config: RulesEngineConfig)
        ensures
            config.min_confidence_bp == 6000,
            config.debounce_window.spec_nanos() == 30_000_000_000,
    {
        RulesEngineConfig { min_confidence_bp: 6000, debounce_window: TimeDelta::seconds(30) }
    }
}

/// When each key last fired.
pub type Firings = Map<DebounceKey, Timestamp>;

/// The key under which a detection is debounced.
pub open spec fn key_of(d: Detection) -> DebounceKey {
    DebounceKey { site_id: d.site_id, worker_id: d.worker_id, rule_type: d.rule_type }
}

/// The incident that a detection stands for.
pub open spec fn candidate_of(d: Detection) -> IncidentCandidate {
    IncidentCandidate {
        site_id: d.site_id,
        worker_id: d.worker_id,
        rule_triggered: d.rule_type,
        confidence_bp: d.confidence_bp,
        detected_at: d.occured_at,
    }
}

/// Whether a detection fires: it reaches the confidence floor, and its key either never fired or
/// last fired at least a window earlier.
pub open spec fn fires(config: RulesEngineConfig, firings: Firings, d: Detection) -> bool {
    &&& d.confidence_bp >= config.min_confidence_bp
    &&& firings.contains_key(key_of(d)) ==> elapsed_nanos(d.occured_at, firings[key_of(d)])
        >= config.debounce_window.spec_nanos()
}

/// Firing times once the detections have been taken one after the other.
pub open spec fn firings_after(
    config: RulesEngineConfig,
    firings: Firings,
    detections: Seq<Detection>,
) -> Firings
    decreases detections.len(),
{
    if detections.len() == 0 {
        firings
    } else {
        let before = firings_after(config, firings, detections.drop_last());
        let d = detections.last();
        if fires(config, before, d) {
            before.insert(key_of(d), d.occured_at)
        } else {
            before
        }
    }
}

/// The incidents of the detections that fire, each judged by the firing times that those before
/// it leave behind.
pub open spec fn incidents(
    config: RulesEngineConfig,
    firings: Firings,
    detections: Seq<Detection>,
) -> Seq<IncidentCandidate>
    decreases detections.len(),
{
    if detections.len() == 0 {
        Seq::empty()
    } else {
        let earlier = incidents(config, firings, detections.drop_last());
        let before = firings_after(config, firings, detections.drop_last());
        let d = detections.last();
        if fires(config, before, d) {
            earlier.push(candidate_of(d))
        } else {
            earlier
        }
    }
}

/// Whether every confidence of a batch is in range.
pub open spec fn in_range(detections: Seq<Detection>) -> bool {
    forall|i: int|
        0 <= i < detections.len() ==> (#[trigger] detections[i]).confidence_bp
            <= MAX_CONFIDENCE_BP
}

/// Whether detection `i` is the first of a batch whose confidence is out of range.
pub open spec fn first_out_of_range(detections: Seq<Detection>, i: int) -> bool {
    &&& 0 <= i < detections.len()
    &&& detections[i].confidence_bp > MAX_CONFIDENCE_BP
    &&& in_range(detections.take(i))
}

/// The rules engine: its settings and the firing times that it remembers. It has no `Clone`: a
/// copy would forget, or fork, the memory that debouncing rests on.
pub struct RulesEngine {
    config: RulesEngineConfig,
    last_fired: FiringLog,
}

impl RulesEngine {
    #[verifier::type_invariant]
    spec fn wf(self) -> bool {
        self.last_fired.wf()
    }

    /// The settings of the engine.
    pub closed spec fn spec_config(self) -> RulesEngineConfig {
        self.config
    }

    /// The firing times that the engine remembers.
    pub closed spec fn spec_firings(self) -> Firings {
        self.last_fired@
    }

    /// An engine that remembers no firing.
    pub fn new(config: RulesEngineConfig) -> (engine: RulesEngine)
        ensures
            engine.spec_config() == config,
            engine.spec_firings() == Map::<DebounceKey, Timestamp>::empty(),
    {
        RulesEngine { config, last_fired: FiringLog::new() }
    }

    /// Takes a batch of detections and returns the incidents to store. A batch with a confidence
    /// out of range is refused before any of it fires, with the first such confidence.
    pub fn evaluate(&mut self, detections: &[Detection]) -> (result: Result<
        Vec<IncidentCandidate>,
        RuleEngineError,
    >)
        ensures
            final(self).spec_config() == old(self).spec_config(),
            result is Ok <==> in_range(detections@),
            match result {
                Ok(fired) => {
                    &&& fired@ == incidents(
                        old(self).spec_config(),
                        old(self).spec_firings(),
                        detections@,
                    )
                    &&& final(self).spec_firings() == firings_after(
                        old(self).spec_config(),
                        old(self).spec_firings(),
                        detections@,
                    )
                },
                Err(RuleEngineError::ConfidenceOutOfRange(bp)) => {
                    &&& exists|i: int|
                        first_out_of_range(detections@, i) && detections@[i].confidence_bp == bp
                    &&& final(self).spec_firings() == old(self).spec_firings()
                },
            },
    {
        proof {
            use_type_invariant(&*self);
        }
        let mut i: usize = 0;
        while i < detections.len()
            invariant
                i <= detections.len(),
                forall|j: int|
                    0 <= j < i ==> (#[trigger] detections@[j]).confidence_bp <= MAX_CONFIDENCE_BP,
                *self == *old(self),
            decreases detections.len() - i,
        {
            if detections[i].confidence_bp > MAX_CONFIDENCE_BP {
                assert(first_out_of_range(detections@, i as int));
                return Err(RuleEngineError::ConfidenceOutOfRange(detections[i].confidence_bp));
            }
            i = i + 1;
        }

        let ghost firings = self.last_fired@;
        let mut log = FiringLog::new();
        std::mem::swap(&mut log, &mut self.last_fired);
        let mut fired: Vec<IncidentCandidate> = Vec::new();
        let mut next: usize = 0;
        assert(detections@.take(0) =~= Seq::<Detection>::empty());
        while next < detections.len()
            invariant
                next <= detections.len(),
                log.wf(),
                log@ == firings_after(self.config, firings, detections@.take(next as int)),
                fired@ == incidents(self.config, firings, detections@.take(next as int)),
                self.config == old(self).config,
                firings == old(self).last_fired@,
            decreases detections.len() - next,
        {
            let d = &detections[next];
            let ghost seen = detections@.take(next as int);
            assert(detections@.take(next + 1).drop_last() =~= seen);
            if d.confidence_bp >= self.config.min_confidence_bp {
                let key = DebounceKey {
                    site_id: d.site_id,
                    worker_id: d.worker_id,
                    rule_type: d.rule_type,
                };
                let due: bool = match log.last(&key) {
                    None => true,
                    Some(last) => elapsed_at_least(
                        &d.occured_at,
                        &last,
                        &self.config.debounce_window,
                    ),
                };
                if due {
                    log.record(key, d.occured_at);
                    fired.push(
                        IncidentCandidate {
                            site_id: d.site_id,
                            worker_id: d.worker_id,
                            rule_triggered: d.rule_type,
                            confidence_bp: d.confidence_bp,
                            detected_at: d.occured_at,
                        },
                    );
                }
            }
            next = next + 1;
        }
        assert(detections@.take(detections@.len() as int) =~= detections@);
        self.last_fired = log;
        Ok(fired)
    }
}

} // verus!
