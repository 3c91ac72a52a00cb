//! What holds of the rules engine over whole histories of detections.

use vstd::prelude::*;

use crate::rules::{
    candidate_of, fires, firings_after, in_range, incidents, key_of, DebounceKey, Detection,
    Firings, IncidentCandidate, RulesEngineConfig, MAX_CONFIDENCE_BP,
};
use crate::time::{elapsed_nanos, Timestamp, NANOS_PER_SEC};

verus! {

/// The debounce key of a fired incident.
pub open spec fn incident_key(incident: IncidentCandidate) -> DebounceKey {
    DebounceKey {
        site_id: incident.site_id,
        worker_id: incident.worker_id,
        rule_type: incident.rule_triggered,
    }
}

/// How detections are cut into batches does not matter: two batches one after the other fire
/// what the joined batch fires, and leave the same memory.
pub proof fn law_batching_is_irrelevant(
    config: RulesEngineConfig,
    firings: Firings,
    first: Seq<Detection>,
    second: Seq<Detection>,
)
    ensures
        firings_after(config, firings, first + second) == firings_after(
            config,
            firings_after(config, firings, first),
            second,
        ),
        incidents(config, firings, first + second) == incidents(config, firings, first)
            + incidents(config, firings_after(config, firings, first), second),
    decreases second.len(),
{
    if second.len() == 0 {
        assert(first + second =~= first);
        assert(incidents(config, firings, first) =~= incidents(config, firings, first)
            + Seq::<IncidentCandidate>::empty());
    } else {
        assert((first + second).drop_last() =~= first + second.drop_last());
        law_batching_is_irrelevant(config, firings, first, second.drop_last());
        let middle = firings_after(config, firings, first);
        assert(incidents(config, firings, first + second) =~= incidents(config, firings, first)
            + incidents(config, middle, second));
    }
}

/// A detection whose key has never fired, and which reaches the confidence floor, fires.
pub proof fn law_fresh_key_fires(config: RulesEngineConfig, firings: Firings, d: Detection)
    requires
        d.confidence_bp >= config.min_confidence_bp,
        !firings.contains_key(key_of(d)),
    ensures
        incidents(config, firings, seq![d]) == seq![candidate_of(d)],
{
    reveal_with_fuel(firings_after, 2);
    reveal_with_fuel(incidents, 2);
    assert(seq![d].drop_last() =~= Seq::<Detection>::empty());
    assert(incidents(config, firings, seq![d]) =~= seq![candidate_of(d)]);
}

/// After a detection has fired, a second one with the same key that reaches the confidence floor
/// fires if and only if at least the window has passed: exactly the window is enough.
pub proof fn law_repeat_fires_from_the_window_on(
    config: RulesEngineConfig,
    firings: Firings,
    d: Detection,
    repeat: Detection,
)
    requires
        fires(config, firings, d),
        key_of(repeat) == key_of(d),
        repeat.confidence_bp >= config.min_confidence_bp,
    ensures
        incidents(config, firings_after(config, firings, seq![d]), seq![repeat]) == (if elapsed_nanos(
            repeat.occured_at,
            d.occured_at,
        ) >= config.debounce_window.spec_nanos() {
            seq![candidate_of(repeat)]
        } else {
            Seq::empty()
        }),
{
    reveal_with_fuel(firings_after, 2);
    reveal_with_fuel(incidents, 2);
    assert(seq![d].drop_last() =~= Seq::<Detection>::empty());
    assert(seq![repeat].drop_last() =~= Seq::<Detection>::empty());
    let after = firings_after(config, firings, seq![d]);
    assert(after == firings.insert(key_of(d), d.occured_at));
    assert(Seq::<IncidentCandidate>::empty().push(candidate_of(repeat)) =~= seq![
        candidate_of(repeat),
    ]);
}

/// Detections below the confidence floor leave no trace: dropping them from a batch changes
/// neither what fires nor what is remembered.
pub proof fn law_noise_leaves_no_trace(
    config: RulesEngineConfig,
    firings: Firings,
    detections: Seq<Detection>,
)
    ensures
        incidents(config, firings, detections) == incidents(
            config,
            firings,
            detections.filter(|d: Detection| d.confidence_bp >= config.min_confidence_bp),
        ),
        firings_after(config, firings, detections) == firings_after(
            config,
            firings,
            detections.filter(|d: Detection| d.confidence_bp >= config.min_confidence_bp),
        ),
    decreases detections.len(),
{
    reveal(Seq::filter);
    let loud = |d: Detection| d.confidence_bp >= config.min_confidence_bp;
    if detections.len() != 0 {
        law_noise_leaves_no_trace(config, firings, detections.drop_last());
        let rest = detections.drop_last().filter(loud);
        if loud(detections.last()) {
            assert(rest.push(detections.last()).drop_last() =~= rest);
        }
    }
}

/// Debouncing never reaches across keys: what fires for one site, worker and rule, and when it
/// last fired, is what the detections of that key alone would give.
pub proof fn law_keys_are_independent(
    config: RulesEngineConfig,
    firings: Firings,
    detections: Seq<Detection>,
    key: DebounceKey,
)
    ensures
        incidents(config, firings, detections).filter(
            |incident: IncidentCandidate| incident_key(incident) == key,
        ) == incidents(config, firings, detections.filter(|d: Detection| key_of(d) == key)),
        firings_after(config, firings, detections).contains_key(key) == firings_after(
            config,
            firings,
            detections.filter(|d: Detection| key_of(d) == key),
        ).contains_key(key),
        firings_after(config, firings, detections)[key] == firings_after(
            config,
            firings,
            detections.filter(|d: Detection| key_of(d) == key),
        )[key],
    decreases detections.len(),
{
    reveal(Seq::filter);
    let mine = |d: Detection| key_of(d) == key;
    let own = |incident: IncidentCandidate| incident_key(incident) == key;
    if detections.len() != 0 {
        law_keys_are_independent(config, firings, detections.drop_last(), key);
        let d = detections.last();
        let rest = detections.drop_last().filter(mine);
        let earlier = incidents(config, firings, detections.drop_last());
        if mine(d) {
            assert(rest.push(d).drop_last() =~= rest);
        }
        if fires(config, firings_after(config, firings, detections.drop_last()), d) {
            assert(earlier.push(candidate_of(d)).drop_last() =~= earlier);
        }
    } else {
        assert(detections.filter(mine) =~= detections);
        assert(incidents(config, firings, detections).filter(own) =~= Seq::empty());
    }
}

/// What the engine remembers of a key is the time of the last incident that fired for it, or what
/// it remembered before where none did.
pub proof fn law_memory_is_the_last_incident(
    config: RulesEngineConfig,
    firings: Firings,
    detections: Seq<Detection>,
    key: DebounceKey,
)
    ensures
        ({
            let fired = incidents(config, firings, detections).filter(
                |incident: IncidentCandidate| incident_key(incident) == key,
            );
            let after = firings_after(config, firings, detections);
            if fired.len() == 0 {
                &&& after.contains_key(key) == firings.contains_key(key)
                &&& after[key] == firings[key]
            } else {
                &&& after.contains_key(key)
                &&& after[key] == fired.last().detected_at
            }
        }),
    decreases detections.len(),
{
    reveal(Seq::filter);
    if detections.len() != 0 {
        law_memory_is_the_last_incident(config, firings, detections.drop_last(), key);
        let d = detections.last();
        let earlier = incidents(config, firings, detections.drop_last());
        if fires(config, firings_after(config, firings, detections.drop_last()), d) {
            assert(earlier.push(candidate_of(d)).drop_last() =~= earlier);
        }
    }
}

/// Consecutive incidents of one key are at least a window apart, and the first is at least a
/// window after the last one that was remembered.
pub proof fn law_incidents_of_a_key_are_spaced(
    config: RulesEngineConfig,
    firings: Firings,
    detections: Seq<Detection>,
    key: DebounceKey,
)
    ensures
        ({
            let fired = incidents(config, firings, detections).filter(
                |incident: IncidentCandidate| incident_key(incident) == key,
            );
            let window = config.debounce_window.spec_nanos();
            &&& forall|i: int, j: int|
                0 <= i && j == i + 1 && j < fired.len() ==> elapsed_nanos(
                    (#[trigger] fired[j]).detected_at,
                    (#[trigger] fired[i]).detected_at,
                ) >= window
            &&& fired.len() > 0 && firings.contains_key(key) ==> elapsed_nanos(
                fired[0].detected_at,
                firings[key],
            ) >= window
        }),
    decreases detections.len(),
{
    reveal(Seq::filter);
    if detections.len() != 0 {
        let shorter = detections.drop_last();
        law_incidents_of_a_key_are_spaced(config, firings, shorter, key);
        law_memory_is_the_last_incident(config, firings, shorter, key);
        let d = detections.last();
        let earlier = incidents(config, firings, shorter);
        if fires(config, firings_after(config, firings, shorter), d) {
            assert(earlier.push(candidate_of(d)).drop_last() =~= earlier);
        }
    }
}

/// Whether `incidents` stand for the detections at the places `at`, in order.
pub open spec fn drawn_from(
    fired: Seq<IncidentCandidate>,
    detections: Seq<Detection>,
    at: Seq<int>,
) -> bool {
    &&& at.len() == fired.len()
    &&& forall|i: int, j: int| 0 <= i < j < at.len() ==> #[trigger] at[i] < #[trigger] at[j]
    &&& forall|i: int|
        0 <= i < at.len() ==> 0 <= #[trigger] at[i] < detections.len() && fired[i] == candidate_of(
            detections[at[i]],
        )
}

/// Incidents are copies of detections, at most one for each, in the order of the detections, and
/// only of those that reach the confidence floor.
pub proof fn law_incidents_come_from_detections(
    config: RulesEngineConfig,
    firings: Firings,
    detections: Seq<Detection>,
)
    ensures
        incidents(config, firings, detections).len() <= detections.len(),
        exists|at: Seq<int>|
            drawn_from(incidents(config, firings, detections), detections, at),
        forall|i: int|
            0 <= i < incidents(config, firings, detections).len() ==> (#[trigger] incidents(
                config,
                firings,
                detections,
            )[i]).confidence_bp >= config.min_confidence_bp,
    decreases detections.len(),
{
    let fired = incidents(config, firings, detections);
    if detections.len() == 0 {
        assert(drawn_from(fired, detections, Seq::empty()));
    } else {
        let shorter = detections.drop_last();
        law_incidents_come_from_detections(config, firings, shorter);
        let earlier = incidents(config, firings, shorter);
        let at = choose|at: Seq<int>| drawn_from(earlier, shorter, at);
        if fires(config, firings_after(config, firings, shorter), detections.last()) {
            assert(drawn_from(fired, detections, at.push(detections.len() - 1)));
        } else {
            assert(drawn_from(fired, detections, at));
        }
    }
}

/// Of a batch that is not refused, every incident has a confidence in range.
pub proof fn law_incidents_are_in_range(
    config: RulesEngineConfig,
    firings: Firings,
    detections: Seq<Detection>,
)
    requires
        in_range(detections),
    ensures
        forall|i: int|
            0 <= i < incidents(config, firings, detections).len() ==> (#[trigger] incidents(
                config,
                firings,
                detections,
            )[i]).confidence_bp <= MAX_CONFIDENCE_BP,
{
    law_incidents_come_from_detections(config, firings, detections);
    let fired = incidents(config, firings, detections);
    let at = choose|at: Seq<int>| drawn_from(fired, detections, at);
    assert forall|i: int| 0 <= i < fired.len() implies (#[trigger] fired[i]).confidence_bp
        <= MAX_CONFIDENCE_BP by {
        assert(fired[i] == candidate_of(detections[at[i]]));
    }
}

/// Whether an incident lies within a leap second.
pub open spec fn in_leap_second(incident: IncidentCandidate) -> bool {
    incident.detected_at.spec_nanos() >= NANOS_PER_SEC
}

/// Whether gaps of a window add up between the incidents at `i` and `j` of one key: the window has
/// at least a second, or neither the two nor any incident of the key between them lie within a leap
/// second, which may count in the gaps on both its sides but not in the one across. Where there is
/// no incident of the key between them, there is nothing to add up.
pub open spec fn gaps_add_up(
    config: RulesEngineConfig,
    fired: Seq<IncidentCandidate>,
    i: int,
    j: int,
) -> bool {
    ||| config.debounce_window.spec_nanos() >= NANOS_PER_SEC
    ||| forall|k: int|
        i < k < j && incident_key(#[trigger] fired[k]) == incident_key(fired[i])
            ==> !in_leap_second(fired[i]) && !in_leap_second(fired[k]) && !in_leap_second(fired[j])
}

/// Whether every two incidents of one key, between which gaps add up, are at least a window apart,
/// the later from the earlier.
pub open spec fn all_spaced(config: RulesEngineConfig, fired: Seq<IncidentCandidate>) -> bool {
    forall|i: int, j: int|
        0 <= i < j < fired.len() && incident_key(fired[i]) == incident_key(fired[j])
            && gaps_add_up(config, fired, i, j) ==> elapsed_nanos(
            (#[trigger] fired[j]).detected_at,
            (#[trigger] fired[i]).detected_at,
        ) >= config.debounce_window.spec_nanos()
}

/// Two gaps add up to the gap across, but for a leap second that may count twice.
proof fn lemma_gaps(late: Timestamp, middle: Timestamp, early: Timestamp)
    ensures
        elapsed_nanos(late, early) >= elapsed_nanos(late, middle) + elapsed_nanos(middle, early)
            - NANOS_PER_SEC,
        late.spec_nanos() < NANOS_PER_SEC && middle.spec_nanos() < NANOS_PER_SEC
            && early.spec_nanos() < NANOS_PER_SEC ==> elapsed_nanos(late, early) == elapsed_nanos(
            late,
            middle,
        ) + elapsed_nanos(middle, early),
{
}

/// The place of the last incident of a key, or -1 where there is none.
spec fn latest(fired: Seq<IncidentCandidate>, key: DebounceKey) -> int
    decreases fired.len(),
{
    if fired.len() == 0 || incident_key(fired.last()) == key {
        fired.len() - 1
    } else {
        latest(fired.drop_last(), key)
    }
}

proof fn lemma_latest(fired: Seq<IncidentCandidate>, i: int)
    requires
        0 <= i < fired.len(),
    ensures
        i <= latest(fired, incident_key(fired[i])) < fired.len(),
        incident_key(fired[latest(fired, incident_key(fired[i]))]) == incident_key(fired[i]),
    decreases fired.len(),
{
    if incident_key(fired.last()) != incident_key(fired[i]) {
        lemma_latest(fired.drop_last(), i);
    }
}

/// What is remembered of the key of an incident is the time of the last incident of that key.
proof fn lemma_memory_is_latest(
    config: RulesEngineConfig,
    firings: Firings,
    detections: Seq<Detection>,
    i: int,
)
    requires
        0 <= i < incidents(config, firings, detections).len(),
    ensures
        ({
            let fired = incidents(config, firings, detections);
            let after = firings_after(config, firings, detections);
            let key = incident_key(fired[i]);
            after.contains_key(key) && after[key] == fired[latest(fired, key)].detected_at
        }),
    decreases detections.len(),
{
    if detections.len() != 0 {
        let shorter = detections.drop_last();
        let d = detections.last();
        let earlier = incidents(config, firings, shorter);
        let fired = incidents(config, firings, detections);
        if fires(config, firings_after(config, firings, shorter), d) {
            assert(fired.drop_last() =~= earlier);
            if i < earlier.len() {
                assert(fired[i] == earlier[i]);
                lemma_memory_is_latest(config, firings, shorter, i);
                lemma_latest(earlier, i);
            }
        } else {
            lemma_memory_is_latest(config, firings, shorter, i);
        }
    }
}

/// An incident is spaced from every earlier one of its key, where those are from each other.
proof fn lemma_next_is_spaced(
    config: RulesEngineConfig,
    firings: Firings,
    detections: Seq<Detection>,
    d: Detection,
    i: int,
)
    requires
        config.debounce_window.spec_nanos() >= 0,
        fires(config, firings_after(config, firings, detections), d),
        all_spaced(config, incidents(config, firings, detections)),
        0 <= i < incidents(config, firings, detections).len(),
        incident_key(incidents(config, firings, detections)[i]) == key_of(d),
        gaps_add_up(
            config,
            incidents(config, firings, detections).push(candidate_of(d)),
            i,
            incidents(config, firings, detections).len() as int,
        ),
    ensures
        elapsed_nanos(d.occured_at, incidents(config, firings, detections)[i].detected_at)
            >= config.debounce_window.spec_nanos(),
{
    let earlier = incidents(config, firings, detections);
    let fired = earlier.push(candidate_of(d));
    let last = latest(earlier, key_of(d));
    lemma_latest(earlier, i);
    lemma_memory_is_latest(config, firings, detections, i);
    assert(elapsed_nanos(d.occured_at, earlier[last].detected_at)
        >= config.debounce_window.spec_nanos());
    if i < last {
        assert(fired[i] == earlier[i] && fired[last] == earlier[last]);
        assert(gaps_add_up(config, earlier, i, last)) by {
            if config.debounce_window.spec_nanos() < NANOS_PER_SEC {
                assert forall|k: int|
                    i < k < last && incident_key(#[trigger] earlier[k]) == incident_key(
                        earlier[i],
                    ) implies !in_leap_second(earlier[i]) && !in_leap_second(earlier[k])
                    && !in_leap_second(earlier[last]) by {
                    assert(fired[k] == earlier[k]);
                }
            }
        }
        lemma_gaps(d.occured_at, earlier[last].detected_at, earlier[i].detected_at);
    }
}

/// Every two incidents of one key, not only consecutive ones, are at least a window apart, where
/// gaps of a window add up between them.
pub proof fn law_any_two_incidents_of_a_key_are_spaced(
    config: RulesEngineConfig,
    firings: Firings,
    detections: Seq<Detection>,
)
    requires
        config.debounce_window.spec_nanos() >= 0,
    ensures
        all_spaced(config, incidents(config, firings, detections)),
    decreases detections.len(),
{
    if detections.len() != 0 {
        let shorter = detections.drop_last();
        let d = detections.last();
        let earlier = incidents(config, firings, shorter);
        let fired = incidents(config, firings, detections);
        law_any_two_incidents_of_a_key_are_spaced(config, firings, shorter);
        if fires(config, firings_after(config, firings, shorter), d) {
            let n = earlier.len() as int;
            assert(fired == earlier.push(candidate_of(d)));
            assert forall|i: int, j: int|
                0 <= i < j < fired.len() && incident_key(fired[i]) == incident_key(fired[j])
                    && gaps_add_up(config, fired, i, j) implies elapsed_nanos(
                (#[trigger] fired[j]).detected_at,
                (#[trigger] fired[i]).detected_at,
            ) >= config.debounce_window.spec_nanos() by {
                assert(fired[i] == earlier[i]);
                if j < n {
                    assert(fired[j] == earlier[j]);
                    assert(gaps_add_up(config, earlier, i, j)) by {
                        if config.debounce_window.spec_nanos() < NANOS_PER_SEC {
                            assert forall|k: int|
                                i < k < j && incident_key(#[trigger] earlier[k]) == incident_key(
                                    earlier[i],
                                ) implies !in_leap_second(earlier[i]) && !in_leap_second(earlier[k])
                                && !in_leap_second(earlier[j]) by {
                                assert(fired[k] == earlier[k]);
                            }
                        }
                    }
                } else {
                    lemma_next_is_spaced(config, firings, shorter, d, i);
                }
            }
        }
    }
}

/// What a new engine remembers, and all that it has fired, once it has been given these batches
/// one after the other. A batch that is refused leaves both as they are.
pub open spec fn history(config: RulesEngineConfig, batches: Seq<Seq<Detection>>) -> (
    Firings,
    Seq<IncidentCandidate>,
)
    decreases batches.len(),
{
    if batches.len() == 0 {
        (Map::empty(), Seq::empty())
    } else {
        let (firings, fired) = history(config, batches.drop_last());
        let batch = batches.last();
        if in_range(batch) {
            (
                firings_after(config, firings, batch),
                fired + incidents(config, firings, batch),
            )
        } else {
            (firings, fired)
        }
    }
}

/// The detections of the batches that are not refused, in order.
pub open spec fn accepted(batches: Seq<Seq<Detection>>) -> Seq<Detection>
    decreases batches.len(),
{
    if batches.len() == 0 {
        Seq::empty()
    } else if in_range(batches.last()) {
        accepted(batches.drop_last()) + batches.last()
    } else {
        accepted(batches.drop_last())
    }
}

/// A history is that of all accepted detections in one batch.
proof fn lemma_history(config: RulesEngineConfig, batches: Seq<Seq<Detection>>)
    ensures
        in_range(accepted(batches)),
        history(config, batches).0 == firings_after(config, Map::empty(), accepted(batches)),
        history(config, batches).1 == incidents(config, Map::empty(), accepted(batches)),
    decreases batches.len(),
{
    if batches.len() != 0 {
        lemma_history(config, batches.drop_last());
        law_batching_is_irrelevant(
            config,
            Map::empty(),
            accepted(batches.drop_last()),
            batches.last(),
        );
    }
}

/// Over the whole life of an engine, with timestamps in any order and batches refused or not: every
/// two incidents of one key are at least a window apart, where gaps of a window add up between
/// them, and every incident has a confidence from the floor to 10000.
pub proof fn law_a_life_of_incidents_is_spaced_and_in_range(
    config: RulesEngineConfig,
    batches: Seq<Seq<Detection>>,
)
    ensures
        ({
            let fired = history(config, batches).1;
            &&& config.debounce_window.spec_nanos() >= 0 ==> all_spaced(config, fired)
            &&& forall|i: int|
                0 <= i < fired.len() ==> config.min_confidence_bp <= (
                #[trigger] fired[i]).confidence_bp <= MAX_CONFIDENCE_BP
        }),
{
    let all = accepted(batches);
    lemma_history(config, batches);
    law_incidents_come_from_detections(config, Map::empty(), all);
    law_incidents_are_in_range(config, Map::empty(), all);
    if config.debounce_window.spec_nanos() >= 0 {
        law_any_two_incidents_of_a_key_are_spaced(config, Map::empty(), all);
    }
}

} // verus!
