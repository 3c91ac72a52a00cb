//! What holds of the calls of a rules engine, told by the fields of what goes in and comes out.

use vstd::prelude::*;

use crate::routes::{fire_incidents, out_of_range_detail, ErrorReply, StatusCode};
use crate::rules::{
    fires, firings_after, first_out_of_range, in_range, incidents, key_of, Detection, Firings,
    IncidentCandidate, RuleEngineError, RulesEngine, RulesEngineConfig,
};
use crate::rules_laws::law_batching_is_irrelevant;
use crate::text::decimal;
use crate::time::elapsed_nanos;

verus! {

/// Whether two detections are of one subject: the same site, the same worker and the same rule.
pub open spec fn same_subject(d: Detection, e: Detection) -> bool {
    d.site_id == e.site_id && d.worker_id == e.worker_id && d.rule_type == e.rule_type
}

/// Whether an incident tells of a detection, field by field.
pub open spec fn tells_of(incident: IncidentCandidate, d: Detection) -> bool {
    &&& incident.site_id == d.site_id
    &&& incident.worker_id == d.worker_id
    &&& incident.rule_triggered == d.rule_type
    &&& incident.confidence_bp == d.confidence_bp
    &&& incident.detected_at == d.occured_at
}

/// Whether no confidence of a batch is above 10000.
pub open spec fn well_formed(batch: Seq<Detection>) -> bool {
    forall|i: int| 0 <= i < batch.len() ==> (#[trigger] batch[i]).confidence_bp <= 10_000
}

/// Whether incidents tell of the detections at the places `at`, in order and one for one.
pub open spec fn tell_of(
    fired: Seq<IncidentCandidate>,
    detections: Seq<Detection>,
    at: Seq<int>,
) -> bool {
    &&& at.len() == fired.len()
    &&& forall|i: int, j: int| 0 <= i < j < at.len() ==> #[trigger] at[i] < #[trigger] at[j]
    &&& forall|i: int|
        0 <= i < at.len() ==> 0 <= #[trigger] at[i] < detections.len() && tells_of(
            fired[i],
            detections[at[i]],
        )
}

/// Whether place `k` of `at` is the last before detection `i` that has a detection of its subject.
pub open spec fn is_latest(detections: Seq<Detection>, at: Seq<int>, k: int, i: int) -> bool {
    &&& 0 <= k < at.len()
    &&& at[k] < i
    &&& same_subject(detections[at[k]], detections[i])
    &&& forall|m: int|
        k < m < at.len() && #[trigger] at[m] < i ==> !same_subject(
            detections[at[m]],
            detections[i],
        )
}

/// Whether detection `i` reaches the floor and comes at least a window after the latest one of its
/// subject that is at one of the places `at`, where there is one.
pub open spec fn is_due(
    config: RulesEngineConfig,
    detections: Seq<Detection>,
    at: Seq<int>,
    i: int,
) -> bool {
    &&& detections[i].confidence_bp >= config.min_confidence_bp
    &&& forall|k: int| #[trigger]
        is_latest(detections, at, k, i) ==> elapsed_nanos(
            detections[i].occured_at,
            detections[at[k]].occured_at,
        ) >= config.debounce_window.spec_nanos()
}

/// Whether `at` are the places of exactly those detections that are due.
pub open spec fn are_the_due(
    config: RulesEngineConfig,
    detections: Seq<Detection>,
    at: Seq<int>,
) -> bool {
    forall|i: int|
        0 <= i < detections.len() ==> (at.contains(i) <==> #[trigger] is_due(
            config,
            detections,
            at,
            i,
        ))
}

/// The places at which detections fire.
spec fn places(config: RulesEngineConfig, firings: Firings, detections: Seq<Detection>) -> Seq<int>
    decreases detections.len(),
{
    if detections.len() == 0 {
        Seq::empty()
    } else {
        let shorter = detections.drop_last();
        let earlier = places(config, firings, shorter);
        if fires(config, firings_after(config, firings, shorter), detections.last()) {
            earlier.push(detections.len() - 1)
        } else {
            earlier
        }
    }
}

proof fn lemma_places(config: RulesEngineConfig, firings: Firings, detections: Seq<Detection>)
    ensures
        tell_of(
            incidents(config, firings, detections),
            detections,
            places(config, firings, detections),
        ),
        forall|i: int|
            0 <= i < places(config, firings, detections).len() ==> detections[#[trigger] places(
                config,
                firings,
                detections,
            )[i]].confidence_bp >= config.min_confidence_bp,
    decreases detections.len(),
{
    if detections.len() != 0 {
        let shorter = detections.drop_last();
        lemma_places(config, firings, shorter);
        let at = places(config, firings, detections);
        let earlier = places(config, firings, shorter);
        let fired = incidents(config, firings, detections);
        let before = incidents(config, firings, shorter);
        assert forall|i: int| 0 <= i < at.len() implies 0 <= #[trigger] at[i] < detections.len()
            && tells_of(fired[i], detections[at[i]]) && detections[at[i]].confidence_bp
            >= config.min_confidence_bp by {
            if i < earlier.len() {
                assert(at[i] == earlier[i]);
                assert(fired[i] == before[i]);
                assert(detections[at[i]] == shorter[at[i]]);
            }
        }
    }
}

/// The last place among `at` that has a detection of the subject of `d`, or -1.
spec fn latest_place(detections: Seq<Detection>, at: Seq<int>, d: Detection) -> int
    decreases at.len(),
{
    if at.len() == 0 || same_subject(detections[at.last()], d) {
        at.len() - 1
    } else {
        latest_place(detections, at.drop_last(), d)
    }
}

proof fn lemma_latest_place(detections: Seq<Detection>, at: Seq<int>, d: Detection)
    ensures
        -1 <= latest_place(detections, at, d) < at.len(),
        latest_place(detections, at, d) >= 0 ==> same_subject(
            detections[at[latest_place(detections, at, d)]],
            d,
        ),
        forall|m: int|
            latest_place(detections, at, d) < m < at.len() ==> !same_subject(
                detections[#[trigger] at[m]],
                d,
            ),
    decreases at.len(),
{
    if at.len() != 0 && !same_subject(detections[at.last()], d) {
        let shorter = at.drop_last();
        lemma_latest_place(detections, shorter, d);
        assert forall|m: int| latest_place(detections, at, d) < m < at.len() implies !same_subject(
            detections[#[trigger] at[m]],
            d,
        ) by {
            if m < shorter.len() {
                assert(shorter[m] == at[m]);
            }
        }
    }
}

/// What an engine that was new remembers of a subject is the time of the latest detection of the
/// subject that fired.
proof fn lemma_memory(config: RulesEngineConfig, detections: Seq<Detection>, d: Detection)
    ensures
        ({
            let after = firings_after(config, Map::empty(), detections);
            let at = places(config, Map::empty(), detections);
            let k = latest_place(detections, at, d);
            if k >= 0 {
                after.contains_key(key_of(d)) && after[key_of(d)] == detections[at[k]].occured_at
            } else {
                !after.contains_key(key_of(d))
            }
        }),
    decreases detections.len(),
{
    if detections.len() != 0 {
        let shorter = detections.drop_last();
        lemma_memory(config, shorter, d);
        lemma_places(config, Map::empty(), shorter);
        lemma_places(config, Map::empty(), detections);
        let earlier = places(config, Map::empty(), shorter);
        let at = places(config, Map::empty(), detections);
        lemma_latest_place(shorter, earlier, d);
        lemma_same_latest(shorter, detections, earlier, d);
        if at.len() > earlier.len() {
            assert(at.drop_last() =~= earlier);
        }
    }
}

/// The latest place does not depend on detections behind the places.
proof fn lemma_same_latest(shorter: Seq<Detection>, longer: Seq<Detection>, at: Seq<int>, d: Detection)
    requires
        shorter.len() <= longer.len(),
        forall|i: int| 0 <= i < shorter.len() ==> shorter[i] == longer[i],
        forall|i: int| 0 <= i < at.len() ==> 0 <= #[trigger] at[i] < shorter.len(),
    ensures
        latest_place(shorter, at, d) == latest_place(longer, at, d),
    decreases at.len(),
{
    if at.len() != 0 {
        assert(0 <= at.last() < shorter.len());
        assert forall|i: int| 0 <= i < at.drop_last().len() implies 0 <= #[trigger] at.drop_last()[i]
            < shorter.len() by {
            assert(at.drop_last()[i] == at[i]);
        }
        lemma_same_latest(shorter, longer, at.drop_last(), d);
    }
}

/// Whether a detection is due does not depend on what comes after it.
proof fn lemma_due_before(
    config: RulesEngineConfig,
    detections: Seq<Detection>,
    at: Seq<int>,
    longer: Seq<int>,
    i: int,
)
    requires
        0 <= i < detections.len() - 1,
        forall|k: int| 0 <= k < at.len() ==> 0 <= #[trigger] at[k] < detections.len() - 1,
        longer == at || longer == at.push(detections.len() - 1),
    ensures
        is_due(config, detections, longer, i) == is_due(config, detections.drop_last(), at, i),
        longer.contains(i) == at.contains(i),
{
    let shorter = detections.drop_last();
    assert(shorter[i] == detections[i]);
    if longer.contains(i) {
        let k = choose|k: int| 0 <= k < longer.len() && longer[k] == i;
        assert(k < at.len() && at[k] == i);
    }
    if at.contains(i) {
        let k = choose|k: int| 0 <= k < at.len() && at[k] == i;
        assert(longer[k] == i);
    }
    assert forall|k: int| #[trigger] is_latest(detections, longer, k, i) implies is_latest(
        shorter,
        at,
        k,
        i,
    ) && at[k] == longer[k] && shorter[at[k]] == detections[at[k]] by {
        assert(k < at.len());
        assert(longer[k] == at[k]);
        assert forall|m: int| k < m < at.len() && #[trigger] at[m] < i implies !same_subject(
            shorter[at[m]],
            shorter[i],
        ) by {
            assert(longer[m] == at[m]);
        }
    }
    assert forall|k: int| #[trigger] is_latest(shorter, at, k, i) implies is_latest(
        detections,
        longer,
        k,
        i,
    ) && at[k] == longer[k] && shorter[at[k]] == detections[at[k]] by {
        assert(longer[k] == at[k]);
        assert forall|m: int| k < m < longer.len() && #[trigger] longer[m] < i implies
            !same_subject(detections[longer[m]], detections[i]) by {
            assert(m < at.len() && longer[m] == at[m]);
        }
    }
}

/// The last detection fires if and only if it is due.
proof fn lemma_due_last(config: RulesEngineConfig, detections: Seq<Detection>)
    requires
        detections.len() > 0,
    ensures
        ({
            let n = detections.len() - 1;
            let at = places(config, Map::empty(), detections);
            at.contains(n) == is_due(config, detections, at, n)
        }),
{
    let n = detections.len() - 1;
    let shorter = detections.drop_last();
    let d = detections.last();
    let at = places(config, Map::empty(), detections);
    let earlier = places(config, Map::empty(), shorter);
    let before = firings_after(config, Map::empty(), shorter);
    lemma_places(config, Map::empty(), shorter);
    lemma_memory(config, shorter, d);
    lemma_latest_place(shorter, earlier, d);
    let last = latest_place(shorter, earlier, d);
    if fires(config, before, d) {
        assert(at[at.len() - 1] == n);
    } else if at.contains(n) {
        let k = choose|k: int| 0 <= k < at.len() && at[k] == n;
        assert(earlier[k] == n);
    }
    assert forall|k: int| #[trigger] is_latest(detections, at, k, n) implies k == last by {
        assert(k < earlier.len() && at[k] == earlier[k]);
        assert(shorter[earlier[k]] == detections[at[k]]);
        if last > k {
            assert(at[last] == earlier[last]);
            assert(shorter[earlier[last]] == detections[at[last]]);
        }
    }
    if last >= 0 {
        assert(at[last] == earlier[last]);
        assert(shorter[earlier[last]] == detections[at[last]]);
        assert(is_latest(detections, at, last, n)) by {
            assert forall|m: int| last < m < at.len() && #[trigger] at[m] < n implies
                !same_subject(detections[at[m]], detections[n]) by {
                assert(m < earlier.len() && at[m] == earlier[m]);
                assert(shorter[earlier[m]] == detections[at[m]]);
            }
        }
    }
}

proof fn lemma_due(config: RulesEngineConfig, detections: Seq<Detection>)
    ensures
        are_the_due(config, detections, places(config, Map::empty(), detections)),
    decreases detections.len(),
{
    if detections.len() != 0 {
        let n = detections.len() - 1;
        let at = places(config, Map::empty(), detections);
        let earlier = places(config, Map::empty(), detections.drop_last());
        lemma_due(config, detections.drop_last());
        lemma_places(config, Map::empty(), detections.drop_last());
        assert forall|i: int| 0 <= i < detections.len() implies (at.contains(i) <==> #[trigger] is_due(
            config,
            detections,
            at,
            i,
        )) by {
            if i < n {
                lemma_due_before(config, detections, earlier, at, i);
                assert(is_due(config, detections.drop_last(), earlier, i) == earlier.contains(i));
            } else {
                lemma_due_last(config, detections);
            }
        }
    }
}

/// All detections of the batches that are well-formed, in order.
pub open spec fn taken(batches: Seq<&[Detection]>) -> Seq<Detection>
    decreases batches.len(),
{
    if batches.len() == 0 {
        Seq::empty()
    } else if well_formed(batches.last()@) {
        taken(batches.drop_last()) + batches.last()@
    } else {
        taken(batches.drop_last())
    }
}

/// All incidents among the results of calls, in order.
pub open spec fn fired_in(
    results: Seq<Result<Vec<IncidentCandidate>, RuleEngineError>>,
) -> Seq<IncidentCandidate>
    decreases results.len(),
{
    if results.len() == 0 {
        Seq::empty()
    } else {
        match results.last() {
            Ok(fired) => fired_in(results.drop_last()) + fired@,
            Err(_) => fired_in(results.drop_last()),
        }
    }
}

/// Over the life of an engine, from `RulesEngine::new` through any number of calls of `evaluate`,
/// the incidents returned tell, field by field, of exactly those detections of well-formed batches
/// that reach the floor and come at least a window after the latest incident of the same site,
/// worker and rule. A batch is refused if and only if one of its confidences is above 10000, and
/// then leaves no trace.
pub proof fn law_an_engine_fires_what_is_due(
    config: RulesEngineConfig,
    fresh: RulesEngine,
    calls: Seq<&mut RulesEngine>,
    batches: Seq<&[Detection]>,
    results: Seq<Result<Vec<IncidentCandidate>, RuleEngineError>>,
)
    requires
        call_ensures(RulesEngine::new, (config,), fresh),
        calls.len() == batches.len() == results.len(),
        calls.len() > 0 ==> mut_ref_current(calls[0]) == fresh,
        forall|i: int|
            0 <= i < calls.len() ==> #[trigger] call_ensures(
                RulesEngine::evaluate,
                (calls[i], batches[i]),
                results[i],
            ),
        forall|i: int|
            1 <= i < calls.len() ==> mut_ref_current(#[trigger] calls[i]) == mut_ref_future(
                calls[i - 1],
            ),
    ensures
        forall|i: int|
            0 <= i < calls.len() ==> (#[trigger] results[i] is Ok <==> well_formed(batches[i]@)),
        exists|at: Seq<int>| #[trigger]
            tell_of(fired_in(results), taken(batches), at) && are_the_due(
                config,
                taken(batches),
                at,
            ),
{
    lemma_life(config, fresh, calls, batches, results);
    let all = taken(batches);
    let at = places(config, Map::empty(), all);
    lemma_places(config, Map::empty(), all);
    lemma_due(config, all);
    assert(tell_of(fired_in(results), all, at));
}

proof fn lemma_life(
    config: RulesEngineConfig,
    fresh: RulesEngine,
    calls: Seq<&mut RulesEngine>,
    batches: Seq<&[Detection]>,
    results: Seq<Result<Vec<IncidentCandidate>, RuleEngineError>>,
)
    requires
        call_ensures(RulesEngine::new, (config,), fresh),
        calls.len() == batches.len() == results.len(),
        calls.len() > 0 ==> mut_ref_current(calls[0]) == fresh,
        forall|i: int|
            0 <= i < calls.len() ==> #[trigger] call_ensures(
                RulesEngine::evaluate,
                (calls[i], batches[i]),
                results[i],
            ),
        forall|i: int|
            1 <= i < calls.len() ==> mut_ref_current(#[trigger] calls[i]) == mut_ref_future(
                calls[i - 1],
            ),
    ensures
        forall|i: int|
            0 <= i < calls.len() ==> (#[trigger] results[i] is Ok <==> well_formed(batches[i]@)),
        fired_in(results) == incidents(config, Map::empty(), taken(batches)),
        calls.len() > 0 ==> {
            let last = mut_ref_future(calls.last());
            &&& last.spec_config() == config
            &&& last.spec_firings() == firings_after(config, Map::empty(), taken(batches))
        },
    decreases calls.len(),
{
    if calls.len() > 0 {
        let n = calls.len() - 1;
        let (c, b, r) = (calls.drop_last(), batches.drop_last(), results.drop_last());
        assert forall|i: int| 0 <= i < c.len() implies #[trigger] call_ensures(
            RulesEngine::evaluate,
            (c[i], b[i]),
            r[i],
        ) by {
            assert(call_ensures(RulesEngine::evaluate, (calls[i], batches[i]), results[i]));
        }
        lemma_life(config, fresh, c, b, r);
        assert(call_ensures(RulesEngine::evaluate, (calls[n], batches[n]), results[n]));
        let before = mut_ref_current(calls[n]);
        if n > 0 {
            assert(before == mut_ref_future(c.last()));
        }
        assert(in_range(batches[n]@) == well_formed(batches[n]@));
        law_batching_is_irrelevant(config, Map::empty(), taken(b), batches[n]@);
        assert forall|i: int| 0 <= i < calls.len() implies (#[trigger] results[i] is Ok
            <==> well_formed(batches[i]@)) by {
            if i < n {
                assert(r[i] == results[i] && b[i] == batches[i]);
            }
        }
    }
}

/// Detections of different subjects never silence each other: a new engine that is given two which
/// differ in site, worker or rule, both in range and at the floor, fires for both, and each
/// incident has every field of its own detection.
pub proof fn law_different_subjects_both_fire(
    config: RulesEngineConfig,
    fresh: RulesEngine,
    engine: &mut RulesEngine,
    batch: &[Detection],
    result: Result<Vec<IncidentCandidate>, RuleEngineError>,
)
    requires
        call_ensures(RulesEngine::new, (config,), fresh),
        mut_ref_current(engine) == fresh,
        call_ensures(RulesEngine::evaluate, (engine, batch), result),
        batch@.len() == 2,
        config.min_confidence_bp <= batch@[0].confidence_bp <= 10_000,
        config.min_confidence_bp <= batch@[1].confidence_bp <= 10_000,
        batch@[0].site_id != batch@[1].site_id || batch@[0].worker_id != batch@[1].worker_id
            || batch@[0].rule_type != batch@[1].rule_type,
    ensures
        result matches Ok(fired) && fired@.len() == 2 && tells_of(fired@[0], batch@[0])
            && tells_of(fired@[1], batch@[1]),
{
    reveal_with_fuel(firings_after, 3);
    reveal_with_fuel(incidents, 3);
    assert(batch@.drop_last().drop_last() =~= Seq::<Detection>::empty());
    assert(batch@.drop_last().last() == batch@[0]);
    assert(batch@.last() == batch@[1]);
}

/// In any state of an engine, two calls on batches of one detection each, of different subjects:
/// what the second fires is what it would have fired without the first.
pub proof fn law_a_subject_is_judged_by_itself(
    first: &mut RulesEngine,
    other: &[Detection],
    between: Result<Vec<IncidentCandidate>, RuleEngineError>,
    second: &mut RulesEngine,
    alone: &mut RulesEngine,
    batch: &[Detection],
    after: Result<Vec<IncidentCandidate>, RuleEngineError>,
    without: Result<Vec<IncidentCandidate>, RuleEngineError>,
)
    requires
        call_ensures(RulesEngine::evaluate, (first, other), between),
        mut_ref_current(second) == mut_ref_future(first),
        mut_ref_current(alone) == mut_ref_current(first),
        call_ensures(RulesEngine::evaluate, (second, batch), after),
        call_ensures(RulesEngine::evaluate, (alone, batch), without),
        other@.len() == 1,
        batch@.len() == 1,
        !same_subject(other@[0], batch@[0]),
    ensures
        after is Ok == without is Ok,
        after is Ok ==> after->Ok_0@ == without->Ok_0@,
{
    reveal_with_fuel(firings_after, 2);
    reveal_with_fuel(incidents, 2);
    assert(batch@.drop_last() =~= Seq::<Detection>::empty());
    assert(other@.drop_last() =~= Seq::<Detection>::empty());
    assert(batch@.last() == batch@[0]);
    assert(other@.last() == other@[0]);
    if after is Ok && without is Ok {
        assert(after->Ok_0@ =~= without->Ok_0@);
    }
}

/// In any state of an engine, incidents tell of detections of the batch, in order and at most one
/// for each, that reach the floor.
pub proof fn law_incidents_tell_of_the_batch(
    engine: &mut RulesEngine,
    batch: &[Detection],
    result: Result<Vec<IncidentCandidate>, RuleEngineError>,
)
    requires
        call_ensures(RulesEngine::evaluate, (engine, batch), result),
    ensures
        result matches Ok(fired) ==> exists|at: Seq<int>| #[trigger]
            tell_of(fired@, batch@, at) && forall|i: int|
                0 <= i < at.len() ==> batch@[#[trigger] at[i]].confidence_bp >= mut_ref_current(
                    engine,
                ).spec_config().min_confidence_bp,
{
    if let Ok(fired) = result {
        let before = mut_ref_current(engine);
        lemma_places(before.spec_config(), before.spec_firings(), batch@);
        assert(tell_of(
            fired@,
            batch@,
            places(before.spec_config(), before.spec_firings(), batch@),
        ));
    }
}

/// A batch is refused if and only if a confidence in it is above 10000, whatever the engine
/// remembers, and the error has the first such confidence. The engine is then as it was: any later
/// call gives what it would have given.
pub proof fn law_a_malformed_batch_is_refused_whole(
    engine: &mut RulesEngine,
    batch: &[Detection],
    result: Result<Vec<IncidentCandidate>, RuleEngineError>,
    later: &mut RulesEngine,
    instead: &mut RulesEngine,
    next: &[Detection],
    after: Result<Vec<IncidentCandidate>, RuleEngineError>,
    without: Result<Vec<IncidentCandidate>, RuleEngineError>,
)
    requires
        call_ensures(RulesEngine::evaluate, (engine, batch), result),
        mut_ref_current(later) == mut_ref_future(engine),
        mut_ref_current(instead) == mut_ref_current(engine),
        call_ensures(RulesEngine::evaluate, (later, next), after),
        call_ensures(RulesEngine::evaluate, (instead, next), without),
    ensures
        result is Err <==> exists|i: int|
            0 <= i < batch@.len() && (#[trigger] batch@[i]).confidence_bp > 10_000,
        result matches Err(RuleEngineError::ConfidenceOutOfRange(bp)) ==> exists|i: int|
            0 <= i < batch@.len() && (#[trigger] batch@[i]).confidence_bp == bp && bp > 10_000
                && well_formed(batch@.take(i)),
        result is Err ==> after is Ok == without is Ok,
        result is Err && after is Ok ==> after->Ok_0@ == without->Ok_0@,
{
    if let Err(RuleEngineError::ConfidenceOutOfRange(bp)) = result {
        let i = choose|i: int|
            first_out_of_range(batch@, i) && batch@[i].confidence_bp == bp;
        assert(well_formed(batch@.take(i)));
        assert(batch@[i].confidence_bp > 10_000);
    }
}

/// What fires does not depend on who breaks which rule where: two batches that differ only in how
/// sites, workers and rules are called, and keep different subjects apart, fire at the same places.
pub proof fn law_every_subject_is_treated_alike(
    config: RulesEngineConfig,
    fresh: RulesEngine,
    one: &mut RulesEngine,
    two: &mut RulesEngine,
    a: &[Detection],
    b: &[Detection],
    fired_a: Result<Vec<IncidentCandidate>, RuleEngineError>,
    fired_b: Result<Vec<IncidentCandidate>, RuleEngineError>,
)
    requires
        call_ensures(RulesEngine::new, (config,), fresh),
        mut_ref_current(one) == fresh,
        mut_ref_current(two) == fresh,
        call_ensures(RulesEngine::evaluate, (one, a), fired_a),
        call_ensures(RulesEngine::evaluate, (two, b), fired_b),
        a@.len() == b@.len(),
        forall|i: int|
            0 <= i < a@.len() ==> (#[trigger] a@[i]).confidence_bp == b@[i].confidence_bp
                && a@[i].occured_at == b@[i].occured_at,
        forall|i: int, j: int|
            0 <= i < a@.len() && 0 <= j < a@.len() ==> same_subject(
                #[trigger] a@[i],
                #[trigger] a@[j],
            ) == same_subject(b@[i], b@[j]),
    ensures
        fired_a is Ok == fired_b is Ok,
        fired_a is Ok ==> exists|at: Seq<int>| #[trigger]
            tell_of(fired_a->Ok_0@, a@, at) && tell_of(fired_b->Ok_0@, b@, at),
{
    if fired_a is Ok {
        assert forall|i: int| 0 <= i < b@.len() implies (#[trigger] b@[i]).confidence_bp
            <= 10_000 by {
            assert(a@[i].confidence_bp <= 10_000);
        }
    }
    if fired_b is Ok {
        assert forall|i: int| 0 <= i < a@.len() implies (#[trigger] a@[i]).confidence_bp
            <= 10_000 by {
            assert(b@[i].confidence_bp <= 10_000);
        }
    }
    lemma_places(config, Map::empty(), a@);
    lemma_places(config, Map::empty(), b@);
    lemma_alike(config, a@, b@);
    if fired_a is Ok {
        assert(tell_of(fired_a->Ok_0@, a@, places(config, Map::empty(), a@)));
    }
}

proof fn lemma_alike(config: RulesEngineConfig, a: Seq<Detection>, b: Seq<Detection>)
    requires
        a.len() == b.len(),
        forall|i: int|
            0 <= i < a.len() ==> (#[trigger] a[i]).confidence_bp == b[i].confidence_bp
                && a[i].occured_at == b[i].occured_at,
        forall|i: int, j: int|
            0 <= i < a.len() && 0 <= j < a.len() ==> same_subject(
                #[trigger] a[i],
                #[trigger] a[j],
            ) == same_subject(b[i], b[j]),
    ensures
        places(config, Map::empty(), a) == places(config, Map::empty(), b),
    decreases a.len(),
{
    if a.len() > 0 {
        let (p, q) = (a.drop_last(), b.drop_last());
        let (d, e) = (a.last(), b.last());
        lemma_alike(config, p, q);
        let at = places(config, Map::empty(), p);
        lemma_places(config, Map::empty(), p);
        lemma_memory(config, p, d);
        lemma_memory(config, q, e);
        lemma_latest_place(p, at, d);
        lemma_latest_place(q, at, e);
        let (k, m) = (latest_place(p, at, d), latest_place(q, at, e));
        assert forall|x: int| 0 <= x < at.len() implies same_subject(p[#[trigger] at[x]], d)
            == same_subject(q[at[x]], e) by {
            assert(same_subject(a[at[x]], a[a.len() - 1]) == same_subject(
                b[at[x]],
                b[a.len() - 1],
            ));
        }
        if k < m {
            assert(same_subject(p[at[m]], d) == same_subject(q[at[m]], e));
        } else if m < k {
            assert(same_subject(p[at[k]], d) == same_subject(q[at[k]], e));
        }
        assert(a[a.len() - 1].confidence_bp == b[a.len() - 1].confidence_bp);
        if k >= 0 {
            assert(a[at[k]].occured_at == b[at[k]].occured_at);
        }
    }
}

/// What a frame fires is what the rules fire on its detections, and it leaves the engine as the
/// rules do.
pub proof fn law_a_frame_fires_what_the_rules_fire(
    engine: &mut RulesEngine,
    frame: &mut RulesEngine,
    batch: &[Detection],
    fired: Result<Vec<IncidentCandidate>, RuleEngineError>,
    reply: Result<Vec<IncidentCandidate>, ErrorReply>,
)
    requires
        mut_ref_current(engine) == mut_ref_current(frame),
        call_ensures(RulesEngine::evaluate, (engine, batch), fired),
        call_ensures(fire_incidents, (frame, batch), reply),
    ensures
        fired is Ok == reply is Ok,
        fired is Ok ==> fired->Ok_0@ == reply->Ok_0@,
        mut_ref_future(engine).spec_config() == mut_ref_future(frame).spec_config(),
        mut_ref_future(engine).spec_firings() == mut_ref_future(frame).spec_firings(),
        reply matches Err(r) ==> {
            &&& r.status.spec_code() == 500
            &&& r.error@ == "rules_engine_confidence_out_of_range"@
            &&& exists|i: int|
                0 <= i < batch@.len() && (#[trigger] batch@[i]).confidence_bp > 10_000
                    && well_formed(batch@.take(i)) && r.log is Some && r.log->0@
                    == "[rules_engine_confidence_out_of_range] "@
                    + "vision layer produced out-of-range confidence: "@ + decimal(
                    batch@[i].confidence_bp as nat,
                )
        },
{
    if let Err(r) = reply {
        let i = choose|i: int| #[trigger]
            first_out_of_range(batch@, i) && r.is_logged(
                StatusCode::InternalServerError,
                "rules_engine_confidence_out_of_range"@,
                out_of_range_detail(batch@[i].confidence_bp),
            );
        assert(first_out_of_range(batch@, i));
        assert(well_formed(batch@.take(i)));
        reveal_strlit("[rules_engine_confidence_out_of_range] ");
        reveal_strlit("rules_engine_confidence_out_of_range");
        reveal_strlit("[");
        reveal_strlit("] ");
        assert("[rules_engine_confidence_out_of_range] "@ =~= "["@
            + "rules_engine_confidence_out_of_range"@ + "] "@);
        let number = decimal(batch@[i].confidence_bp as nat);
        let text = "vision layer produced out-of-range confidence: "@;
        let start = "[rules_engine_confidence_out_of_range] "@;
        assert(start + (text + number) =~= start + text + number);
        assert(batch@[i].confidence_bp > 10_000);
    }
}

/// Without settings of its own an engine has a floor of 6000 and a window of 30 seconds.
pub proof fn law_default_settings(config: RulesEngineConfig)
    requires
        call_ensures(RulesEngineConfig::default, (), config),
    ensures
        config.min_confidence_bp == 6000,
        config.debounce_window.spec_nanos() == 30 * 1_000_000_000,
{
}

} // verus!
