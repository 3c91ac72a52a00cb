//! What holds of the replies to clients, told by the fields of what goes in and comes out.

use image::DynamicImage;
use vstd::prelude::*;

use crate::db::{AttestationStatus, DbError, IncidentRow};
use crate::ids::Uuid;
use crate::routes::{
    analyze_frame, analyze_picture, attestation_status_str, base64_decoded, box_of, check_dispute,
    default_limit, dispute_reply, error_response, frame_bytes, frame_detections,
    frame_image, health, incident_reply, incidents_reply, ingest_outcome, insert_failures,
    is_blank, is_blank_text, is_white_space, lookup_failure, relevant, safe_limit,
    stored_ids, translate_frame, DisputeInsert, ErrorReply, FrameAnalysis, IncidentDto,
    IngestFrameRequest, IngestOutcome, OverlayBox, StatusCode,
};
use crate::rules::{Detection, RuleType};
use crate::vision::{rule_of_class, to_rule_confidence_bp, RawDetection, VisionEngine, VisionError};

verus! {

/// Whether `at` are the places, in order, of those of `n` things that `wanted` picks.
pub open spec fn picks(n: int, wanted: spec_fn(int) -> bool, at: Seq<int>) -> bool {
    &&& forall|i: int, j: int| 0 <= i < j < at.len() ==> #[trigger] at[i] < #[trigger] at[j]
    &&& forall|k: int| 0 <= k < at.len() ==> 0 <= #[trigger] at[k] < n && wanted(at[k])
    &&& forall|i: int| 0 <= i < n && #[trigger] wanted(i) ==> at.contains(i)
}

/// The places of those that `wanted` picks.
spec fn picked(n: int, wanted: spec_fn(int) -> bool) -> Seq<int>
    decreases n,
{
    if n <= 0 {
        Seq::empty()
    } else if wanted(n - 1) {
        picked(n - 1, wanted).push(n - 1)
    } else {
        picked(n - 1, wanted)
    }
}

proof fn lemma_picked(n: int, wanted: spec_fn(int) -> bool)
    requires
        n >= 0,
    ensures
        picks(n, wanted, picked(n, wanted)),
    decreases n,
{
    if n > 0 {
        lemma_picked(n - 1, wanted);
        let at = picked(n, wanted);
        let earlier = picked(n - 1, wanted);
        assert forall|i: int| 0 <= i < n && #[trigger] wanted(i) implies at.contains(i) by {
            if i < n - 1 {
                assert(earlier.contains(i));
                let k = choose|k: int| 0 <= k < earlier.len() && earlier[k] == i;
                assert(at[k] == i);
            } else {
                assert(at[at.len() - 1] == i);
            }
        }
    }
}

/// What a filter keeps stands at the places of what it picks.
proof fn lemma_filter<A>(s: Seq<A>, keep: spec_fn(A) -> bool, wanted: spec_fn(int) -> bool)
    requires
        forall|i: int| 0 <= i < s.len() ==> #[trigger] wanted(i) == keep(s[i]),
    ensures
        s.filter(keep).len() == picked(s.len() as int, wanted).len(),
        forall|k: int|
            0 <= k < s.filter(keep).len() ==> #[trigger] s.filter(keep)[k] == s[picked(
                s.len() as int,
                wanted,
            )[k]],
    decreases s.len(),
{
    reveal(Seq::filter);
    if s.len() > 0 {
        let n = s.len() - 1;
        let shorter = s.drop_last();
        lemma_filter(shorter, keep, wanted);
        lemma_picked(n, wanted);
        assert(wanted(n) == keep(s[n]));
        assert forall|k: int| 0 <= k < s.filter(keep).len() implies #[trigger] s.filter(keep)[k]
            == s[picked(s.len() as int, wanted)[k]] by {
            let earlier = picked(n, wanted);
            if k < shorter.filter(keep).len() {
                assert(shorter.filter(keep)[k] == shorter[earlier[k]]);
                assert(0 <= earlier[k] < n);
            }
        }
    }
}

/// Whether a detection is what a raw detection of a known class in a frame amounts to: of the site,
/// worker and time of the frame, of the rule of the class, and with the confidence held within 0
/// to 10000.
pub open spec fn detects(req: IngestFrameRequest, raw: RawDetection, d: Detection) -> bool {
    &&& d.site_id == req.site_id
    &&& d.worker_id == req.worker_id
    &&& d.occured_at == req.captured_at
    &&& raw.class_index == 0 ==> d.rule_type == RuleType::PpeMissing
    &&& raw.class_index == 1 ==> d.rule_type == RuleType::ZoneBreach
    &&& raw.scaled_confidence < 0 ==> d.confidence_bp == 0
    &&& raw.scaled_confidence > 10_000 ==> d.confidence_bp == 10_000
    &&& 0 <= raw.scaled_confidence <= 10_000 ==> d.confidence_bp == raw.scaled_confidence
}

/// Whether a box is drawn where a raw detection of a known class lies in the picture, under the
/// name of its rule and with its confidence.
pub open spec fn draws(raw: RawDetection, drawn: OverlayBox) -> bool {
    &&& raw.class_index == 0 ==> drawn.rule@ == "ppe_missing"@
    &&& raw.class_index == 1 ==> drawn.rule@ == "zone_breach"@
    &&& raw.scaled_confidence < 0 ==> drawn.confidence_bp == 0
    &&& raw.scaled_confidence > 10_000 ==> drawn.confidence_bp == 10_000
    &&& 0 <= raw.scaled_confidence <= 10_000 ==> drawn.confidence_bp == raw.scaled_confidence
    &&& drawn.x1 == raw.bbox_original_xyxy@[0]
    &&& drawn.y1 == raw.bbox_original_xyxy@[1]
    &&& drawn.x2 == raw.bbox_original_xyxy@[2]
    &&& drawn.y2 == raw.bbox_original_xyxy@[3]
}

/// Whether an analysis has one detection and one box for each raw detection of class 0 or 1, which
/// stand at the places `at`.
pub open spec fn translated_at(
    req: IngestFrameRequest,
    raw: Seq<RawDetection>,
    analysis: FrameAnalysis,
    at: Seq<int>,
) -> bool {
    &&& picks(raw.len() as int, |i: int| raw[i].class_index <= 1, at)
    &&& analysis.detections@.len() == at.len()
    &&& analysis.overlay_boxes@.len() == at.len()
    &&& forall|k: int|
        0 <= k < at.len() ==> detects(req, raw[at[k]], #[trigger] analysis.detections@[k])
    &&& forall|k: int|
        0 <= k < at.len() ==> draws(raw[at[k]], #[trigger] analysis.overlay_boxes@[k])
}

/// A frame is translated to one detection and one box for each raw detection of class 0 or 1, in
/// order, and to nothing for any other class.
pub proof fn law_frames_are_translated_one_for_one(
    req: &IngestFrameRequest,
    raw: &[RawDetection],
    analysis: FrameAnalysis,
)
    requires
        call_ensures(translate_frame, (req, raw), analysis),
    ensures
        exists|at: Seq<int>| translated_at(*req, raw@, analysis, at),
{
    let wanted = |i: int| raw@[i].class_index <= 1;
    let keep = |r: RawDetection| rule_of_class(r.class_index as int) is Some;
    let at = picked(raw@.len() as int, wanted);
    lemma_picked(raw@.len() as int, wanted);
    lemma_filter(raw@, keep, wanted);
    assert(relevant(raw@) == raw@.filter(keep));
    assert forall|k: int| 0 <= k < at.len() implies detects(
        *req,
        raw@[at[k]],
        #[trigger] analysis.detections@[k],
    ) by {
        assert(relevant(raw@)[k] == raw@[at[k]]);
        assert(wanted(at[k]));
    }
    assert forall|k: int| 0 <= k < at.len() implies draws(
        raw@[at[k]],
        #[trigger] analysis.overlay_boxes@[k],
    ) by {
        assert(relevant(raw@)[k] == raw@[at[k]]);
        assert(wanted(at[k]));
        assert(box_of(relevant(raw@)[k], analysis.overlay_boxes@[k]));
    }
    assert(translated_at(*req, raw@, analysis, at));
}

/// Two reports that differ only in the coordinates of the model are translated alike: the boxes to
/// draw do not depend on them.
pub proof fn law_boxes_do_not_depend_on_model_coordinates(
    req: &IngestFrameRequest,
    a: &[RawDetection],
    b: &[RawDetection],
    analysis_a: FrameAnalysis,
    analysis_b: FrameAnalysis,
)
    requires
        call_ensures(translate_frame, (req, a), analysis_a),
        call_ensures(translate_frame, (req, b), analysis_b),
        a@.len() == b@.len(),
        forall|i: int|
            0 <= i < a@.len() ==> {
                &&& (#[trigger] a@[i]).bbox_original_xyxy == b@[i].bbox_original_xyxy
                &&& a@[i].class_index == b@[i].class_index
                &&& a@[i].scaled_confidence == b@[i].scaled_confidence
            },
    ensures
        analysis_a.detections@ == analysis_b.detections@,
        analysis_a.overlay_boxes@.len() == analysis_b.overlay_boxes@.len(),
        forall|k: int|
            0 <= k < analysis_a.overlay_boxes@.len() ==> {
                let (p, q) = (#[trigger] analysis_a.overlay_boxes@[k], analysis_b.overlay_boxes@[k]);
                &&& p.rule@ == q.rule@ && p.confidence_bp == q.confidence_bp
                &&& p.x1 == q.x1 && p.y1 == q.y1 && p.x2 == q.x2 && p.y2 == q.y2
            },
{
    let wanted = |i: int| a@[i].class_index <= 1;
    let keep = |r: RawDetection| rule_of_class(r.class_index as int) is Some;
    let n = a@.len() as int;
    let at = picked(n, wanted);
    lemma_picked(n, wanted);
    lemma_filter(a@, keep, wanted);
    assert forall|i: int| 0 <= i < b@.len() implies #[trigger] wanted(i) == keep(b@[i]) by {
        assert(a@[i].class_index == b@[i].class_index);
    }
    lemma_filter(b@, keep, wanted);
    assert(relevant(a@) == a@.filter(keep));
    assert(relevant(b@) == b@.filter(keep));
    assert forall|k: int| 0 <= k < analysis_a.overlay_boxes@.len() implies {
        let (p, q) = (#[trigger] analysis_a.overlay_boxes@[k], analysis_b.overlay_boxes@[k]);
        &&& p.rule@ == q.rule@ && p.confidence_bp == q.confidence_bp
        &&& p.x1 == q.x1 && p.y1 == q.y1 && p.x2 == q.x2 && p.y2 == q.y2
    } by {
        assert(relevant(a@)[k] == a@[at[k]] && relevant(b@)[k] == b@[at[k]]);
        assert(box_of(relevant(a@)[k], analysis_a.overlay_boxes@[k]));
        assert(box_of(relevant(b@)[k], analysis_b.overlay_boxes@[k]));
    }
    assert forall|k: int| 0 <= k < at.len() implies analysis_a.detections@[k]
        == analysis_b.detections@[k] by {
        assert(relevant(a@)[k] == a@[at[k]] && relevant(b@)[k] == b@[at[k]]);
    }
    assert(analysis_a.detections@ =~= analysis_b.detections@);
}

/// A raw detection amounts to a rule by its class alone and to a confidence by its own alone, which
/// keeps the order of confidences.
pub proof fn law_classes_name_rules(
    a: &RawDetection,
    b: &RawDetection,
    of_a: Option<(RuleType, u16)>,
    of_b: Option<(RuleType, u16)>,
)
    requires
        call_ensures(to_rule_confidence_bp, (a,), of_a),
        call_ensures(to_rule_confidence_bp, (b,), of_b),
    ensures
        a.class_index == 0 ==> of_a is Some && (of_a->0).0 == RuleType::PpeMissing,
        a.class_index == 1 ==> of_a is Some && (of_a->0).0 == RuleType::ZoneBreach,
        a.class_index > 1 ==> of_a is None,
        of_a is Some ==> (of_a->0).1 <= 10_000,
        of_a is Some && 0 <= a.scaled_confidence <= 10_000 ==> (of_a->0).1 == a.scaled_confidence,
        of_a is Some && of_b is Some && a.scaled_confidence <= b.scaled_confidence ==> (of_a->0).1
            <= (of_b->0).1,
{
}

/// Whether ids are those of the incidents that were stored, which stand at the places `at`.
pub open spec fn stored_at(
    inserted: Seq<Result<Uuid, DbError>>,
    ids: Seq<Uuid>,
    at: Seq<int>,
) -> bool {
    &&& picks(inserted.len() as int, |i: int| inserted[i] is Ok, at)
    &&& ids.len() == at.len()
    &&& forall|k: int|
        0 <= k < at.len() ==> inserted[at[k]] == Ok::<Uuid, DbError>(#[trigger] ids[k])
}

/// Whether lines tell of the incidents that were not stored, which stand at the places `at`.
pub open spec fn failed_at(
    inserted: Seq<Result<Uuid, DbError>>,
    lines: Seq<String>,
    at: Seq<int>,
) -> bool {
    &&& picks(inserted.len() as int, |i: int| inserted[i] is Err, at)
    &&& lines.len() == at.len()
    &&& forall|k: int|
        0 <= k < at.len() ==> (#[trigger] lines[k])@ == "[incident_insert_failed] "@
            + inserted[at[k]]->Err_0.spec_message()
}

/// The answer to a frame has the id of every incident that was stored, in order, and a line in the
/// log for every one that was not; the boxes are passed on whatever became of the incidents.
pub proof fn law_answers_have_what_was_stored(
    inserted: Vec<Result<Uuid, DbError>>,
    boxes: Vec<OverlayBox>,
    outcome: IngestOutcome,
)
    requires
        call_ensures(ingest_outcome, (inserted, boxes), outcome),
    ensures
        outcome.response.overlay_boxes == boxes,
        exists|at: Seq<int>| stored_at(inserted@, outcome.response.incidents_created@, at),
        exists|at: Seq<int>| failed_at(inserted@, outcome.log@, at),
{
    let n = inserted@.len() as int;
    let stored = |i: int| inserted@[i] is Ok;
    let failed = |i: int| inserted@[i] is Err;
    let keep_stored = |r: Result<Uuid, DbError>| r is Ok;
    let keep_failed = |r: Result<Uuid, DbError>| r is Err;
    lemma_picked(n, stored);
    lemma_picked(n, failed);
    lemma_filter(inserted@, keep_stored, stored);
    lemma_filter(inserted@, keep_failed, failed);
    let (a, b) = (picked(n, stored), picked(n, failed));
    assert forall|k: int| 0 <= k < a.len() implies inserted@[a[k]] == Ok::<Uuid, DbError>(
        #[trigger] outcome.response.incidents_created@[k],
    ) by {
        assert(inserted@.filter(keep_stored)[k] == inserted@[a[k]]);
        assert(stored(a[k]));
        assert(outcome.response.incidents_created@[k] == stored_ids(inserted@)[k]);
    }
    let lines = outcome.log@.map_values(|line: String| line@);
    assert(lines.len() == outcome.log@.len());
    assert forall|k: int| 0 <= k < b.len() implies (#[trigger] outcome.log@[k])@
        == "[incident_insert_failed] "@ + inserted@[b[k]]->Err_0.spec_message() by {
        assert(inserted@.filter(keep_failed)[k] == inserted@[b[k]]);
        assert(lines[k] == outcome.log@[k]@);
        assert(lines[k] == insert_failures(inserted@)[k]);
        reveal_strlit("[incident_insert_failed] ");
        reveal_strlit("incident_insert_failed");
        reveal_strlit("[");
        reveal_strlit("] ");
        assert("[incident_insert_failed] "@ =~= "["@ + "incident_insert_failed"@ + "] "@);
    }
    assert(stored_at(inserted@, outcome.response.incidents_created@, a));
    assert(failed_at(inserted@, outcome.log@, b));
}

/// The name of a rule for clients.
pub open spec fn rule_shown(name: Seq<char>, rule: RuleType) -> bool {
    match rule {
        RuleType::PpeMissing => name == "ppe_missing"@,
        RuleType::ZoneBreach => name == "zone_breach"@,
    }
}

/// The name of a status for clients.
pub open spec fn status_shown(name: Seq<char>, status: AttestationStatus) -> bool {
    match status {
        AttestationStatus::Pending => name == "pending"@,
        AttestationStatus::Minted => name == "minted"@,
        AttestationStatus::Failed => name == "failed"@,
        AttestationStatus::Disputed => name == "disputed"@,
    }
}

/// Whether an incident is shown in full.
pub open spec fn shown_in_full(dto: IncidentDto, row: IncidentRow) -> bool {
    &&& dto.id == row.id
    &&& dto.site_id == row.site_id
    &&& dto.worker_id == row.worker_id
    &&& rule_shown(dto.rule_triggered@, row.rule_triggered)
    &&& dto.confidence_bp == row.confidence_bp
    &&& dto.detected_at == row.detected_at
    &&& status_shown(dto.attestation_status@, row.attestation_status)
    &&& dto.attestation_tx_hash == row.attestation_tx_hash
}

/// An incident is shown in full, alone and in a list, which has all incidents in order.
pub proof fn law_incidents_are_shown_in_full(
    row: IncidentRow,
    dto: IncidentDto,
    reply: Result<IncidentDto, ErrorReply>,
    rows: Vec<IncidentRow>,
    list: Result<Vec<IncidentDto>, ErrorReply>,
)
    requires
        call_ensures(<IncidentDto as From<IncidentRow>>::from, (row,), dto),
        call_ensures(incident_reply, (Ok::<IncidentRow, DbError>(row),), reply),
        call_ensures(incidents_reply, (Ok::<Vec<IncidentRow>, DbError>(rows),), list),
    ensures
        shown_in_full(dto, row),
        reply is Ok && shown_in_full(reply->Ok_0, row),
        list is Ok && list->Ok_0@.len() == rows@.len(),
        forall|i: int|
            0 <= i < rows@.len() ==> shown_in_full(#[trigger] list->Ok_0@[i], rows@[i]),
{
}

/// Rows that differ in any field are shown differently: the reply determines the row.
pub proof fn law_replies_tell_incidents_apart(
    a: IncidentRow,
    b: IncidentRow,
    shown_a: Result<IncidentDto, ErrorReply>,
    shown_b: Result<IncidentDto, ErrorReply>,
)
    requires
        call_ensures(incident_reply, (Ok::<IncidentRow, DbError>(a),), shown_a),
        call_ensures(incident_reply, (Ok::<IncidentRow, DbError>(b),), shown_b),
        ({
            let (p, q) = (shown_a->Ok_0, shown_b->Ok_0);
            &&& p.id == q.id && p.site_id == q.site_id && p.worker_id == q.worker_id
            &&& p.rule_triggered@ == q.rule_triggered@
            &&& p.confidence_bp == q.confidence_bp && p.detected_at == q.detected_at
            &&& p.attestation_status@ == q.attestation_status@
            &&& p.attestation_tx_hash == q.attestation_tx_hash
        }),
    ensures
        a == b,
{
    reveal_strlit("ppe_missing");
    reveal_strlit("zone_breach");
    reveal_strlit("pending");
    reveal_strlit("minted");
    reveal_strlit("failed");
    reveal_strlit("disputed");
    assert("ppe_missing"@[0] != "zone_breach"@[0]);
    assert("pending"@.len() == 7 && "minted"@.len() == 6 && "failed"@.len() == 6
        && "disputed"@.len() == 8);
    assert("minted"@[0] != "failed"@[0]);
}

/// Whether a reply names this error to the client under this status, with this line in the log.
pub open spec fn replies(
    reply: ErrorReply,
    code: int,
    error: Seq<char>,
    line: Option<Seq<char>>,
) -> bool {
    &&& reply.status.spec_code() == code
    &&& reply.error@ == error
    &&& match line {
        Some(l) => reply.log is Some && reply.log->0@ == l,
        None => reply.log is None,
    }
}

/// The line that a failure leaves in the log.
pub open spec fn logged(context: Seq<char>, detail: Seq<char>) -> Option<Seq<char>> {
    Some("["@ + context + "] "@ + detail)
}

/// Statuses have the numbers that HTTP gives them.
pub proof fn law_statuses_have_their_numbers(status: StatusCode, code: u16, alive: StatusCode)
    requires
        call_ensures(StatusCode::as_u16, (&status,), code),
        call_ensures(health, (), alive),
    ensures
        code == status.spec_code(),
        alive.spec_code() == 200,
        status == StatusCode::Success ==> code == 200,
        status == StatusCode::Created ==> code == 201,
        status == StatusCode::BadRequest ==> code == 400,
        status == StatusCode::NotFound ==> code == 404,
        status == StatusCode::Conflict ==> code == 409,
        status == StatusCode::InternalServerError ==> code == 500,
{
}

/// A failure is named to the client by its context, and its detail goes to the log alone.
pub proof fn law_failures_are_logged(
    status: StatusCode,
    context: &str,
    detail: &str,
    reply: ErrorReply,
)
    requires
        call_ensures(error_response, (status, context, detail), reply),
    ensures
        replies(reply, status.spec_code() as int, context@, logged(context@, detail@)),
{
}

/// A look-up that finds no incident is answered 404 without a word to the log, and any other that
/// fails 500 with its message in the log, whichever request it was for.
pub proof fn law_failed_lookups_are_answered_alike(
    e: DbError,
    reason: &str,
    looked_up: ErrorReply,
    reply: Result<IncidentDto, ErrorReply>,
    verdict: Result<(), ErrorReply>,
    list: Result<Vec<IncidentDto>, ErrorReply>,
)
    requires
        call_ensures(lookup_failure, (e,), looked_up),
        call_ensures(incident_reply, (Err::<IncidentRow, DbError>(e),), reply),
        call_ensures(check_dispute, (Err::<IncidentRow, DbError>(e), reason), verdict),
        call_ensures(incidents_reply, (Err::<Vec<IncidentRow>, DbError>(e),), list),
    ensures
        reply is Err && verdict is Err && list is Err,
        e is NotFound ==> {
            &&& replies(looked_up, 404, "incident_not_found"@, None)
            &&& replies(reply->Err_0, 404, "incident_not_found"@, None)
            &&& replies(verdict->Err_0, 404, "incident_not_found"@, None)
        },
        e !is NotFound ==> {
            let line = logged("get_incident_failed"@, e.spec_message());
            &&& replies(looked_up, 500, "get_incident_failed"@, line)
            &&& replies(reply->Err_0, 500, "get_incident_failed"@, line)
            &&& replies(verdict->Err_0, 500, "get_incident_failed"@, line)
        },
        replies(
            list->Err_0,
            500,
            "list_incidents_failed"@,
            logged("list_incidents_failed"@, e.spec_message()),
        ),
{
}

/// An incident may be disputed if and only if it is minted and the reason has a character that is
/// not white space. The status is judged first, and the refusal names it.
pub proof fn law_only_minted_incidents_are_disputed(
    row: IncidentRow,
    reason: &str,
    verdict: Result<(), ErrorReply>,
)
    requires
        call_ensures(check_dispute, (Ok::<IncidentRow, DbError>(row), reason), verdict),
    ensures
        verdict is Ok <==> row.attestation_status == AttestationStatus::Minted && exists|i: int|
            0 <= i < reason@.len() && !is_white_space(#[trigger] reason@[i]),
        row.attestation_status == AttestationStatus::Minted && verdict is Err ==> replies(
            verdict->Err_0,
            400,
            "reason must not be empty"@,
            None,
        ),
        row.attestation_status == AttestationStatus::Pending ==> verdict is Err && replies(
            verdict->Err_0,
            409,
            "incident must be 'minted' to dispute, currently '"@ + "pending"@ + "'"@,
            None,
        ),
        row.attestation_status == AttestationStatus::Failed ==> verdict is Err && replies(
            verdict->Err_0,
            409,
            "incident must be 'minted' to dispute, currently '"@ + "failed"@ + "'"@,
            None,
        ),
        row.attestation_status == AttestationStatus::Disputed ==> verdict is Err && replies(
            verdict->Err_0,
            409,
            "incident must be 'minted' to dispute, currently '"@ + "disputed"@ + "'"@,
            None,
        ),
{
    if row.attestation_status == AttestationStatus::Minted {
        if verdict is Err {
            assert(is_blank(reason@));
        } else {
            assert(!is_blank(reason@));
            let i = choose|i: int| 0 <= i < reason@.len() && !is_white_space(#[trigger] reason@[i]);
            assert(!is_white_space(reason@[i]));
        }
    }
}

/// Whether a dispute is allowed depends on nothing of the incident but its status, and on nothing
/// of the reason but whether it is blank.
pub proof fn law_disputes_depend_on_status_and_reason_alone(
    a: IncidentRow,
    b: IncidentRow,
    reason_a: &str,
    reason_b: &str,
    verdict_a: Result<(), ErrorReply>,
    verdict_b: Result<(), ErrorReply>,
    blank_a: bool,
    blank_b: bool,
)
    requires
        call_ensures(check_dispute, (Ok::<IncidentRow, DbError>(a), reason_a), verdict_a),
        call_ensures(check_dispute, (Ok::<IncidentRow, DbError>(b), reason_b), verdict_b),
        call_ensures(is_blank_text, (reason_a,), blank_a),
        call_ensures(is_blank_text, (reason_b,), blank_b),
        a.attestation_status == b.attestation_status,
        blank_a == blank_b,
    ensures
        verdict_a is Ok == verdict_b is Ok,
        verdict_a is Err ==> verdict_a->Err_0.status == verdict_b->Err_0.status
            && verdict_a->Err_0.error@ == verdict_b->Err_0.error@,
{
}

/// White space is what Unicode calls so, and of ASCII the blank and the controls from tab to
/// carriage return; a text is blank if and only if it has nothing else.
pub proof fn law_white_space(c: char, text: &str, blank: bool)
    requires
        call_ensures(is_blank_text, (text,), blank),
    ensures
        (c as u32) < 0x80 ==> (is_white_space(c) <==> (c == ' ' || c == '\t' || c == '\n' || c
            as u32 == 0xb || c as u32 == 0xc || c == '\r')),
        (c as u32) >= 0x80 ==> (is_white_space(c) <==> seq![
            0x85u32, 0xa0, 0x1680, 0x2000, 0x2001, 0x2002, 0x2003, 0x2004, 0x2005, 0x2006, 0x2007,
            0x2008, 0x2009, 0x200a, 0x2028, 0x2029, 0x202f, 0x205f, 0x3000,
        ].contains(c as u32)),
        text@.len() == 0 ==> blank,
        blank <==> forall|i: int| 0 <= i < text@.len() ==> is_white_space(#[trigger] text@[i]),
{
    let all = seq![
        0x85u32, 0xa0, 0x1680, 0x2000, 0x2001, 0x2002, 0x2003, 0x2004, 0x2005, 0x2006, 0x2007,
        0x2008, 0x2009, 0x200a, 0x2028, 0x2029, 0x202f, 0x205f, 0x3000,
    ];
    let n = c as u32;
    assert(all[0] == 0x85 && all[1] == 0xa0 && all[2] == 0x1680 && all[14] == 0x2028 && all[15]
        == 0x2029 && all[16] == 0x202f && all[17] == 0x205f && all[18] == 0x3000);
    assert(forall|i: int| 3 <= i < 14 ==> all[i] == 0x2000 + (i - 3));
    if 0x2000 <= n <= 0x200a {
        assert(all[n - 0x2000 + 3] == n);
    }
}

/// A dispute that was stored is answered 201 with its id; one that was not, or whose id could not
/// be read, is answered 500 with what went wrong in the log.
pub proof fn law_disputes_are_answered(
    insert: DisputeInsert,
    reply: Result<(StatusCode, Uuid), ErrorReply>,
)
    requires
        call_ensures(dispute_reply, (insert,), reply),
    ensures
        reply is Ok <==> insert is Stored,
        insert matches DisputeInsert::Stored(id) ==> (reply->Ok_0).0.spec_code() == 201
            && (reply->Ok_0).1 == id,
        insert matches DisputeInsert::UnreadableId(e) ==> replies(
            reply->Err_0,
            500,
            "dispute_id_read_failed"@,
            logged("dispute_id_read_failed"@, e@),
        ),
        insert matches DisputeInsert::Failed(e) ==> replies(
            reply->Err_0,
            500,
            "raise_dispute_failed"@,
            logged("raise_dispute_failed"@, e@),
        ),
{
}

/// A limit is held within 1 to 200: one in range is kept, the order of limits is kept, and holding
/// it twice changes nothing.
pub proof fn law_limits_are_held(a: i64, b: i64, held_a: i64, held_b: i64, again: i64, default: i64)
    requires
        call_ensures(safe_limit, (a,), held_a),
        call_ensures(safe_limit, (b,), held_b),
        call_ensures(safe_limit, (held_a,), again),
        call_ensures(default_limit, (), default),
    ensures
        1 <= held_a <= 200,
        1 <= a <= 200 ==> held_a == a,
        a <= b ==> held_a <= held_b,
        again == held_a,
        default == 50,
{
}

/// A frame that is not Base64 is refused with 400 and told so; the bytes of one that is are those
/// that were decoded.
pub proof fn law_frames_that_are_no_base64_are_refused(
    decoded: Result<Vec<u8>, String>,
    bytes: Result<Vec<u8>, ErrorReply>,
    vision: &VisionEngine,
    req: &IngestFrameRequest,
    result: Result<FrameAnalysis, ErrorReply>,
)
    requires
        call_ensures(frame_bytes, (decoded,), bytes),
        call_ensures(analyze_frame, (vision, req), result),
    ensures
        decoded matches Ok(b) ==> bytes == Ok::<Vec<u8>, ErrorReply>(b),
        decoded matches Err(e) ==> bytes is Err && replies(
            bytes->Err_0,
            400,
            "invalid_base64_frame"@,
            logged("invalid_base64_frame"@, e@),
        ),
        base64_decoded(req.frame_base64@) matches Err(e) ==> result is Err && replies(
            result->Err_0,
            400,
            "invalid_base64_frame"@,
            logged("invalid_base64_frame"@, e),
        ),
        base64_decoded(req.frame_base64@) is Ok && result is Err ==> result->Err_0.status.spec_code()
            == 400 && result->Err_0.error@ == "invalid_image_data"@,
{
}

/// What the reader of pictures makes of a frame is what it is answered by: a picture is looked at,
/// and detects nothing yet; anything else is refused with 400, with the reader's text in the log.
pub proof fn law_pictures_are_looked_at(
    vision: &VisionEngine,
    req: &IngestFrameRequest,
    loaded: Result<DynamicImage, String>,
    image: Result<DynamicImage, ErrorReply>,
    result: Result<FrameAnalysis, ErrorReply>,
)
    requires
        call_ensures(frame_image, (loaded,), image),
        call_ensures(analyze_picture, (vision, req, loaded), result),
    ensures
        loaded is Ok ==> image == Ok::<DynamicImage, ErrorReply>(loaded->Ok_0),
        loaded is Ok ==> result is Ok && result->Ok_0.detections@.len() == 0
            && result->Ok_0.overlay_boxes@.len() == 0,
        loaded matches Err(e) ==> {
            let line = logged("invalid_image_data"@, e@);
            &&& image is Err && replies(image->Err_0, 400, "invalid_image_data"@, line)
            &&& result is Err && replies(result->Err_0, 400, "invalid_image_data"@, line)
        },
{
    reveal(Seq::filter);
}

/// What the model found is passed on as it is; where it failed, the frame is answered 500.
pub proof fn law_failures_of_the_model_are_no_fault_of_the_client(
    found: Result<Vec<RawDetection>, VisionError>,
    detections: Result<Vec<RawDetection>, ErrorReply>,
)
    requires
        call_ensures(frame_detections, (found,), detections),
    ensures
        found matches Ok(d) ==> detections == Ok::<Vec<RawDetection>, ErrorReply>(d),
        found matches Err(e) ==> detections is Err && replies(
            detections->Err_0,
            500,
            "vision_inference_failed"@,
            logged("vision_inference_failed"@, e.spec_message()),
        ),
{
}

/// The status of an incident has one name for clients, and that is its name in the database.
pub proof fn law_statuses_have_one_name(
    status: AttestationStatus,
    name: String,
    stored: &'static str,
)
    requires
        call_ensures(attestation_status_str, (status,), name),
        call_ensures(AttestationStatus::as_db_str, (&status,), stored),
    ensures
        status_shown(name@, status),
        name@ == stored@,
{
}

} // verus!
