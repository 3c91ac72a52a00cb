//! What the HTTP interface answers: how requests turn into calls of the layers below, and how
//! what those return turns into replies.

use base64::engine::general_purpose::STANDARD as BASE64;
use base64::Engine;
use image::DynamicImage;
use vstd::prelude::*;

use crate::db::{AttestationStatus, DbError, IncidentRow};
use crate::ids::Uuid;
use crate::picture::{
    bytes_decide, is_jpeg, is_png, picture_fault, read_picture, reader_gives, reader_panics,
};
use crate::rules::{
    first_out_of_range, firings_after, in_range, incidents, Detection, IncidentCandidate,
    RuleEngineError, RulesEngine,
};
use crate::text::{decimal, decimal_text, join2, join3};
use crate::time::Timestamp;
use crate::vision::{
    clamped_bp, rule_of_class, to_rule_confidence_bp, RawDetection, VisionEngine, VisionError,
};

verus! {

/// The HTTP statuses that replies carry.
#[derive(Clone, Copy, Debug, PartialEq, Eq, Structural)]
pub enum StatusCode {
    Success,
    Created,
    BadRequest,
    NotFound,
    Conflict,
    InternalServerError,
}

impl StatusCode {
    /// The number of the status.
    pub open spec fn spec_code(self) -> u16 {
        match self {
            StatusCode::Success => 200,
            StatusCode::Created => 201,
            StatusCode::BadRequest => 400,
            StatusCode::NotFound => 404,
            StatusCode::Conflict => 409,
            StatusCode::InternalServerError => 500,
        }
    }

    /// The number of the status.
    pub fn as_u16(&self) -> (code: u16)
        ensures
            code == self.spec_code(),
    {
        match self {
            StatusCode::Success => 200,
            StatusCode::Created => 201,
            StatusCode::BadRequest => 400,
            StatusCode::NotFound => 404,
            StatusCode::Conflict => 409,
            StatusCode::InternalServerError => 500,
        }
    }
}

/// The health check answers 200.
pub fn health() -> (status: StatusCode)
    ensures
        status == StatusCode::Success,
{
    StatusCode::Success
}

/// A reply that reports an error: the client sees the status and the error, the log alone sees
/// the detail.
#[derive(Debug)]
pub struct ErrorReply {
    pub status: StatusCode,
    pub error: String,
    pub log: Option<String>,
}

/// A line of the log: where it comes from, and the detail.
pub open spec fn log_line(context: Seq<char>, detail: Seq<char>) -> Seq<char> {
    "["@ + context + "] "@ + detail
}

impl ErrorReply {
    /// Whether the reply has this status and error, and leaves no line in the log.
    pub open spec fn is_plain(self, status: StatusCode, error: Seq<char>) -> bool {
        self.status == status && self.error@ == error && self.log is None
    }

    /// Whether the reply has this status and names its context as the error, and leaves the
    /// detail in the log.
    pub open spec fn is_logged(self, status: StatusCode, context: Seq<char>, detail: Seq<char>) -> bool {
        &&& self.status == status
        &&& self.error@ == context
        &&& self.log matches Some(line) && line@ == log_line(context, detail)
    }
}

/// A reply that names its context to the client and keeps the detail for the log.
pub fn error_response(status: StatusCode, log_context: &str, detail: &str) -> (reply: ErrorReply)
    ensures
        reply.is_logged(status, log_context@, detail@),
{
    let start = join3("[", log_context, "] ");
    let line = join2(start.as_str(), detail);
    ErrorReply { status, error: log_context.to_owned(), log: Some(line) }
}

/// A reply with an error that the client may see, and nothing for the log.
fn plain_error(status: StatusCode, error: &str) -> (reply: ErrorReply)
    ensures
        reply.is_plain(status, error@),
{
    ErrorReply { status, error: error.to_owned(), log: None }
}

/// A camera frame as a client sends it.
pub struct IngestFrameRequest {
    pub site_id: Uuid,
    /// The worker in the frame, where the client knows who it is.
    pub worker_id: Option<Uuid>,
    /// The picture, in Base64.
    pub frame_base64: String,
    /// When the client took the picture, by its own clock.
    pub captured_at: Timestamp,
}

/// A box to draw over the frame. The corners are the bits of `f32` coordinates.
#[derive(Debug)]
pub struct OverlayBox {
    pub rule: String,
    pub confidence_bp: u16,
    pub x1: u32,
    pub y1: u32,
    pub x2: u32,
    pub y2: u32,
}

/// The answer to a frame: the incidents that it caused, and a box for everything detected in it.
#[derive(Debug)]
pub struct IngestFrameResponse {
    pub incidents_created: Vec<Uuid>,
    pub overlay_boxes: Vec<OverlayBox>,
}

/// What the vision layer made of a frame: detections for the rules, and boxes to draw.
#[derive(Debug)]
pub struct FrameAnalysis {
    pub detections: Vec<Detection>,
    pub overlay_boxes: Vec<OverlayBox>,
}

/// What `base64::engine::general_purpose::STANDARD` decodes a text to, or the text of its error.
pub uninterp spec fn base64_decoded(text: Seq<char>) -> Result<Seq<u8>, Seq<char>>;

/// `Engine::decode` of `base64::engine::general_purpose::STANDARD`, the error as its `Display`
/// text. The result depends on the text alone.
#[verifier::external_body]
fn base64_decode(text: &str) -> (decoded: Result<Vec<u8>, String>)
    ensures
        match decoded {
            Ok(bytes) => base64_decoded(text@) == Ok::<Seq<u8>, Seq<char>>(bytes@),
            Err(e) => base64_decoded(text@) == Err::<Seq<u8>, Seq<char>>(e@),
        },
{
    BASE64.decode(text).map_err(|e| e.to_string())
}

/// The bytes of a frame, or the reply to one that is not Base64.
pub fn frame_bytes(decoded: Result<Vec<u8>, String>) -> (bytes: Result<Vec<u8>, ErrorReply>)
    ensures
        match decoded {
            Ok(b) => bytes == Ok::<Vec<u8>, ErrorReply>(b),
            Err(e) => bytes matches Err(reply) && reply.is_logged(
                StatusCode::BadRequest,
                "invalid_base64_frame"@,
                e@,
            ),
        },
{
    match decoded {
        Ok(b) => Ok(b),
        Err(e) => Err(
            error_response(StatusCode::BadRequest, "invalid_base64_frame", e.as_str()),
        ),
    }
}

/// The picture of a frame, or the reply to bytes that are none.
pub fn frame_image(loaded: Result<DynamicImage, String>) -> (image: Result<DynamicImage, ErrorReply>)
    ensures
        match loaded {
            Ok(i) => image == Ok::<DynamicImage, ErrorReply>(i),
            Err(e) => image matches Err(reply) && reply.is_logged(
                StatusCode::BadRequest,
                "invalid_image_data"@,
                e@,
            ),
        },
{
    match loaded {
        Ok(i) => Ok(i),
        Err(e) => Err(error_response(StatusCode::BadRequest, "invalid_image_data", e.as_str())),
    }
}

/// What was detected in a frame, or the reply to a frame on which the model failed.
pub fn frame_detections(found: Result<Vec<RawDetection>, VisionError>) -> (detections: Result<
    Vec<RawDetection>,
    ErrorReply,
>)
    ensures
        match found {
            Ok(d) => detections == Ok::<Vec<RawDetection>, ErrorReply>(d),
            Err(e) => detections matches Err(reply) && reply.is_logged(
                StatusCode::InternalServerError,
                "vision_inference_failed"@,
                e.spec_message(),
            ),
        },
{
    match found {
        Ok(d) => Ok(d),
        Err(e) => Err(
            error_response(
                StatusCode::InternalServerError,
                "vision_inference_failed",
                e.message().as_str(),
            ),
        ),
    }
}

/// The raw detections whose class stands for a rule.
pub open spec fn relevant(raw: Seq<RawDetection>) -> Seq<RawDetection> {
    raw.filter(|r: RawDetection| rule_of_class(r.class_index as int) is Some)
}

/// The detection that a relevant raw detection in a frame amounts to.
pub open spec fn detection_of(req: IngestFrameRequest, raw: RawDetection) -> Detection {
    Detection {
        site_id: req.site_id,
        worker_id: req.worker_id,
        rule_type: rule_of_class(raw.class_index as int)->0,
        confidence_bp: clamped_bp(raw.scaled_confidence as int) as u16,
        occured_at: req.captured_at,
    }
}

/// Whether a box is the one to draw for a relevant raw detection.
pub open spec fn box_of(raw: RawDetection, drawn: OverlayBox) -> bool {
    &&& drawn.rule@ == (rule_of_class(raw.class_index as int)->0).spec_db_str()
    &&& drawn.confidence_bp == clamped_bp(raw.scaled_confidence as int)
    &&& drawn.x1 == raw.bbox_original_xyxy[0]
    &&& drawn.y1 == raw.bbox_original_xyxy[1]
    &&& drawn.x2 == raw.bbox_original_xyxy[2]
    &&& drawn.y2 == raw.bbox_original_xyxy[3]
}

/// Whether an analysis holds, in order, a detection and a box for each relevant raw detection of a
/// frame, and nothing else.
pub open spec fn analyzes(
    req: IngestFrameRequest,
    raw: Seq<RawDetection>,
    analysis: FrameAnalysis,
) -> bool {
    &&& analysis.detections@ == relevant(raw).map_values(
        |r: RawDetection| detection_of(req, r),
    )
    &&& analysis.overlay_boxes@.len() == relevant(raw).len()
    &&& forall|i: int|
        0 <= i < relevant(raw).len() ==> box_of(
            relevant(raw)[i],
            #[trigger] analysis.overlay_boxes@[i],
        )
}

/// Turns what a model reports of a frame into detections for the rules and boxes to draw. Classes
/// that stand for no rule are dropped from both.
pub fn translate_frame(req: &IngestFrameRequest, raw: &[RawDetection]) -> (analysis: FrameAnalysis)
    ensures
        analyzes(*req, raw@, analysis),
{
    let mut detections: Vec<Detection> = Vec::new();
    let mut overlay_boxes: Vec<OverlayBox> = Vec::new();
    let ghost judge = |r: RawDetection| detection_of(*req, r);
    let mut i: usize = 0;
    proof {
        reveal(Seq::filter);
        assert(raw@.take(0) =~= Seq::<RawDetection>::empty());
        assert(relevant(raw@.take(0)) =~= Seq::<RawDetection>::empty());
    }
    while i < raw.len()
        invariant
            i <= raw.len(),
            detections@ == relevant(raw@.take(i as int)).map_values(judge),
            judge == (|r: RawDetection| detection_of(*req, r)),
            overlay_boxes@.len() == relevant(raw@.take(i as int)).len(),
            forall|j: int|
                0 <= j < overlay_boxes@.len() ==> box_of(
                    relevant(raw@.take(i as int))[j],
                    #[trigger] overlay_boxes@[j],
                ),
        decreases raw.len() - i,
    {
        let r = &raw[i];
        proof {
            reveal(Seq::filter);
            assert(raw@.take(i + 1).drop_last() =~= raw@.take(i as int));
        }
        if let Some((rule_type, confidence_bp)) = to_rule_confidence_bp(r) {
            detections.push(
                Detection {
                    site_id: req.site_id,
                    worker_id: req.worker_id,
                    rule_type,
                    confidence_bp,
                    occured_at: req.captured_at,
                },
            );
            overlay_boxes.push(
                OverlayBox {
                    rule: rule_type.as_db_str().to_owned(),
                    confidence_bp,
                    x1: r.bbox_original_xyxy[0],
                    y1: r.bbox_original_xyxy[1],
                    x2: r.bbox_original_xyxy[2],
                    y2: r.bbox_original_xyxy[3],
                },
            );
            assert(detections@ =~= relevant(raw@.take(i + 1)).map_values(judge));
        }
        i = i + 1;
    }
    assert(raw@.take(raw@.len() as int) =~= raw@);
    FrameAnalysis { detections, overlay_boxes }
}

/// Whether a reply is the one to bytes that are no picture, for whatever reason.
pub open spec fn is_image_refusal(reply: ErrorReply) -> bool {
    exists|detail: Seq<char>| #[trigger]
        reply.is_logged(StatusCode::BadRequest, "invalid_image_data"@, detail)
}

/// Looks at what the reader of pictures made of a frame: runs the model on the picture and
/// translates what the model reports, or answers that the frame is no picture.
pub fn analyze_picture(
    vision: &VisionEngine,
    req: &IngestFrameRequest,
    loaded: Result<DynamicImage, String>,
) -> (result: Result<FrameAnalysis, ErrorReply>)
    ensures
        match loaded {
            Ok(_) => result matches Ok(analysis) && analyzes(*req, Seq::empty(), analysis),
            Err(e) => result matches Err(reply) && reply.is_logged(
                StatusCode::BadRequest,
                "invalid_image_data"@,
                e@,
            ),
        },
{
    let image = frame_image(loaded)?;
    let raw = frame_detections(vision.infer(&image))?;
    assert(raw@ =~= Seq::<RawDetection>::empty());
    Ok(translate_frame(req, raw.as_slice()))
}

/// Looks at a frame: decodes it, runs the model on it and translates what the model reports. A
/// frame that is not Base64 gets the reply that says so. Another one is looked at, or gets the
/// reply that it is no picture. Its bytes alone decide which, but for a JPEG file that is decoded
/// on threads: one that is at fault is refused all the same, and one that is not may be.
pub fn analyze_frame(vision: &VisionEngine, req: &IngestFrameRequest) -> (result: Result<
    FrameAnalysis,
    ErrorReply,
>)
    ensures
        match base64_decoded(req.frame_base64@) {
            Err(detail) => result matches Err(reply) && reply.is_logged(
                StatusCode::BadRequest,
                "invalid_base64_frame"@,
                detail,
            ),
            Ok(bytes) => {
                &&& match result {
                    Ok(analysis) => analyzes(*req, Seq::empty(), analysis),
                    Err(reply) => is_image_refusal(reply),
                }
                &&& !is_jpeg(bytes) && !is_png(bytes) ==> result is Err
                &&& result is Ok ==> picture_fault(bytes) is None
                &&& !reader_panics(bytes) ==> exists|loaded: Result<DynamicImage, String>| #[trigger]
                    reader_gives(bytes, loaded) && match loaded {
                        Ok(_) => result is Ok,
                        Err(e) => result matches Err(reply) && reply.is_logged(
                            StatusCode::BadRequest,
                            "invalid_image_data"@,
                            e@,
                        ),
                    }
                &&& reader_panics(bytes) || bytes_decide(bytes) ==> match picture_fault(bytes) {
                    Some(detail) => result matches Err(reply) && reply.is_logged(
                        StatusCode::BadRequest,
                        "invalid_image_data"@,
                        detail,
                    ),
                    None => result is Ok,
                }
            },
        },
{
    let bytes = frame_bytes(base64_decode(req.frame_base64.as_str()))?;
    analyze_picture(vision, req, read_picture(bytes.as_slice()))
}

/// What the log learns of a confidence that the rules refuse.
pub open spec fn out_of_range_detail(bp: u16) -> Seq<char> {
    "vision layer produced out-of-range confidence: "@ + decimal(bp as nat)
}

/// Runs the rules on the detections of a frame. A batch that the rules refuse is the fault of the
/// vision layer, not of the client.
pub fn fire_incidents(engine: &mut RulesEngine, detections: &[Detection]) -> (result: Result<
    Vec<IncidentCandidate>,
    ErrorReply,
>)
    ensures
        final(engine).spec_config() == old(engine).spec_config(),
        result is Ok <==> in_range(detections@),
        match result {
            Ok(fired) => {
                &&& fired@ == incidents(
                    old(engine).spec_config(),
                    old(engine).spec_firings(),
                    detections@,
                )
                &&& final(engine).spec_firings() == firings_after(
                    old(engine).spec_config(),
                    old(engine).spec_firings(),
                    detections@,
                )
            },
            Err(reply) => {
                &&& final(engine).spec_firings() == old(engine).spec_firings()
                &&& exists|i: int| #[trigger]
                    first_out_of_range(detections@, i) && reply.is_logged(
                        StatusCode::InternalServerError,
                        "rules_engine_confidence_out_of_range"@,
                        out_of_range_detail(detections@[i].confidence_bp),
                    )
            },
        },
{
    match engine.evaluate(detections) {
        Ok(fired) => Ok(fired),
        Err(RuleEngineError::ConfidenceOutOfRange(bp)) => {
            let number = decimal_text(bp as u64);
            let detail = join2("vision layer produced out-of-range confidence: ", number.as_str());
            Err(
                error_response(
                    StatusCode::InternalServerError,
                    "rules_engine_confidence_out_of_range",
                    detail.as_str(),
                ),
            )
        },
    }
}

/// The ids among the results of storing incidents.
pub open spec fn stored_ids(inserted: Seq<Result<Uuid, DbError>>) -> Seq<Uuid> {
    inserted.filter(|r: Result<Uuid, DbError>| r is Ok).map_values(
        |r: Result<Uuid, DbError>| r->Ok_0,
    )
}

/// A line for the log for each incident that could not be stored.
pub open spec fn insert_failures(inserted: Seq<Result<Uuid, DbError>>) -> Seq<Seq<char>> {
    inserted.filter(|r: Result<Uuid, DbError>| r is Err).map_values(
        |r: Result<Uuid, DbError>|
            log_line("incident_insert_failed"@, (r->Err_0).spec_message()),
    )
}

/// The answer to a frame and the lines that it leaves in the log.
#[derive(Debug)]
pub struct IngestOutcome {
    pub response: IngestFrameResponse,
    pub log: Vec<String>,
}

/// Puts the answer to a frame together. An incident that could not be stored is logged and left
/// out; it takes nothing from those that were stored.
pub fn ingest_outcome(
    inserted: Vec<Result<Uuid, DbError>>,
    overlay_boxes: Vec<OverlayBox>,
) -> (outcome: IngestOutcome)
    ensures
        outcome.response.incidents_created@ == stored_ids(inserted@),
        outcome.response.overlay_boxes == overlay_boxes,
        outcome.log@.map_values(|line: String| line@) == insert_failures(inserted@),
{
    let mut incidents_created: Vec<Uuid> = Vec::new();
    let mut log: Vec<String> = Vec::new();
    let ghost text = |line: String| line@;
    let ghost stored = |r: Result<Uuid, DbError>| r is Ok;
    let ghost failed = |r: Result<Uuid, DbError>| r is Err;
    let mut i: usize = 0;
    proof {
        reveal(Seq::filter);
        assert(inserted@.take(0) =~= Seq::empty());
        assert(stored_ids(inserted@.take(0)) =~= incidents_created@);
        assert(insert_failures(inserted@.take(0)) =~= log@.map_values(text));
    }
    while i < inserted.len()
        invariant
            i <= inserted.len(),
            incidents_created@ == stored_ids(inserted@.take(i as int)),
            log@.map_values(text) == insert_failures(inserted@.take(i as int)),
            text == (|line: String| line@),
            stored == (|r: Result<Uuid, DbError>| r is Ok),
            failed == (|r: Result<Uuid, DbError>| r is Err),
        decreases inserted.len() - i,
    {
        let ghost before = inserted@.take(i as int);
        let ghost log_before = log@;
        proof {
            reveal(Seq::filter);
            assert(inserted@.take(i + 1).drop_last() =~= before);
        }
        match &inserted[i] {
            Ok(id) => {
                incidents_created.push(*id);
                assert(incidents_created@ =~= stored_ids(inserted@.take(i + 1)));
            },
            Err(e) => {
                let message = e.message();
                log.push(join2("[incident_insert_failed] ", message.as_str()));
                assert(log@.map_values(text) =~= log_before.map_values(text).push(
                    log_line("incident_insert_failed"@, e.spec_message()),
                )) by {
                    reveal_strlit("[incident_insert_failed] ");
                    reveal_strlit("incident_insert_failed");
                    reveal_strlit("[");
                    reveal_strlit("] ");
                    assert("[incident_insert_failed] "@ =~= "["@ + "incident_insert_failed"@
                        + "] "@);
                }
                assert(log@.map_values(text) =~= insert_failures(inserted@.take(i + 1)));
            },
        }
        i = i + 1;
    }
    assert(inserted@.take(inserted@.len() as int) =~= inserted@);
    IngestOutcome { response: IngestFrameResponse { incidents_created, overlay_boxes }, log }
}

/// Every detection that a frame is translated to has a confidence in range, so the rules never
/// refuse a frame.
pub proof fn law_translated_frames_are_never_refused(
    req: IngestFrameRequest,
    raw: Seq<RawDetection>,
    analysis: FrameAnalysis,
)
    requires
        analyzes(req, raw, analysis),
    ensures
        in_range(analysis.detections@),
{
}

/// Each box shows the rule and confidence of the detection at its place: there is a box for every
/// detection, whatever the rules make of it later.
pub proof fn law_boxes_show_the_detections(
    req: IngestFrameRequest,
    raw: Seq<RawDetection>,
    analysis: FrameAnalysis,
)
    requires
        analyzes(req, raw, analysis),
    ensures
        analysis.overlay_boxes@.len() == analysis.detections@.len(),
        forall|i: int|
            0 <= i < analysis.detections@.len() ==> {
                &&& (#[trigger] analysis.overlay_boxes@[i]).rule@
                    == analysis.detections@[i].rule_type.spec_db_str()
                &&& analysis.overlay_boxes@[i].confidence_bp
                    == analysis.detections@[i].confidence_bp
            },
{
    assert forall|i: int| 0 <= i < analysis.detections@.len() implies {
        &&& (#[trigger] analysis.overlay_boxes@[i]).rule@
            == analysis.detections@[i].rule_type.spec_db_str()
        &&& analysis.overlay_boxes@[i].confidence_bp == analysis.detections@[i].confidence_bp
    } by {
        assert(box_of(relevant(raw)[i], analysis.overlay_boxes@[i]));
    }
}

/// Storing is accounted for in full: every incident handed to the database is either among the
/// ids of the answer or has a line in the log.
pub proof fn law_every_insert_is_accounted_for(inserted: Seq<Result<Uuid, DbError>>)
    ensures
        stored_ids(inserted).len() + insert_failures(inserted).len() == inserted.len(),
    decreases inserted.len(),
{
    reveal(Seq::filter);
    if inserted.len() != 0 {
        law_every_insert_is_accounted_for(inserted.drop_last());
    }
}

/// What a client sees of a failure does not depend on its detail, which goes to the log alone.
pub proof fn law_details_stay_in_the_log(
    a: ErrorReply,
    b: ErrorReply,
    status: StatusCode,
    context: Seq<char>,
    detail_a: Seq<char>,
    detail_b: Seq<char>,
)
    requires
        a.is_logged(status, context, detail_a),
        b.is_logged(status, context, detail_b),
    ensures
        a.status == b.status,
        a.error@ == b.error@,
{
}

/// Number of incidents to list where a query names none.
pub fn default_limit() -> (limit: i64)
    ensures
        limit == 50,
{
    50
}

/// A requested number of incidents, held within 1 to 200.
pub fn safe_limit(limit: i64) -> (clamped: i64)
    ensures
        1 <= clamped <= 200,
        1 <= limit <= 200 ==> clamped == limit,
        limit < 1 ==> clamped == 1,
        limit > 200 ==> clamped == 200,
{
    if limit < 1 {
        1
    } else if limit > 200 {
        200
    } else {
        limit
    }
}

/// An incident as clients see it.
#[derive(Debug)]
pub struct IncidentDto {
    pub id: Uuid,
    pub site_id: Uuid,
    pub worker_id: Option<Uuid>,
    pub rule_triggered: String,
    pub confidence_bp: i32,
    pub detected_at: Timestamp,
    pub attestation_status: String,
    pub attestation_tx_hash: Option<String>,
}

/// Whether `dto` shows `row`.
pub open spec fn shows(dto: IncidentDto, row: IncidentRow) -> bool {
    &&& dto.id == row.id
    &&& dto.site_id == row.site_id
    &&& dto.worker_id == row.worker_id
    &&& dto.rule_triggered@ == row.rule_triggered.spec_db_str()
    &&& dto.confidence_bp == row.confidence_bp
    &&& dto.detected_at == row.detected_at
    &&& dto.attestation_status@ == row.attestation_status.spec_db_str()
    &&& dto.attestation_tx_hash == row.attestation_tx_hash
}

/// The name of a status as clients see it, which is its database name.
pub fn attestation_status_str(s: AttestationStatus) -> (name: String)
    ensures
        name@ == s.spec_db_str(),
{
    s.as_db_str().to_owned()
}

impl vstd::std_specs::convert::FromSpecImpl<IncidentRow> for IncidentDto {
    /// Texts with the same characters are not one value in proofs, so a conversion is told by
    /// `shows` and not by the one value that it must return.
    open spec fn obeys_from_spec() -> bool {
        false
    }

    open spec fn from_spec(row: IncidentRow) -> IncidentDto {
        choose|dto: IncidentDto| shows(dto, row)
    }
}

impl From<IncidentRow> for IncidentDto {
    fn from(row: IncidentRow) -> (dto: IncidentDto)
        ensures
            shows(dto, row),
    {
        IncidentDto {
            id: row.id,
            site_id: row.site_id,
            worker_id: row.worker_id,
            rule_triggered: row.rule_triggered.as_db_str().to_owned(),
            confidence_bp: row.confidence_bp,
            detected_at: row.detected_at,
            attestation_status: attestation_status_str(row.attestation_status),
            attestation_tx_hash: row.attestation_tx_hash,
        }
    }
}

/// Whether `dtos` show `rows`, one for one.
pub open spec fn show_all(dtos: Seq<IncidentDto>, rows: Seq<IncidentRow>) -> bool {
    &&& dtos.len() == rows.len()
    &&& forall|i: int| 0 <= i < rows.len() ==> shows(#[trigger] dtos[i], rows[i])
}

/// Answers a request for the incidents of a site.
pub fn incidents_reply(fetched: Result<Vec<IncidentRow>, DbError>) -> (reply: Result<
    Vec<IncidentDto>,
    ErrorReply,
>)
    ensures
        match fetched {
            Ok(rows) => reply matches Ok(dtos) && show_all(dtos@, rows@),
            Err(e) => reply matches Err(r) && r.is_logged(
                StatusCode::InternalServerError,
                "list_incidents_failed"@,
                e.spec_message(),
            ),
        },
{
    match fetched {
        Ok(rows) => {
            let ghost all = rows@;
            let mut dtos: Vec<IncidentDto> = Vec::new();
            for row in it: rows
                invariant
                    it.seq() == all,
                    show_all(dtos@, all.take(it.index() as int)),
            {
                dtos.push(IncidentDto::from(row));
            }
            assert(all.take(all.len() as int) =~= all);
            Ok(dtos)
        },
        Err(e) => Err(
            error_response(
                StatusCode::InternalServerError,
                "list_incidents_failed",
                e.message().as_str(),
            ),
        ),
    }
}

/// Whether a reply is the one to a failed look-up of an incident: one that is not there, or one
/// that could not be read.
pub open spec fn is_lookup_failure(reply: ErrorReply, e: DbError) -> bool {
    if e is NotFound {
        reply.is_plain(StatusCode::NotFound, "incident_not_found"@)
    } else {
        reply.is_logged(
            StatusCode::InternalServerError,
            "get_incident_failed"@,
            e.spec_message(),
        )
    }
}

/// The reply to a failed look-up of an incident.
pub fn lookup_failure(e: DbError) -> (reply: ErrorReply)
    ensures
        is_lookup_failure(reply, e),
{
    match e {
        DbError::NotFound => plain_error(StatusCode::NotFound, "incident_not_found"),
        e => error_response(
            StatusCode::InternalServerError,
            "get_incident_failed",
            e.message().as_str(),
        ),
    }
}

/// Answers a request for one incident.
pub fn incident_reply(fetched: Result<IncidentRow, DbError>) -> (reply: Result<
    IncidentDto,
    ErrorReply,
>)
    ensures
        match fetched {
            Ok(row) => reply matches Ok(dto) && shows(dto, row),
            Err(e) => reply matches Err(r) && is_lookup_failure(r, e),
        },
{
    match fetched {
        Ok(row) => Ok(IncidentDto::from(row)),
        Err(e) => Err(lookup_failure(e)),
    }
}

/// The characters of Unicode's White_Space property.
pub open spec fn is_white_space(c: char) -> bool {
    let n = c as u32;
    ||| 0x9 <= n <= 0xd
    ||| n == 0x20
    ||| n == 0x85
    ||| n == 0xa0
    ||| n == 0x1680
    ||| 0x2000 <= n <= 0x200a
    ||| n == 0x2028
    ||| n == 0x2029
    ||| n == 0x202f
    ||| n == 0x205f
    ||| n == 0x3000
}

/// Whether a text has no character but white space.
pub open spec fn is_blank(text: Seq<char>) -> bool {
    forall|i: int| 0 <= i < text.len() ==> is_white_space(#[trigger] text[i])
}

/// Whether `part` is what stays of `text` between places `from` and `to` once the white space at
/// both ends is gone.
pub open spec fn trimmed_to(text: Seq<char>, part: Seq<char>, from: int, to: int) -> bool {
    &&& 0 <= from <= to <= text.len()
    &&& part == text.subrange(from, to)
    &&& is_blank(text.subrange(0, from))
    &&& is_blank(text.subrange(to, text.len() as int))
    &&& from < to ==> !is_white_space(text[from]) && !is_white_space(text[to - 1])
}

/// `str::trim`: the text without the white space, by Unicode's White_Space property, at both ends.
#[verifier::external_body]
fn trim(text: &str) -> (part: &str)
    ensures
        exists|from: int, to: int| trimmed_to(text@, part@, from, to),
{
    text.trim()
}

/// Whether a text is empty once trimmed.
pub fn is_blank_text(text: &str) -> (blank: bool)
    ensures
        blank == is_blank(text@),
{
    let part = trim(text);
    proof {
        let (from, to) = choose|from: int, to: int| trimmed_to(text@, part@, from, to);
        if from == to {
            assert forall|i: int| 0 <= i < text@.len() implies is_white_space(
                #[trigger] text@[i],
            ) by {
                if i < from {
                    assert(text@.subrange(0, from)[i] == text@[i]);
                } else {
                    assert(text@.subrange(to, text@.len() as int)[i - to] == text@[i]);
                }
            }
        }
    }
    part.is_empty()
}

/// What a client is told of an incident that cannot be disputed.
pub open spec fn not_minted(status: AttestationStatus) -> Seq<char> {
    "incident must be 'minted' to dispute, currently '"@ + status.spec_db_str() + "'"@
}

/// Whether a dispute of an incident may be raised, and if not, the reply that says why. Only an
/// incident that is minted can be disputed, and only for a reason that is not blank. The incident
/// is judged before the reason.
pub fn check_dispute(fetched: Result<IncidentRow, DbError>, reason: &str) -> (verdict: Result<
    (),
    ErrorReply,
>)
    ensures
        match fetched {
            Err(e) => verdict matches Err(r) && is_lookup_failure(r, e),
            Ok(row) => if row.attestation_status != AttestationStatus::Minted {
                verdict matches Err(r) && r.is_plain(
                    StatusCode::Conflict,
                    not_minted(row.attestation_status),
                )
            } else if is_blank(reason@) {
                verdict matches Err(r) && r.is_plain(
                    StatusCode::BadRequest,
                    "reason must not be empty"@,
                )
            } else {
                verdict is Ok
            },
        },
{
    match fetched {
        Err(e) => Err(lookup_failure(e)),
        Ok(row) => {
            if row.attestation_status != AttestationStatus::Minted {
                let status = attestation_status_str(row.attestation_status);
                let error = join3(
                    "incident must be 'minted' to dispute, currently '",
                    status.as_str(),
                    "'",
                );
                Err(plain_error(StatusCode::Conflict, error.as_str()))
            } else if is_blank_text(reason) {
                Err(plain_error(StatusCode::BadRequest, "reason must not be empty"))
            } else {
                Ok(())
            }
        },
    }
}

/// How storing a dispute went.
#[derive(Debug)]
pub enum DisputeInsert {
    /// The statement failed, with this text.
    Failed(String),
    /// The row is stored, but its id could not be read, with this text.
    UnreadableId(String),
    /// The row is stored under this id.
    Stored(Uuid),
}

/// Answers a request that raised a dispute: the id of the dispute, under status 201.
pub fn dispute_reply(insert: DisputeInsert) -> (reply: Result<(StatusCode, Uuid), ErrorReply>)
    ensures
        match insert {
            DisputeInsert::Stored(id) => reply == Ok::<(StatusCode, Uuid), ErrorReply>(
                (StatusCode::Created, id),
            ),
            DisputeInsert::UnreadableId(e) => reply matches Err(r) && r.is_logged(
                StatusCode::InternalServerError,
                "dispute_id_read_failed"@,
                e@,
            ),
            DisputeInsert::Failed(e) => reply matches Err(r) && r.is_logged(
                StatusCode::InternalServerError,
                "raise_dispute_failed"@,
                e@,
            ),
        },
{
    match insert {
        DisputeInsert::Stored(id) => Ok((StatusCode::Created, id)),
        DisputeInsert::UnreadableId(e) => Err(
            error_response(
                StatusCode::InternalServerError,
                "dispute_id_read_failed",
                e.as_str(),
            ),
        ),
        DisputeInsert::Failed(e) => Err(
            error_response(StatusCode::InternalServerError, "raise_dispute_failed", e.as_str()),
        ),
    }
}

} // verus!
