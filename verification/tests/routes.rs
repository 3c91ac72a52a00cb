use base64::Engine;
use fundi::db::{AttestationStatus, DbError, IncidentRow};
use fundi::ids::Uuid;
use fundi::picture::{can_be_read, read_picture};
use fundi::routes::{
    analyze_frame, analyze_picture, attestation_status_str, check_dispute, default_limit, dispute_reply, error_response, fire_incidents,
    frame_bytes, frame_detections, frame_image, health, incident_reply, incidents_reply, ingest_outcome, is_blank_text,
    safe_limit, translate_frame, DisputeInsert, IncidentDto, IngestFrameRequest, StatusCode,
};
use fundi::rules::{Detection, RuleType, RulesEngine, RulesEngineConfig};
use fundi::time::Timestamp;
use fundi::vision::{RawDetection, VisionEngine, VisionError};

const PIXEL_PNG: &str = "iVBORw0KGgoAAAANSUhEUgAAAAEAAAABCAAAAAA6fptVAAAACklEQVR4nGNoAAAAggCBd81ytgAAAABJRU5ErkJggg==";

fn request(frame: &str) -> IngestFrameRequest {
    IngestFrameRequest {
        site_id: Uuid { bits: 1 },
        worker_id: Some(Uuid { bits: 2 }),
        frame_base64: frame.to_string(),
        captured_at: Timestamp::new(1_700_000_000, 0).unwrap(),
    }
}

fn raw(class_index: usize, scaled_confidence: i64) -> RawDetection {
    RawDetection { bbox_model_xyxy: [9; 4], bbox_original_xyxy: [1, 2, 3, 4], class_index, scaled_confidence }
}

fn incident(status: AttestationStatus) -> IncidentRow {
    IncidentRow {
        id: Uuid { bits: 1 },
        site_id: Uuid { bits: 2 },
        worker_id: None,
        rule_triggered: RuleType::ZoneBreach,
        confidence_bp: 8000,
        detected_at: Timestamp::new(1_700_000_000, 0).unwrap(),
        attestation_status: status,
        attestation_tx_hash: Some("0x1".to_string()),
    }
}

#[test]
fn statuses_have_their_numbers() {
    assert_eq!(health().as_u16(), 200);
    assert_eq!(StatusCode::Created.as_u16(), 201);
    assert_eq!(StatusCode::BadRequest.as_u16(), 400);
    assert_eq!(StatusCode::NotFound.as_u16(), 404);
    assert_eq!(StatusCode::Conflict.as_u16(), 409);
    assert_eq!(StatusCode::InternalServerError.as_u16(), 500);
}

#[test]
fn detail_goes_to_the_log_only() {
    let reply = error_response(StatusCode::BadRequest, "some_context", "secret detail");
    assert_eq!(reply.status, StatusCode::BadRequest);
    assert_eq!(reply.error, "some_context");
    assert_eq!(reply.log, Some("[some_context] secret detail".to_string()));
}

#[test]
fn frame_that_is_a_picture_is_analyzed() {
    let engine = VisionEngine::new("").unwrap();
    let analysis = analyze_frame(&engine, &request(PIXEL_PNG)).unwrap();
    assert!(analysis.detections.is_empty());
    assert!(analysis.overlay_boxes.is_empty());
}

#[test]
fn frame_that_is_no_base64_is_refused() {
    let engine = VisionEngine::new("").unwrap();
    let reply = analyze_frame(&engine, &request("not base64!")).unwrap_err();
    assert_eq!(reply.status, StatusCode::BadRequest);
    assert_eq!(reply.error, "invalid_base64_frame");
    let detail = base64::engine::general_purpose::STANDARD.decode("not base64!").unwrap_err().to_string();
    assert_eq!(reply.log, Some(format!("[invalid_base64_frame] {}", detail)));
}

#[test]
fn frame_that_is_no_picture_is_refused() {
    let engine = VisionEngine::new("").unwrap();
    let reply = analyze_frame(&engine, &request("aGVsbG8=")).unwrap_err();
    assert_eq!(reply.status, StatusCode::BadRequest);
    assert_eq!(reply.error, "invalid_image_data");
    let detail = image::load_from_memory(b"hello").unwrap_err().to_string();
    assert_eq!(reply.log, Some(format!("[invalid_image_data] {}", detail)));
}

#[test]
fn frame_with_a_broken_header_is_refused() {
    let engine = VisionEngine::new("").unwrap();
    let frame = base64::engine::general_purpose::STANDARD.encode(lossless(12, 3));
    let reply = analyze_frame(&engine, &request(&frame)).unwrap_err();
    assert_eq!(reply.status, StatusCode::BadRequest);
    assert_eq!(reply.error, "invalid_image_data");
    assert_eq!(reply.log, Some("[invalid_image_data] the header of the picture contradicts itself".to_string()));
}

#[test]
fn frame_of_a_large_jpeg_is_analyzed() {
    let engine = VisionEngine::new("").unwrap();
    let bytes = jpeg(image::DynamicImage::new_rgb8(300, 200));
    let frame = base64::engine::general_purpose::STANDARD.encode(&bytes);
    assert!(analyze_frame(&engine, &request(&frame)).is_ok());
    assert_eq!(read_picture(&bytes).unwrap().width(), 300);
}

fn lossless(depth: u8, components: u8) -> Vec<u8> {
    let mut bytes = vec![0xff, 0xd8, 0xff, 0xe0, 0, 4, 0xff, 0xc3, 0xff, 0xfe, 0, 2, 7, 0xff, 0xff, 0xc3];
    bytes.extend([0, 8 + 3 * components, depth, 0, 1, 0, 1, components]);
    bytes.extend(vec![0x11; 3 * components as usize]);
    bytes.extend([0xff, 0xd9]);
    bytes
}

fn png(color_type: u8, palette: usize) -> Vec<u8> {
    let mut bytes = b"\x89PNG\r\n\x1a\n\0\0\0\x0dIHDR\0\0\0\x01\0\0\0\x01\x08".to_vec();
    bytes.extend([color_type, 0, 0, 0, 9, 9, 9, 9]);
    bytes.extend((palette as u32).to_be_bytes());
    bytes.extend(b"PLTE");
    bytes.extend(vec![1; palette + 4]);
    bytes.extend(b"\0\0\0\x01tEXta\x09\x09\x09\x09\0\0\0\0IDAT");
    bytes
}

fn sized(marker: u8, height: u16, width: u16, sampling: u8, in_scan: u8) -> Vec<u8> {
    let mut bytes = vec![0xff, 0xd8, 0xff, marker, 0, 14, 8];
    bytes.extend(height.to_be_bytes());
    bytes.extend(width.to_be_bytes());
    bytes.extend([2, 1, 0x11, 0, 2, sampling, 0, 0xff, 0xda, 0, 8, in_scan, 1, 0, 0, 63, 0]);
    bytes
}

#[test]
fn sizes_that_cannot_be_counted_are_found() {
    for marker in [0xc0, 0xc1, 0xc2] {
        assert!(can_be_read(&sized(marker, 65528, 65535, 0x11, 1)));
        assert!(!can_be_read(&sized(marker, 65529, 1, 0x11, 1)));
        assert!(can_be_read(&sized(marker, 65529, 1, 0x11, 2)));
        assert!(can_be_read(&sized(marker, 1, 65528, 0x31, 1)));
        assert!(!can_be_read(&sized(marker, 1, 65529, 0x31, 1)));
        assert!(can_be_read(&sized(marker, 1, 65529, 0x31, 2)));
        assert!(can_be_read(&sized(marker, 1, 65529, 0x13, 1)));
        assert!(can_be_read(&sized(marker, 65529, 1, 0x11, 1)[..20]));
    }
    assert!(can_be_read(&sized(0xc3, 65529, 65529, 0x31, 1)));
    assert!(can_be_read(&sized(0xc5, 65529, 65529, 0x31, 1)));
}

fn jpeg(picture: image::DynamicImage) -> Vec<u8> {
    let mut bytes = Vec::new();
    image::codecs::jpeg::JpegEncoder::new(&mut bytes)
        .encode(picture.as_bytes(), picture.width(), picture.height(), picture.color())
        .unwrap();
    bytes
}

#[test]
fn tall_pictures_are_read_up_to_what_can_be_counted() {
    assert_eq!(read_picture(&jpeg(image::DynamicImage::new_luma8(1, 65528))).unwrap().height(), 65528);
    assert_eq!(read_picture(&jpeg(image::DynamicImage::new_rgb8(1, 65535))).unwrap().height(), 65535);
    assert_eq!(
        read_picture(&jpeg(image::DynamicImage::new_luma8(1, 65529))).unwrap_err(),
        "the header of the picture contradicts itself"
    );
}

#[test]
fn broken_pictures_get_the_text_of_the_reader() {
    let engine = VisionEngine::new("").unwrap();
    let pixel = base64::engine::general_purpose::STANDARD.decode(PIXEL_PNG).unwrap();
    let small = jpeg(image::DynamicImage::new_rgb8(128, 4));
    for bytes in [&pixel[..40], &png(3, 0), &small[..small.len() - 2], &lossless(12, 3)[..20], b"GIF89a", b""] {
        let detail = image::load_from_memory(bytes).unwrap_err().to_string();
        let frame = base64::engine::general_purpose::STANDARD.encode(bytes);
        let reply = analyze_frame(&engine, &request(&frame)).unwrap_err();
        assert_eq!(reply.status, StatusCode::BadRequest);
        assert_eq!(reply.error, "invalid_image_data");
        assert_eq!(reply.log, Some(format!("[invalid_image_data] {}", detail)));
    }
    let frame = base64::engine::general_purpose::STANDARD.encode(&small);
    assert!(analyze_frame(&engine, &request(&frame)).is_ok());
}

#[test]
fn broken_frame_of_a_camera_is_refused() {
    let engine = VisionEngine::new("").unwrap();
    let bytes = jpeg(image::DynamicImage::new_rgb8(640, 480));
    let mut without_tables = bytes.clone();
    let scan = bytes.windows(2).position(|w| w == [0xff, 0xda]).unwrap();
    without_tables[scan + 6] = 0x33;
    for broken in [&bytes[..bytes.len() - 2], &bytes[..bytes.len() / 2], &bytes[..200], &without_tables] {
        let detail = image::load_from_memory(broken).unwrap_err().to_string();
        assert_eq!(read_picture(broken).unwrap_err(), detail);
        let frame = base64::engine::general_purpose::STANDARD.encode(broken);
        let reply = analyze_frame(&engine, &request(&frame)).unwrap_err();
        assert_eq!(reply.status, StatusCode::BadRequest);
        assert_eq!(reply.error, "invalid_image_data");
        assert_eq!(reply.log, Some(format!("[invalid_image_data] {}", detail)));
    }
}

#[test]
fn picture_that_was_read_is_looked_at() {
    let engine = VisionEngine::new("").unwrap();
    let analysis = analyze_picture(&engine, &request(""), Ok(image::DynamicImage::new_luma8(3, 2))).unwrap();
    assert!(analysis.detections.is_empty());
    assert!(analysis.overlay_boxes.is_empty());
    let reply = analyze_picture(&engine, &request(""), Err("d".to_string())).unwrap_err();
    assert_eq!(reply.status, StatusCode::BadRequest);
    assert_eq!(reply.error, "invalid_image_data");
    assert_eq!(reply.log, Some("[invalid_image_data] d".to_string()));
}

#[test]
fn headers_that_contradict_themselves_are_found() {
    for components in [1, 3, 4] {
        for depth in 0..=17 {
            let two_bytes = depth != 8;
            let promised_two = components == 1 && depth > 8;
            let clash = (2..=16).contains(&depth) && two_bytes != promised_two;
            assert_eq!(can_be_read(&lossless(depth, components)), !clash, "{} {}", depth, components);
        }
    }
    assert!(can_be_read(&lossless(12, 2)));
    assert!(can_be_read(&lossless(12, 3)[..20]));
    assert!(can_be_read(&lossless(12, 3)[..34]));
    for (palette, ok) in [(0, true), (1, false), (2, false), (3, true), (768, true), (769, false), (771, false)] {
        assert_eq!(can_be_read(&png(3, palette)), ok, "{}", palette);
        assert!(can_be_read(&png(2, palette)));
        let whole = png(3, palette);
        assert!(can_be_read(&whole[..whole.len() - 1]));
        assert!(can_be_read(&[&whole[..whole.len() - 4], b"IEND\0\0\0\0\0\0\0\0IDAT"].concat()));
    }
    assert!(can_be_read(b""));
    assert!(can_be_read(b"\xff\xd8\xff"));
    assert!(can_be_read(b"\x89PNG\r\n\x1a\n"));
    assert!(can_be_read(b"\xff\xd8\xff\xe0\0\x01\xff\xc3"));
}

#[test]
fn steps_of_a_frame_map_their_failures() {
    assert_eq!(frame_bytes(Ok(vec![1, 2])).unwrap(), vec![1, 2]);
    assert_eq!(frame_bytes(Err("d".to_string())).unwrap_err().log, Some("[invalid_base64_frame] d".to_string()));
    assert_eq!(frame_image(Ok(image::DynamicImage::new_luma8(3, 2))).unwrap().width(), 3);
    assert_eq!(frame_image(Err("d".to_string())).unwrap_err().log, Some("[invalid_image_data] d".to_string()));
    assert_eq!(frame_detections(Ok(vec![raw(0, 1)])).unwrap().len(), 1);
    let reply = frame_detections(Err(VisionError::InferenceFailed("d".to_string()))).unwrap_err();
    assert_eq!(reply.status, StatusCode::InternalServerError);
    assert_eq!(reply.error, "vision_inference_failed");
    assert_eq!(reply.log, Some("[vision_inference_failed] inference failed: d".to_string()));
}

#[test]
fn translation_keeps_known_classes_in_order() {
    let req = request("");
    let analysis = translate_frame(&req, &[raw(1, 7000), raw(5, 9000), raw(0, 20_000)]);
    assert_eq!(analysis.detections.len(), 2);
    assert_eq!(analysis.detections[0].rule_type, RuleType::ZoneBreach);
    assert_eq!(analysis.detections[0].confidence_bp, 7000);
    assert_eq!(analysis.detections[0].site_id, req.site_id);
    assert_eq!(analysis.detections[0].worker_id, req.worker_id);
    assert_eq!(analysis.detections[0].occured_at, req.captured_at);
    assert_eq!(analysis.detections[1].rule_type, RuleType::PpeMissing);
    assert_eq!(analysis.detections[1].confidence_bp, 10_000);
    assert_eq!(analysis.overlay_boxes.len(), 2);
    let first = &analysis.overlay_boxes[0];
    assert_eq!(first.rule, "zone_breach");
    assert_eq!(first.confidence_bp, 7000);
    assert_eq!((first.x1, first.y1, first.x2, first.y2), (1, 2, 3, 4));
    assert_eq!(analysis.overlay_boxes[1].rule, "ppe_missing");
}

#[test]
fn boxes_are_drawn_though_the_incident_is_debounced() {
    let mut engine = RulesEngine::new(RulesEngineConfig::default());
    let first = translate_frame(&request(""), &[raw(1, 7000)]);
    assert_eq!(fire_incidents(&mut engine, &first.detections).unwrap().len(), 1);
    let second = translate_frame(&request(""), &[raw(1, 7000)]);
    assert_eq!(fire_incidents(&mut engine, &second.detections).unwrap().len(), 0);
    assert_eq!(second.overlay_boxes.len(), 1);
}

#[test]
fn confidence_that_the_rules_refuse_is_a_server_error() {
    let mut engine = RulesEngine::new(RulesEngineConfig::default());
    let bad = Detection {
        site_id: Uuid { bits: 1 },
        worker_id: None,
        rule_type: RuleType::ZoneBreach,
        confidence_bp: 10_203,
        occured_at: Timestamp::new(0, 0).unwrap(),
    };
    let reply = fire_incidents(&mut engine, &[bad]).unwrap_err();
    assert_eq!(reply.status, StatusCode::InternalServerError);
    assert_eq!(reply.error, "rules_engine_confidence_out_of_range");
    assert_eq!(
        reply.log,
        Some(
            "[rules_engine_confidence_out_of_range] vision layer produced out-of-range confidence: 10203".to_string()
        )
    );
}

#[test]
fn failed_inserts_do_not_hide_the_others() {
    let outcome = ingest_outcome(
        vec![
            Ok(Uuid { bits: 1 }),
            Err(DbError::QueryFailed("x".to_string())),
            Ok(Uuid { bits: 2 }),
            Err(DbError::NotFound),
        ],
        vec![],
    );
    assert_eq!(outcome.response.incidents_created, vec![Uuid { bits: 1 }, Uuid { bits: 2 }]);
    assert_eq!(
        outcome.log,
        vec!["[incident_insert_failed] query failed: x", "[incident_insert_failed] row not found"]
    );
    let boxes = translate_frame(&request(""), &[raw(0, 100)]).overlay_boxes;
    assert_eq!(ingest_outcome(vec![], boxes).response.overlay_boxes.len(), 1);
}

#[test]
fn limits_are_clamped() {
    assert_eq!(default_limit(), 50);
    for (asked, given) in [(i64::MIN, 1), (0, 1), (1, 1), (50, 50), (200, 200), (201, 200), (999_999, 200)] {
        assert_eq!(safe_limit(asked), given);
    }
}

#[test]
fn status_names_for_clients() {
    assert_eq!(attestation_status_str(AttestationStatus::Pending), "pending");
    assert_eq!(attestation_status_str(AttestationStatus::Minted), "minted");
    assert_eq!(attestation_status_str(AttestationStatus::Failed), "failed");
    assert_eq!(attestation_status_str(AttestationStatus::Disputed), "disputed");
}

#[test]
fn dto_shows_the_row() {
    let dto = IncidentDto::from(incident(AttestationStatus::Disputed));
    assert_eq!(dto.id, Uuid { bits: 1 });
    assert_eq!(dto.site_id, Uuid { bits: 2 });
    assert_eq!(dto.worker_id, None);
    assert_eq!(dto.rule_triggered, "zone_breach");
    assert_eq!(dto.confidence_bp, 8000);
    assert_eq!(dto.detected_at.timestamp(), 1_700_000_000);
    assert_eq!(dto.attestation_status, "disputed");
    assert_eq!(dto.attestation_tx_hash, Some("0x1".to_string()));
}

#[test]
fn lists_and_look_ups_are_answered() {
    let listed = incidents_reply(Ok(vec![incident(AttestationStatus::Minted), incident(AttestationStatus::Failed)]));
    let names: Vec<String> = listed.unwrap().into_iter().map(|d| d.attestation_status).collect();
    assert_eq!(names, vec!["minted", "failed"]);
    let failed = incidents_reply(Err(DbError::QueryFailed("x".to_string()))).unwrap_err();
    assert_eq!(failed.status, StatusCode::InternalServerError);
    assert_eq!(failed.log, Some("[list_incidents_failed] query failed: x".to_string()));

    assert_eq!(incident_reply(Ok(incident(AttestationStatus::Minted))).unwrap().rule_triggered, "zone_breach");
    let missing = incident_reply(Err(DbError::NotFound)).unwrap_err();
    assert_eq!((missing.status, missing.error.as_str(), missing.log), (StatusCode::NotFound, "incident_not_found", None));
    let broken = incident_reply(Err(DbError::ConnectionFailed("x".to_string()))).unwrap_err();
    assert_eq!(broken.status, StatusCode::InternalServerError);
    assert_eq!(broken.log, Some("[get_incident_failed] db connection failed: x".to_string()));
}

#[test]
fn only_minted_incidents_can_be_disputed() {
    assert!(check_dispute(Ok(incident(AttestationStatus::Minted)), " wrong worker ").is_ok());
    for (status, name) in [
        (AttestationStatus::Pending, "pending"),
        (AttestationStatus::Failed, "failed"),
        (AttestationStatus::Disputed, "disputed"),
    ] {
        let reply = check_dispute(Ok(incident(status)), "").unwrap_err();
        assert_eq!(reply.status, StatusCode::Conflict);
        assert_eq!(reply.error, format!("incident must be 'minted' to dispute, currently '{}'", name));
        assert_eq!(reply.log, None);
    }
    let blank = check_dispute(Ok(incident(AttestationStatus::Minted)), " \n\u{3000}").unwrap_err();
    assert_eq!((blank.status, blank.error.as_str()), (StatusCode::BadRequest, "reason must not be empty"));
    assert_eq!(check_dispute(Err(DbError::NotFound), "x").unwrap_err().status, StatusCode::NotFound);
    assert_eq!(
        check_dispute(Err(DbError::QueryFailed("x".to_string())), "x").unwrap_err().status,
        StatusCode::InternalServerError
    );
}

#[test]
fn blank_is_white_space_of_any_script() {
    assert!(is_blank_text(""));
    assert!(!is_blank_text(" a "));
    let white: [u32; 25] = [
        0x9, 0xa, 0xb, 0xc, 0xd, 0x20, 0x85, 0xa0, 0x1680, 0x2000, 0x2001, 0x2002, 0x2003, 0x2004, 0x2005, 0x2006,
        0x2007, 0x2008, 0x2009, 0x200a, 0x2028, 0x2029, 0x202f, 0x205f, 0x3000,
    ];
    for n in 0..=0x10ffffu32 {
        if let Some(c) = char::from_u32(n) {
            assert_eq!(is_blank_text(&c.to_string()), white.contains(&n));
        }
    }
}

#[test]
fn stored_dispute_is_created() {
    assert_eq!(dispute_reply(DisputeInsert::Stored(Uuid { bits: 4 })).unwrap(), (StatusCode::Created, Uuid { bits: 4 }));
    let unread = dispute_reply(DisputeInsert::UnreadableId("x".to_string())).unwrap_err();
    assert_eq!(unread.log, Some("[dispute_id_read_failed] x".to_string()));
    let failed = dispute_reply(DisputeInsert::Failed("y".to_string())).unwrap_err();
    assert_eq!(failed.status, StatusCode::InternalServerError);
    assert_eq!(failed.log, Some("[raise_dispute_failed] y".to_string()));
}

#[test]
fn clients_see_the_same_whatever_the_detail() {
    let a = error_response(StatusCode::InternalServerError, "get_incident_failed", "relation missing");
    let b = error_response(StatusCode::InternalServerError, "get_incident_failed", "pool timed out");
    assert_eq!(a.status, b.status);
    assert_eq!(a.error, b.error);
    assert_ne!(a.log, b.log);
}
