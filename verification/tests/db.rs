use fundi::db::{
    classify_sqlx_error, found_incident, new_incident, row_moved, row_to_incident, rows_to_incidents,
    rule_type_from_db_str, AttestationStatus, DatabaseFailure, DbError, IncidentColumns,
};
use fundi::ids::Uuid;
use fundi::rules::{IncidentCandidate, RuleType};
use fundi::time::Timestamp;

fn columns() -> IncidentColumns {
    IncidentColumns {
        id: Ok(Uuid { bits: 1 }),
        site_id: Ok(Uuid { bits: 2 }),
        worker_id: Ok(Some(Uuid { bits: 3 })),
        rule_triggered: Ok("zone_breach".to_string()),
        confidence_bp: Ok(7500),
        detected_at: Ok(Timestamp::new(1_700_000_000, 0).unwrap()),
        attestation_status: Ok("pending".to_string()),
        attestation_tx_hash: Ok(None),
    }
}

fn fault(c: IncidentColumns) -> String {
    match row_to_incident(c) {
        Err(DbError::QueryFailed(s)) => s,
        other => panic!("{:?}", other),
    }
}

#[test]
fn attestation_status_round_trips_through_db_str() {
    for status in [
        AttestationStatus::Pending,
        AttestationStatus::Minted,
        AttestationStatus::Failed,
        AttestationStatus::Disputed,
    ] {
        let s = status.as_db_str();
        let parsed = AttestationStatus::from_db_str(s).unwrap();
        assert_eq!(status, parsed);
    }
}

#[test]
fn attestation_status_rejects_unknown_string() {
    let result = AttestationStatus::from_db_str("something_else");
    assert!(result.is_err());
}

#[test]
fn rule_type_round_trips_through_db_str() {
    for rule in [RuleType::PpeMissing, RuleType::ZoneBreach] {
        let s = rule.as_db_str();
        let parsed = rule_type_from_db_str(s).unwrap();
        assert_eq!(rule, parsed);
    }
}

#[test]
fn unknown_names_are_quoted_in_the_complaint() {
    match AttestationStatus::from_db_str("Minted") {
        Err(DbError::QueryFailed(s)) => {
            assert_eq!(s, "unrecognized attestation_status 'Minted' — schema/enum drift")
        }
        other => panic!("{:?}", other),
    }
    match rule_type_from_db_str("") {
        Err(DbError::QueryFailed(s)) => assert_eq!(s, "unrecognized rule_triggered '' — schema/enum drift"),
        other => panic!("{:?}", other),
    }
}

#[test]
fn failures_in_words() {
    assert_eq!(DbError::ConnectionFailed("a".to_string()).message(), "db connection failed: a");
    assert_eq!(DbError::QueryFailed("b".to_string()).message(), "query failed: b");
    assert_eq!(DbError::ConstraintViolation("c".to_string()).message(), "constraint violation: c");
    assert_eq!(DbError::NotFound.message(), "row not found");
}

#[test]
fn constraint_codes_are_told_from_other_failures() {
    let refused = |code: Option<&str>| {
        classify_sqlx_error(
            Some(DatabaseFailure { code: code.map(|c| c.to_string()), message: "m".to_string() }),
            "t".to_string(),
        )
    };
    assert_eq!(refused(Some("23514")).message(), "constraint violation: m");
    assert_eq!(refused(Some("23505")).message(), "constraint violation: m");
    assert_eq!(refused(Some("P0001")).message(), "constraint violation: m");
    assert_eq!(refused(Some("P0002")).message(), "query failed: t");
    assert_eq!(refused(Some("23503")).message(), "query failed: t");
    assert_eq!(refused(None).message(), "query failed: t");
    assert_eq!(classify_sqlx_error(None, "t".to_string()).message(), "query failed: t");
}

#[test]
fn complete_row_is_read() {
    let row = row_to_incident(IncidentColumns {
        attestation_status: Ok("minted".to_string()),
        attestation_tx_hash: Ok(Some("0xab".to_string())),
        ..columns()
    })
    .unwrap();
    assert_eq!(row.id, Uuid { bits: 1 });
    assert_eq!(row.site_id, Uuid { bits: 2 });
    assert_eq!(row.worker_id, Some(Uuid { bits: 3 }));
    assert_eq!(row.rule_triggered, RuleType::ZoneBreach);
    assert_eq!(row.confidence_bp, 7500);
    assert_eq!(row.detected_at.timestamp(), 1_700_000_000);
    assert_eq!(row.attestation_status, AttestationStatus::Minted);
    assert_eq!(row.attestation_tx_hash, Some("0xab".to_string()));
}

#[test]
fn first_fault_of_a_row_wins() {
    assert_eq!(fault(IncidentColumns { id: Err("no id".to_string()), site_id: Err("no site".to_string()), ..columns() }), "no id");
    assert_eq!(fault(IncidentColumns { site_id: Err("no site".to_string()), ..columns() }), "no site");
    assert_eq!(fault(IncidentColumns { worker_id: Err("no worker".to_string()), ..columns() }), "no worker");
    assert_eq!(fault(IncidentColumns { rule_triggered: Err("no rule".to_string()), ..columns() }), "no rule");
    assert_eq!(
        fault(IncidentColumns { rule_triggered: Ok("x".to_string()), confidence_bp: Err("no bp".to_string()), ..columns() }),
        "unrecognized rule_triggered 'x' — schema/enum drift"
    );
    assert_eq!(fault(IncidentColumns { confidence_bp: Err("no bp".to_string()), ..columns() }), "no bp");
    assert_eq!(fault(IncidentColumns { detected_at: Err("no time".to_string()), ..columns() }), "no time");
    assert_eq!(fault(IncidentColumns { attestation_status: Err("no status".to_string()), ..columns() }), "no status");
    assert_eq!(
        fault(IncidentColumns { attestation_status: Ok("y".to_string()), ..columns() }),
        "unrecognized attestation_status 'y' — schema/enum drift"
    );
    assert_eq!(fault(IncidentColumns { attestation_tx_hash: Err("no hash".to_string()), ..columns() }), "no hash");
}

#[test]
fn rows_are_all_read_or_none() {
    let read = rows_to_incidents(vec![columns(), IncidentColumns { id: Ok(Uuid { bits: 9 }), ..columns() }]).unwrap();
    assert_eq!(read.len(), 2);
    assert_eq!(read[1].id, Uuid { bits: 9 });
    let failed = rows_to_incidents(vec![
        columns(),
        IncidentColumns { detected_at: Err("first".to_string()), ..columns() },
        IncidentColumns { id: Err("second".to_string()), ..columns() },
    ]);
    assert_eq!(failed.unwrap_err().message(), "query failed: first");
    assert!(rows_to_incidents(vec![]).unwrap().is_empty());
}

#[test]
fn missing_row_is_not_found() {
    assert!(matches!(found_incident(None), Err(DbError::NotFound)));
    assert_eq!(found_incident(Some(columns())).unwrap().id, Uuid { bits: 1 });
    assert!(matches!(
        found_incident(Some(IncidentColumns { id: Err("bad".to_string()), ..columns() })),
        Err(DbError::QueryFailed(_))
    ));
}

#[test]
fn guarded_update_moves_one_row_or_none() {
    assert!(!row_moved(0));
    assert!(row_moved(1));
    assert!(!row_moved(2));
}

#[test]
fn stored_candidate_reads_back() {
    let candidate = IncidentCandidate {
        site_id: Uuid { bits: 5 },
        worker_id: None,
        rule_triggered: RuleType::PpeMissing,
        confidence_bp: 65_535,
        detected_at: Timestamp::new(12, 34).unwrap(),
    };
    let stored = new_incident(&candidate);
    assert_eq!(stored.rule_triggered, "ppe_missing");
    assert_eq!(stored.confidence_bp, 65_535);
    let row = row_to_incident(IncidentColumns {
        site_id: Ok(stored.site_id),
        worker_id: Ok(stored.worker_id),
        rule_triggered: Ok(stored.rule_triggered.to_string()),
        confidence_bp: Ok(stored.confidence_bp),
        detected_at: Ok(stored.detected_at),
        ..columns()
    })
    .unwrap();
    assert_eq!(row.site_id, candidate.site_id);
    assert_eq!(row.worker_id, None);
    assert_eq!(row.rule_triggered, RuleType::PpeMissing);
    assert_eq!(row.confidence_bp, 65_535);
    assert_eq!(row.detected_at, candidate.detected_at);
}
