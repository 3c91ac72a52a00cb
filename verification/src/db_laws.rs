//! What holds of rows and failures of the database, told by the fields of what goes in and comes
//! out.

use vstd::prelude::*;

use crate::db::{
    classify_sqlx_error, first_fault, first_faulty, found_incident, new_incident, row_moved,
    row_to_incident, rows_to_incidents, rule_type_from_db_str, AttestationStatus, DatabaseFailure,
    DbError, IncidentColumns, IncidentRow, NewIncident,
};
use crate::ids::Uuid;
use crate::rules::{IncidentCandidate, RuleType};
use crate::time::Timestamp;

verus! {

/// A refusal of the server is a violated constraint by its code alone, one of three, and then told
/// by the server's own words; any other failure is a failed query, told by its text.
pub proof fn law_failures_are_sorted_by_code(
    failure: Option<DatabaseFailure>,
    text: String,
    error: DbError,
)
    requires
        call_ensures(classify_sqlx_error, (failure, text), error),
    ensures
        ({
            let violated = failure is Some && (failure->0).code is Some && {
                let code = (failure->0).code->0@;
                code == "23514"@ || code == "23505"@ || code == "P0001"@
            };
            &&& violated ==> error is ConstraintViolation && error->ConstraintViolation_0@
                == (failure->0).message@
            &&& !violated ==> error is QueryFailed && error->QueryFailed_0@ == text@
        }),
{
}

/// The failures of the database in words.
pub proof fn law_database_failures_in_words(error: DbError, message: String)
    requires
        call_ensures(DbError::message, (&error,), message),
    ensures
        message@ == error.spec_message(),
        error matches DbError::ConnectionFailed(s) ==> message@ == "db connection failed: "@ + s@,
        error matches DbError::QueryFailed(s) ==> message@ == "query failed: "@ + s@,
        error matches DbError::ConstraintViolation(s) ==> message@ == "constraint violation: "@
            + s@,
        error is NotFound ==> message@ == "row not found"@,
{
}

/// A status is stored under its own name and read back from it, and from nothing else; any other
/// name is a failed query that names the column and the name.
pub proof fn law_statuses_are_stored_under_their_names(
    status: AttestationStatus,
    name: &'static str,
    text: &str,
    parsed: Result<AttestationStatus, DbError>,
)
    requires
        call_ensures(AttestationStatus::as_db_str, (&status,), name),
        call_ensures(AttestationStatus::from_db_str, (text,), parsed),
    ensures
        status == AttestationStatus::Pending ==> name@ == "pending"@,
        status == AttestationStatus::Minted ==> name@ == "minted"@,
        status == AttestationStatus::Failed ==> name@ == "failed"@,
        status == AttestationStatus::Disputed ==> name@ == "disputed"@,
        text@ == name@ ==> parsed == Ok::<AttestationStatus, DbError>(status),
        parsed == Ok::<AttestationStatus, DbError>(status) ==> text@ == name@,
        parsed is Ok <==> text@ == "pending"@ || text@ == "minted"@ || text@ == "failed"@ || text@
            == "disputed"@,
        parsed is Err ==> parsed->Err_0 is QueryFailed && parsed->Err_0->QueryFailed_0@
            == "unrecognized "@ + "attestation_status"@ + " '"@ + text@ + "' — schema/enum drift"@,
{
    reveal_strlit("pending");
    reveal_strlit("minted");
    reveal_strlit("failed");
    reveal_strlit("disputed");
    assert("pending"@.len() == 7 && "minted"@.len() == 6 && "failed"@.len() == 6
        && "disputed"@.len() == 8);
    assert("minted"@[0] != "failed"@[0]);
}

/// A rule is stored under its own name and read back from it, and from nothing else; any other name
/// is a failed query that names the column and the name.
pub proof fn law_rules_are_stored_under_their_names(
    rule: RuleType,
    name: &'static str,
    text: &str,
    parsed: Result<RuleType, DbError>,
)
    requires
        call_ensures(RuleType::as_db_str, (&rule,), name),
        call_ensures(rule_type_from_db_str, (text,), parsed),
    ensures
        rule == RuleType::PpeMissing ==> name@ == "ppe_missing"@,
        rule == RuleType::ZoneBreach ==> name@ == "zone_breach"@,
        text@ == name@ ==> parsed == Ok::<RuleType, DbError>(rule),
        parsed == Ok::<RuleType, DbError>(rule) ==> text@ == name@,
        parsed is Ok <==> text@ == "ppe_missing"@ || text@ == "zone_breach"@,
        parsed is Err ==> parsed->Err_0 is QueryFailed && parsed->Err_0->QueryFailed_0@
            == "unrecognized "@ + "rule_triggered"@ + " '"@ + text@ + "' — schema/enum drift"@,
{
    reveal_strlit("ppe_missing");
    reveal_strlit("zone_breach");
    assert("ppe_missing"@[0] != "zone_breach"@[0]);
}

/// Whether columns say what a row has, field by field.
pub open spec fn says(columns: IncidentColumns, row: IncidentRow) -> bool {
    &&& columns.id is Ok && columns.id->Ok_0 == row.id
    &&& columns.site_id is Ok && columns.site_id->Ok_0 == row.site_id
    &&& columns.worker_id is Ok && columns.worker_id->Ok_0 == row.worker_id
    &&& columns.rule_triggered is Ok && {
        let name = columns.rule_triggered->Ok_0@;
        ||| name == "ppe_missing"@ && row.rule_triggered == RuleType::PpeMissing
        ||| name == "zone_breach"@ && row.rule_triggered == RuleType::ZoneBreach
    }
    &&& columns.confidence_bp is Ok && columns.confidence_bp->Ok_0 == row.confidence_bp
    &&& columns.detected_at is Ok && columns.detected_at->Ok_0 == row.detected_at
    &&& columns.attestation_status is Ok && {
        let name = columns.attestation_status->Ok_0@;
        ||| name == "pending"@ && row.attestation_status == AttestationStatus::Pending
        ||| name == "minted"@ && row.attestation_status == AttestationStatus::Minted
        ||| name == "failed"@ && row.attestation_status == AttestationStatus::Failed
        ||| name == "disputed"@ && row.attestation_status == AttestationStatus::Disputed
    }
    &&& columns.attestation_tx_hash is Ok && columns.attestation_tx_hash->Ok_0
        == row.attestation_tx_hash
}

/// Whether columns can all be read, and name a rule and a status.
pub open spec fn sound(columns: IncidentColumns) -> bool {
    &&& columns.id is Ok && columns.site_id is Ok && columns.worker_id is Ok
    &&& columns.rule_triggered is Ok && (columns.rule_triggered->Ok_0@ == "ppe_missing"@
        || columns.rule_triggered->Ok_0@ == "zone_breach"@)
    &&& columns.confidence_bp is Ok && columns.detected_at is Ok
    &&& columns.attestation_status is Ok && {
        let name = columns.attestation_status->Ok_0@;
        name == "pending"@ || name == "minted"@ || name == "failed"@ || name == "disputed"@
    }
    &&& columns.attestation_tx_hash is Ok
}

proof fn lemma_names_differ()
    ensures
        "ppe_missing"@ != "zone_breach"@,
        "pending"@ != "minted"@ && "pending"@ != "failed"@ && "pending"@ != "disputed"@,
        "minted"@ != "failed"@ && "minted"@ != "disputed"@ && "failed"@ != "disputed"@,
{
    reveal_strlit("ppe_missing");
    reveal_strlit("zone_breach");
    reveal_strlit("pending");
    reveal_strlit("minted");
    reveal_strlit("failed");
    reveal_strlit("disputed");
    assert("ppe_missing"@[0] != "zone_breach"@[0]);
    assert("pending"@.len() == 7 && "minted"@.len() == 6 && "failed"@.len() == 6
        && "disputed"@.len() == 8);
    assert("minted"@[0] != "failed"@[0]);
}

/// A row is read if and only if its columns are sound, and then has, field by field, what they say;
/// otherwise the query has failed.
pub proof fn law_rows_are_read_field_by_field(
    columns: IncidentColumns,
    result: Result<IncidentRow, DbError>,
)
    requires
        call_ensures(row_to_incident, (columns,), result),
    ensures
        result is Ok <==> sound(columns),
        result matches Ok(row) ==> says(columns, row),
        result is Err ==> result->Err_0 is QueryFailed,
{
    lemma_names_differ();
}

/// The failure of a row is that of its first column at fault, in the order of the columns.
pub proof fn law_the_first_column_at_fault_counts(
    columns: IncidentColumns,
    result: Result<IncidentRow, DbError>,
)
    requires
        call_ensures(row_to_incident, (columns,), result),
        !sound(columns),
    ensures
        result is Err && result->Err_0 is QueryFailed,
        ({
            let told = result->Err_0->QueryFailed_0@;
            let rule = columns.rule_triggered->Ok_0@;
            let status = columns.attestation_status->Ok_0@;
            if columns.id is Err {
                told == columns.id->Err_0@
            } else if columns.site_id is Err {
                told == columns.site_id->Err_0@
            } else if columns.worker_id is Err {
                told == columns.worker_id->Err_0@
            } else if columns.rule_triggered is Err {
                told == columns.rule_triggered->Err_0@
            } else if rule != "ppe_missing"@ && rule != "zone_breach"@ {
                told == "unrecognized "@ + "rule_triggered"@ + " '"@ + rule
                    + "' — schema/enum drift"@
            } else if columns.confidence_bp is Err {
                told == columns.confidence_bp->Err_0@
            } else if columns.detected_at is Err {
                told == columns.detected_at->Err_0@
            } else if columns.attestation_status is Err {
                told == columns.attestation_status->Err_0@
            } else if status != "pending"@ && status != "minted"@ && status != "failed"@ && status
                != "disputed"@ {
                told == "unrecognized "@ + "attestation_status"@ + " '"@ + status
                    + "' — schema/enum drift"@
            } else {
                told == columns.attestation_tx_hash->Err_0@
            }
        }),
{
}

/// Two rows that are read alike have the same columns, up to how texts are held: no column is lost
/// or mixed up.
pub proof fn law_reading_loses_nothing(
    a: IncidentColumns,
    b: IncidentColumns,
    row: IncidentRow,
)
    requires
        call_ensures(row_to_incident, (a,), Ok::<IncidentRow, DbError>(row)),
        call_ensures(row_to_incident, (b,), Ok::<IncidentRow, DbError>(row)),
    ensures
        a.id == b.id && a.site_id == b.site_id && a.worker_id == b.worker_id,
        a.rule_triggered->Ok_0@ == b.rule_triggered->Ok_0@,
        a.confidence_bp == b.confidence_bp && a.detected_at == b.detected_at,
        a.attestation_status->Ok_0@ == b.attestation_status->Ok_0@,
        a.attestation_tx_hash == b.attestation_tx_hash,
{
    lemma_names_differ();
}

/// A list is read row by row, in order, and fails if and only if one of its rows does, with the
/// failure of the first that does.
pub proof fn law_lists_are_read_row_by_row(
    rows: Vec<IncidentColumns>,
    list: Result<Vec<IncidentRow>, DbError>,
)
    requires
        call_ensures(rows_to_incidents, (rows,), list),
    ensures
        list is Ok <==> forall|i: int| 0 <= i < rows@.len() ==> sound(#[trigger] rows@[i]),
        list matches Ok(incidents) ==> incidents@.len() == rows@.len() && forall|i: int|
            0 <= i < rows@.len() ==> says(#[trigger] rows@[i], incidents@[i]),
        list is Err ==> list->Err_0 is QueryFailed && exists|i: int|
            {
                &&& 0 <= i < rows@.len() && !sound(#[trigger] rows@[i])
                &&& forall|j: int| 0 <= j < i ==> sound(#[trigger] rows@[j])
                &&& forall|single: Result<IncidentRow, DbError>| #[trigger]
                    call_ensures(row_to_incident, (rows@[i],), single) ==> single is Err
                        && single->Err_0->QueryFailed_0@ == list->Err_0->QueryFailed_0@
            },
{
    lemma_names_differ();
    assert forall|columns: IncidentColumns| sound(columns) <==> #[trigger] first_fault(columns)
        is None by {}
    if list is Ok {
        assert forall|i: int| 0 <= i < rows@.len() implies sound(#[trigger] rows@[i]) by {
            assert(first_fault(rows@[i]) is None);
        }
    } else {
        let i = choose|i: int| #[trigger]
            first_faulty(rows@, i) && list->Err_0.is_query_failure(first_fault(rows@[i])->0);
        assert(!sound(rows@[i])) by {
            assert(first_fault(rows@[i]) is Some);
        }
        assert forall|j: int| 0 <= j < i implies sound(#[trigger] rows@[j]) by {
            assert(first_fault(rows@[j]) is None);
        }
        assert forall|single: Result<IncidentRow, DbError>| #[trigger]
            call_ensures(row_to_incident, (rows@[i],), single) implies single is Err
            && single->Err_0->QueryFailed_0@ == list->Err_0->QueryFailed_0@ by {}
    }
}

/// A query by id that finds no row finds no incident; a row that it finds is read as any other.
pub proof fn law_a_query_by_id_reads_its_row(
    columns: IncidentColumns,
    missing: Result<IncidentRow, DbError>,
    found: Result<IncidentRow, DbError>,
)
    requires
        call_ensures(found_incident, (None::<IncidentColumns>,), missing),
        call_ensures(found_incident, (Some(columns),), found),
    ensures
        missing is Err && missing->Err_0 is NotFound,
        found is Ok <==> sound(columns),
        found matches Ok(row) ==> says(columns, row),
        found is Err ==> found->Err_0 is QueryFailed,
{
    lemma_names_differ();
}

/// A guarded update has moved its row if and only if it touched one.
pub proof fn law_one_row_is_moved(rows_affected: u64, moved: bool)
    requires
        call_ensures(row_moved, (rows_affected,), moved),
    ensures
        moved <==> rows_affected == 1,
{
}

/// A candidate is stored field by field, its rule under its name.
pub proof fn law_candidates_are_stored_field_by_field(
    candidate: &IncidentCandidate,
    stored: NewIncident,
)
    requires
        call_ensures(new_incident, (candidate,), stored),
    ensures
        stored.site_id == candidate.site_id,
        stored.worker_id == candidate.worker_id,
        candidate.rule_triggered == RuleType::PpeMissing ==> stored.rule_triggered@
            == "ppe_missing"@,
        candidate.rule_triggered == RuleType::ZoneBreach ==> stored.rule_triggered@
            == "zone_breach"@,
        stored.confidence_bp == candidate.confidence_bp,
        stored.detected_at == candidate.detected_at,
{
}

/// An incident that was stored for a candidate, and read from columns that hold what was stored,
/// has every field of the candidate.
pub proof fn law_what_is_stored_is_read(
    candidate: &IncidentCandidate,
    stored: NewIncident,
    columns: IncidentColumns,
    read: Result<IncidentRow, DbError>,
)
    requires
        call_ensures(new_incident, (candidate,), stored),
        call_ensures(row_to_incident, (columns,), read),
        columns.id is Ok,
        columns.site_id == Ok::<Uuid, String>(stored.site_id),
        columns.worker_id == Ok::<Option<Uuid>, String>(stored.worker_id),
        columns.rule_triggered is Ok && columns.rule_triggered->Ok_0@ == stored.rule_triggered@,
        columns.confidence_bp == Ok::<i32, String>(stored.confidence_bp),
        columns.detected_at == Ok::<Timestamp, String>(stored.detected_at),
        columns.attestation_status is Ok && columns.attestation_status->Ok_0@ == "pending"@,
        columns.attestation_tx_hash matches Ok(None),
    ensures
        read is Ok,
        ({
            let row = read->Ok_0;
            &&& columns.id->Ok_0 == row.id
            &&& row.site_id == candidate.site_id && row.worker_id == candidate.worker_id
            &&& row.rule_triggered == candidate.rule_triggered
            &&& row.confidence_bp == candidate.confidence_bp
            &&& row.detected_at == candidate.detected_at
            &&& row.attestation_status == AttestationStatus::Pending
            &&& row.attestation_tx_hash is None
        }),
{
    lemma_names_differ();
}

} // verus!
