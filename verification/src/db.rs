//! What the database stores of incidents, and how rows, values and failures translate.
//!
//! The statements themselves run elsewhere. Here stands what goes into them and what is made of
//! what comes back.

use vstd::prelude::*;

use crate::ids::Uuid;
use crate::rules::{IncidentCandidate, RuleType};
use crate::text::{join2, join3, same_text};
use crate::time::Timestamp;

verus! {

/// A failure of the database layer.
#[derive(Debug)]
pub enum DbError {
    ConnectionFailed(String),
    QueryFailed(String),
    /// The statement ran, but a constraint or trigger refused the data: a sign of a fault in the
    /// calling code, not of an outage.
    ConstraintViolation(String),
    NotFound,
}

impl DbError {
    /// The failure in words.
    pub open spec fn spec_message(self) -> Seq<char> {
        match self {
            DbError::ConnectionFailed(s) => "db connection failed: "@ + s@,
            DbError::QueryFailed(s) => "query failed: "@ + s@,
            DbError::ConstraintViolation(s) => "constraint violation: "@ + s@,
            DbError::NotFound => "row not found"@,
        }
    }

    /// The failure in words.
    pub fn message(&self) -> (message: String)
        ensures
            message@ == self.spec_message(),
    {
        match self {
            DbError::ConnectionFailed(s) => join2("db connection failed: ", s.as_str()),
            DbError::QueryFailed(s) => join2("query failed: ", s.as_str()),
            DbError::ConstraintViolation(s) => join2("constraint violation: ", s.as_str()),
            DbError::NotFound => "row not found".to_owned(),
        }
    }

    /// Whether this is a failed query with the given detail.
    pub open spec fn is_query_failure(self, detail: Seq<char>) -> bool {
        self matches DbError::QueryFailed(s) && s@ == detail
    }
}

/// What the database server said of a statement that it refused.
#[derive(Debug)]
pub struct DatabaseFailure {
    pub code: Option<String>,
    pub message: String,
}

/// Postgres's code for data that a CHECK constraint refuses.
pub open spec fn check_violation() -> Seq<char> {
    "23514"@
}

/// Postgres's code for data that a uniqueness constraint refuses.
pub open spec fn unique_violation() -> Seq<char> {
    "23505"@
}

/// Postgres's code for data that a trigger refuses by a plain RAISE EXCEPTION.
pub open spec fn raise_exception() -> Seq<char> {
    "P0001"@
}

/// Whether a refusal of the server means that a constraint or trigger refused the data.
pub open spec fn violates_constraint(failure: DatabaseFailure) -> bool {
    failure.code matches Some(code) && (code@ == check_violation() || code@ == unique_violation()
        || code@ == raise_exception())
}

/// Sorts a failed statement. `failure` is what the server said, where it was the server that
/// refused; `text` describes the failure whatever its origin.
pub fn classify_sqlx_error(failure: Option<DatabaseFailure>, text: String) -> (error: DbError)
    ensures
        match failure {
            Some(f) => if violates_constraint(f) {
                error == DbError::ConstraintViolation(f.message)
            } else {
                error == DbError::QueryFailed(text)
            },
            None => error == DbError::QueryFailed(text),
        },
{
    if let Some(failure) = failure {
        if let Some(code) = &failure.code {
            let code = code.as_str();
            if same_text(code, "23514") || same_text(code, "23505") || same_text(code, "P0001") {
                return DbError::ConstraintViolation(failure.message);
            }
        }
    }
    DbError::QueryFailed(text)
}

/// How far an incident is on its way to the chain.
#[derive(Clone, Copy, Debug, PartialEq, Eq, Structural)]
pub enum AttestationStatus {
    Pending,
    Minted,
    Failed,
    Disputed,
}

/// The complaint about a name that a database column should not hold.
pub open spec fn unrecognized(column: Seq<char>, name: Seq<char>) -> Seq<char> {
    "unrecognized "@ + column + " '"@ + name + "' — schema/enum drift"@
}

fn unrecognized_text(column: &str, name: &str) -> (text: String)
    ensures
        text@ == unrecognized(column@, name@),
{
    let start = join3("unrecognized ", column, " '");
    join3(start.as_str(), name, "' — schema/enum drift")
}

impl AttestationStatus {
    /// The name of the status in the database.
    pub open spec fn spec_db_str(self) -> Seq<char> {
        match self {
            AttestationStatus::Pending => "pending"@,
            AttestationStatus::Minted => "minted"@,
            AttestationStatus::Failed => "failed"@,
            AttestationStatus::Disputed => "disputed"@,
        }
    }

    /// The status that a name in the database stands for.
    pub open spec fn named(name: Seq<char>) -> Option<AttestationStatus> {
        if name == "pending"@ {
            Some(AttestationStatus::Pending)
        } else if name == "minted"@ {
            Some(AttestationStatus::Minted)
        } else if name == "failed"@ {
            Some(AttestationStatus::Failed)
        } else if name == "disputed"@ {
            Some(AttestationStatus::Disputed)
        } else {
            None
        }
    }

    /// The name of the status in the database.
    pub fn as_db_str(&self) -> (name: &'static str)
        ensures
            name@ == self.spec_db_str(),
    {
        match self {
            AttestationStatus::Pending => "pending",
            AttestationStatus::Minted => "minted",
            AttestationStatus::Failed => "failed",
            AttestationStatus::Disputed => "disputed",
        }
    }

    /// The status that a database name stands for. A name that stands for none is an error, never
    /// a default.
    pub fn from_db_str(s: &str) -> (parsed: Result<AttestationStatus, DbError>)
        ensures
            match parsed {
                Ok(status) => AttestationStatus::named(s@) == Some(status),
                Err(e) => AttestationStatus::named(s@) is None && e.is_query_failure(
                    unrecognized("attestation_status"@, s@),
                ),
            },
    {
        if same_text(s, "pending") {
            Ok(AttestationStatus::Pending)
        } else if same_text(s, "minted") {
            Ok(AttestationStatus::Minted)
        } else if same_text(s, "failed") {
            Ok(AttestationStatus::Failed)
        } else if same_text(s, "disputed") {
            Ok(AttestationStatus::Disputed)
        } else {
            Err(DbError::QueryFailed(unrecognized_text("attestation_status", s)))
        }
    }
}

/// The rule that a name in the database stands for.
pub open spec fn rule_named(name: Seq<char>) -> Option<RuleType> {
    if name == "ppe_missing"@ {
        Some(RuleType::PpeMissing)
    } else if name == "zone_breach"@ {
        Some(RuleType::ZoneBreach)
    } else {
        None
    }
}

/// The rule that a database name stands for.
pub fn rule_type_from_db_str(s: &str) -> (parsed: Result<RuleType, DbError>)
    ensures
        match parsed {
            Ok(rule) => rule_named(s@) == Some(rule),
            Err(e) => rule_named(s@) is None && e.is_query_failure(
                unrecognized("rule_triggered"@, s@),
            ),
        },
{
    if same_text(s, "ppe_missing") {
        Ok(RuleType::PpeMissing)
    } else if same_text(s, "zone_breach") {
        Ok(RuleType::ZoneBreach)
    } else {
        Err(DbError::QueryFailed(unrecognized_text("rule_triggered", s)))
    }
}

/// The columns of an incident row as they were read, each with the text of what went wrong where
/// it could not be.
pub struct IncidentColumns {
    pub id: Result<Uuid, String>,
    pub site_id: Result<Uuid, String>,
    pub worker_id: Result<Option<Uuid>, String>,
    pub rule_triggered: Result<String, String>,
    pub confidence_bp: Result<i32, String>,
    pub detected_at: Result<Timestamp, String>,
    pub attestation_status: Result<String, String>,
    pub attestation_tx_hash: Result<Option<String>, String>,
}

/// An incident as it is stored.
#[derive(Debug, Clone)]
pub struct IncidentRow {
    pub id: Uuid,
    pub site_id: Uuid,
    pub worker_id: Option<Uuid>,
    pub rule_triggered: RuleType,
    pub confidence_bp: i32,
    pub detected_at: Timestamp,
    pub attestation_status: AttestationStatus,
    pub attestation_tx_hash: Option<String>,
}

/// The detail of the first fault of a row, column by column: a column that could not be read, or
/// a name that stands for no rule or status.
pub open spec fn first_fault(columns: IncidentColumns) -> Option<Seq<char>> {
    if columns.id is Err {
        Some(columns.id->Err_0@)
    } else if columns.site_id is Err {
        Some(columns.site_id->Err_0@)
    } else if columns.worker_id is Err {
        Some(columns.worker_id->Err_0@)
    } else if columns.rule_triggered is Err {
        Some(columns.rule_triggered->Err_0@)
    } else if rule_named(columns.rule_triggered->Ok_0@) is None {
        Some(unrecognized("rule_triggered"@, columns.rule_triggered->Ok_0@))
    } else if columns.confidence_bp is Err {
        Some(columns.confidence_bp->Err_0@)
    } else if columns.detected_at is Err {
        Some(columns.detected_at->Err_0@)
    } else if columns.attestation_status is Err {
        Some(columns.attestation_status->Err_0@)
    } else if AttestationStatus::named(columns.attestation_status->Ok_0@) is None {
        Some(unrecognized("attestation_status"@, columns.attestation_status->Ok_0@))
    } else if columns.attestation_tx_hash is Err {
        Some(columns.attestation_tx_hash->Err_0@)
    } else {
        None
    }
}

/// Whether `row` is what the columns say.
pub open spec fn reads_as(columns: IncidentColumns, row: IncidentRow) -> bool {
    &&& columns.id == Ok::<Uuid, String>(row.id)
    &&& columns.site_id == Ok::<Uuid, String>(row.site_id)
    &&& columns.worker_id == Ok::<Option<Uuid>, String>(row.worker_id)
    &&& columns.rule_triggered matches Ok(name) && rule_named(name@) == Some(row.rule_triggered)
    &&& columns.confidence_bp == Ok::<i32, String>(row.confidence_bp)
    &&& columns.detected_at == Ok::<Timestamp, String>(row.detected_at)
    &&& columns.attestation_status matches Ok(name) && AttestationStatus::named(name@) == Some(
        row.attestation_status,
    )
    &&& columns.attestation_tx_hash == Ok::<Option<String>, String>(row.attestation_tx_hash)
}

/// The value of a column, or a failed query with the text of what went wrong.
fn column<T>(read: Result<T, String>) -> (value: Result<T, DbError>)
    ensures
        value == (match read {
            Ok(v) => Ok::<T, DbError>(v),
            Err(e) => Err::<T, DbError>(DbError::QueryFailed(e)),
        }),
{
    match read {
        Ok(v) => Ok(v),
        Err(e) => Err(DbError::QueryFailed(e)),
    }
}

/// The incident that a row holds, or its first fault.
pub fn row_to_incident(columns: IncidentColumns) -> (result: Result<IncidentRow, DbError>)
    ensures
        match result {
            Ok(row) => first_fault(columns) is None && reads_as(columns, row),
            Err(e) => first_fault(columns) matches Some(detail) && e.is_query_failure(detail),
        },
{
    let id = column(columns.id)?;
    let site_id = column(columns.site_id)?;
    let worker_id = column(columns.worker_id)?;
    let rule_name = column(columns.rule_triggered)?;
    let rule_triggered = rule_type_from_db_str(rule_name.as_str())?;
    let confidence_bp: i32 = column(columns.confidence_bp)?;
    let detected_at = column(columns.detected_at)?;
    let status_name = column(columns.attestation_status)?;
    let attestation_status = AttestationStatus::from_db_str(status_name.as_str())?;
    let attestation_tx_hash = column(columns.attestation_tx_hash)?;
    Ok(
        IncidentRow {
            id,
            site_id,
            worker_id,
            rule_triggered,
            confidence_bp,
            detected_at,
            attestation_status,
            attestation_tx_hash,
        },
    )
}

/// Whether row `i` is the first with a fault.
pub open spec fn first_faulty(rows: Seq<IncidentColumns>, i: int) -> bool {
    &&& 0 <= i < rows.len()
    &&& first_fault(rows[i]) is Some
    &&& forall|j: int| 0 <= j < i ==> first_fault(#[trigger] rows[j]) is None
}

/// The incidents that rows hold, in order, or the fault of the first row that has one.
pub fn rows_to_incidents(rows: Vec<IncidentColumns>) -> (result: Result<Vec<IncidentRow>, DbError>)
    ensures
        match result {
            Ok(incidents) => {
                &&& incidents@.len() == rows@.len()
                &&& forall|i: int|
                    0 <= i < rows@.len() ==> first_fault(rows@[i]) is None && reads_as(
                        #[trigger] rows@[i],
                        incidents@[i],
                    )
            },
            Err(e) => exists|i: int| #[trigger]
                first_faulty(rows@, i) && e.is_query_failure(first_fault(rows@[i])->0),
        },
{
    let ghost all = rows@;
    let mut incidents: Vec<IncidentRow> = Vec::new();
    for columns in it: rows
        invariant
            it.seq() == all,
            incidents@.len() == it.index(),
            forall|i: int|
                0 <= i < it.index() ==> first_fault(all[i]) is None && reads_as(
                    #[trigger] all[i],
                    incidents@[i],
                ),
    {
        match row_to_incident(columns) {
            Ok(row) => {
                incidents.push(row);
            },
            Err(e) => {
                assert(first_faulty(all, it.index() as int));
                return Err(e);
            },
        }
    }
    Ok(incidents)
}

/// The incident of the row that a query by id found, or `NotFound` where it found none.
pub fn found_incident(row: Option<IncidentColumns>) -> (result: Result<IncidentRow, DbError>)
    ensures
        match row {
            None => result matches Err(DbError::NotFound),
            Some(columns) => match result {
                Ok(incident) => first_fault(columns) is None && reads_as(columns, incident),
                Err(e) => first_fault(columns) matches Some(detail) && e.is_query_failure(detail),
            },
        },
{
    match row {
        None => Err(DbError::NotFound),
        Some(columns) => row_to_incident(columns),
    }
}

/// Whether a guarded update moved its row: it names one row by id, so it touches one or none.
pub fn row_moved(rows_affected: u64) -> (moved: bool)
    ensures
        moved == (rows_affected == 1),
{
    rows_affected == 1
}

/// The values of a new incident row. The database adds the id, and the status `pending`.
#[derive(Clone, Copy, Debug)]
pub struct NewIncident {
    pub site_id: Uuid,
    pub worker_id: Option<Uuid>,
    pub rule_triggered: &'static str,
    pub confidence_bp: i32,
    pub detected_at: Timestamp,
}

/// Whether row values store a candidate.
pub open spec fn stores(row: NewIncident, candidate: IncidentCandidate) -> bool {
    &&& row.site_id == candidate.site_id
    &&& row.worker_id == candidate.worker_id
    &&& row.rule_triggered@ == candidate.rule_triggered.spec_db_str()
    &&& row.confidence_bp == candidate.confidence_bp
    &&& row.detected_at == candidate.detected_at
}

/// The row values that store a candidate.
pub fn new_incident(candidate: &IncidentCandidate) -> (row: NewIncident)
    ensures
        stores(row, *candidate),
{
    NewIncident {
        site_id: candidate.site_id,
        worker_id: candidate.worker_id,
        rule_triggered: candidate.rule_triggered.as_db_str(),
        confidence_bp: candidate.confidence_bp as i32,
        detected_at: candidate.detected_at,
    }
}

/// The database names of statuses stand for the statuses that they name, and for no other.
pub proof fn law_status_names_round_trip(status: AttestationStatus, other: AttestationStatus)
    ensures
        AttestationStatus::named(status.spec_db_str()) == Some(status),
        status.spec_db_str() == other.spec_db_str() ==> status == other,
{
    reveal_strlit("pending");
    reveal_strlit("minted");
    reveal_strlit("failed");
    reveal_strlit("disputed");
    assert("pending"@.len() == 7 && "minted"@.len() == 6 && "failed"@.len() == 6
        && "disputed"@.len() == 8);
    assert("minted"@[0] != "failed"@[0]);
}

/// A name is recognized as a status only where it is the database name of that status.
pub proof fn law_only_status_names_are_recognized(name: Seq<char>)
    ensures
        AttestationStatus::named(name) matches Some(status) ==> status.spec_db_str() == name,
{
}

/// The database names of rules stand for the rules that they name, and for no other.
pub proof fn law_rule_names_round_trip(rule: RuleType, other: RuleType)
    ensures
        rule_named(rule.spec_db_str()) == Some(rule),
        rule.spec_db_str() == other.spec_db_str() ==> rule == other,
{
    reveal_strlit("ppe_missing");
    reveal_strlit("zone_breach");
    assert("ppe_missing"@[0] != "zone_breach"@[0]);
}

/// A name is recognized as a rule only where it is the database name of that rule.
pub proof fn law_only_rule_names_are_recognized(name: Seq<char>)
    ensures
        rule_named(name) matches Some(rule) ==> rule.spec_db_str() == name,
{
}

/// A stored candidate reads back as it was: a row whose columns hold the values that the
/// candidate was stored with is an incident of the same site, worker, rule, confidence and time.
pub proof fn law_stored_candidate_reads_back(
    candidate: IncidentCandidate,
    stored: NewIncident,
    columns: IncidentColumns,
    row: IncidentRow,
)
    requires
        stores(stored, candidate),
        columns.site_id == Ok::<Uuid, String>(stored.site_id),
        columns.worker_id == Ok::<Option<Uuid>, String>(stored.worker_id),
        columns.rule_triggered matches Ok(name) && name@ == stored.rule_triggered@,
        columns.confidence_bp == Ok::<i32, String>(stored.confidence_bp),
        columns.detected_at == Ok::<Timestamp, String>(stored.detected_at),
        reads_as(columns, row),
    ensures
        row.site_id == candidate.site_id,
        row.worker_id == candidate.worker_id,
        row.rule_triggered == candidate.rule_triggered,
        row.confidence_bp == candidate.confidence_bp,
        row.detected_at == candidate.detected_at,
{
    law_rule_names_round_trip(candidate.rule_triggered, row.rule_triggered);
}

} // verus!
