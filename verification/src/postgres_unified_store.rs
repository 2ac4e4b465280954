//! The PostgreSQL-backed unified fenced store, apart from its connection: the
//! store's configuration and statements, how rows and record replacements are
//! checked against database time, what each step of a compare-and-swap
//! transaction decides, and how a lost commit acknowledgement is resolved.
use vstd::prelude::*;
use vstd::string::StrSliceExecFns;
use vstd::string::StringExecFns;

use crate::codec::texts_of;
use crate::execution_receipt::ActionId;
use crate::postgres_resilience::{
    PostgresCommitResolution, PostgresFailureDisposition, PostgresTransactionRetryPolicy,
};
use crate::primitives::Timestamp;
use crate::text::{blank, same_text};
use crate::unified_fenced_store::{
    permits_match, same_effect_evidence, same_permit, UnifiedActionRecord, UnifiedEffectEvidence,
    UnifiedFencedBlock, UnifiedLeaseAuthority, UnifiedOperationBinding, UnifiedPreparedAttempt,
    UnifiedProjectionMarker,
};
use crate::unified_record_format::{
    attempt_fields, attempt_matches, bind_fields, decode_record, encode_record, evidence_fields,
    evidence_matches, kind_indices, lease_fields, lease_lines,
    lemma_attempt_line, lemma_bind_line, lemma_evidence_line, lemma_lease_line,
    lemma_projection_line, lemma_read_revision, lemma_record_fields_shape, lemma_record_text_reads,
    line_fields, lines_read, payload_lines, projection_fields, projection_matches, read_revision,
    identities_named, record_error, record_text, storable_attempt, storable_record,
};

verus! {

/// Why the PostgreSQL store refused or failed an operation.
#[derive(Debug, Clone, PartialEq, Eq)]
pub enum PostgresUnifiedStoreError {
    Postgres(String),
    InvalidTableName,
    InvalidRecord,
    InvalidNumber,
    InvalidHex,
    InvalidUtf8,
    InvalidActionId,
    InvalidWorkerId,
    RevisionOutOfRange,
    InvalidTransition,
    DatabaseLeaseExpired { epoch: u64 },
    DatabaseLeaseNotExpired { epoch: u64 },
    TransactionRetryExhausted { attempts: u32, last_error: String },
    CommitOutcomeUnknown {
        expected_revision: Option<u64>,
        observed_revision: Option<u64>,
        last_error: String,
    },
}


/// Two texts lists hold the same texts.
fn same_texts(a: &Vec<String>, b: &Vec<String>) -> (r: bool)
    ensures
        r == (texts_of(a@) == texts_of(b@)),
{
    if a.len() != b.len() {
        assert(texts_of(a@).len() != texts_of(b@).len());
        return false;
    }
    let mut i: usize = 0;
    while i < a.len()
        invariant
            a@.len() == b@.len(),
            i <= a@.len(),
            forall|j: int| 0 <= j < i ==> a@[j]@ == b@[j]@,
        decreases a@.len() - i,
    {
        if !same_text(&a[i], &b[i]) {
            assert(texts_of(a@)[i as int] != texts_of(b@)[i as int]);
            return false;
        }
        i = i + 1;
    }
    assert(texts_of(a@) =~= texts_of(b@));
    true
}

/// Two bindings name the same action, key and operation.
pub open spec fn same_binding(a: UnifiedOperationBinding, b: UnifiedOperationBinding) -> bool {
    a.action_id@ == b.action_id@ && a.idempotency_key@ == b.idempotency_key@ && a.operation_ref@
        == b.operation_ref@
}

/// Two leases agree in owner, epoch, revision and expiry.
pub open spec fn same_lease(a: UnifiedLeaseAuthority, b: UnifiedLeaseAuthority) -> bool {
    a.owner@ == b.owner@ && a.epoch == b.epoch && a.revision == b.revision && a.expires_at == b.expires_at
}

/// Two optional leases are both absent or agree.
pub open spec fn same_optional_lease(a: Option<UnifiedLeaseAuthority>, b: Option<UnifiedLeaseAuthority>) -> bool {
    match (a, b) {
        (None, None) => true,
        (Some(x), Some(y)) => same_lease(x, y),
        _ => false,
    }
}

/// Two attempts agree in permit, time, proofs and dispatch.
pub open spec fn same_attempt(a: UnifiedPreparedAttempt, b: UnifiedPreparedAttempt) -> bool {
    &&& same_permit(a.permit, b.permit)
    &&& a.prepared_at == b.prepared_at
    &&& texts_of(a.authorization_proof_refs@) == texts_of(b.authorization_proof_refs@)
    &&& match (a.dispatch, b.dispatch) {
        (None, None) => true,
        (Some(x), Some(y)) => x.dispatched_at == y.dispatched_at && x.proof_ref@ == y.proof_ref@,
        _ => false,
    }
}

/// Two projection markers agree in every field.
pub open spec fn same_projection(a: UnifiedProjectionMarker, b: UnifiedProjectionMarker) -> bool {
    a.attempt_ordinal == b.attempt_ordinal && a.proof_ref@ == b.proof_ref@ && a.projected_at
        == b.projected_at
}

pub open spec fn same_attempts(a: Seq<UnifiedPreparedAttempt>, b: Seq<UnifiedPreparedAttempt>) -> bool {
    a.len() == b.len() && forall|i: int| 0 <= i < a.len() ==> #[trigger] same_attempt(a[i], b[i])
}

pub open spec fn same_evidence_list(a: Seq<UnifiedEffectEvidence>, b: Seq<UnifiedEffectEvidence>) -> bool {
    a.len() == b.len() && forall|i: int| 0 <= i < a.len() ==> #[trigger] same_effect_evidence(a[i], b[i])
}

pub open spec fn same_projections(a: Seq<UnifiedProjectionMarker>, b: Seq<UnifiedProjectionMarker>) -> bool {
    a.len() == b.len() && forall|i: int| 0 <= i < a.len() ==> #[trigger] same_projection(a[i], b[i])
}

/// Two records hold the same identity, revision, lease, attempts, evidence
/// and projections, compared by content.
pub open spec fn same_content(a: UnifiedActionRecord, b: UnifiedActionRecord) -> bool {
    &&& same_binding(a.binding, b.binding)
    &&& a.revision == b.revision
    &&& same_optional_lease(a.lease, b.lease)
    &&& same_attempts(a.attempts@, b.attempts@)
    &&& same_evidence_list(a.evidence@, b.evidence@)
    &&& same_projections(a.projections@, b.projections@)
}

fn bindings_match(a: &UnifiedOperationBinding, b: &UnifiedOperationBinding) -> (r: bool)
    ensures
        r == same_binding(*a, *b),
{
    a.action_id == b.action_id && same_text(&a.idempotency_key, &b.idempotency_key) && same_text(
        &a.operation_ref,
        &b.operation_ref,
    )
}

fn leases_match(a: &Option<UnifiedLeaseAuthority>, b: &Option<UnifiedLeaseAuthority>) -> (r: bool)
    ensures
        r == same_optional_lease(*a, *b),
{
    match (a, b) {
        (None, None) => true,
        (Some(x), Some(y)) => x.owner == y.owner && x.epoch == y.epoch && x.revision == y.revision
            && x.expires_at == y.expires_at,
        _ => false,
    }
}

fn attempt_same(a: &UnifiedPreparedAttempt, b: &UnifiedPreparedAttempt) -> (r: bool)
    ensures
        r == same_attempt(*a, *b),
{
    permits_match(&a.permit, &b.permit) && a.prepared_at == b.prepared_at && same_texts(
        &a.authorization_proof_refs,
        &b.authorization_proof_refs,
    ) && match (&a.dispatch, &b.dispatch) {
        (None, None) => true,
        (Some(x), Some(y)) => x.dispatched_at == y.dispatched_at && same_text(&x.proof_ref, &y.proof_ref),
        _ => false,
    }
}

fn attempts_match(a: &Vec<UnifiedPreparedAttempt>, b: &Vec<UnifiedPreparedAttempt>) -> (r: bool)
    ensures
        r == same_attempts(a@, b@),
{
    if a.len() != b.len() {
        return false;
    }
    let mut i: usize = 0;
    while i < a.len()
        invariant
            a@.len() == b@.len(),
            i <= a@.len(),
            forall|j: int| 0 <= j < i ==> #[trigger] same_attempt(a@[j], b@[j]),
        decreases a@.len() - i,
    {
        if !attempt_same(&a[i], &b[i]) {
            return false;
        }
        i = i + 1;
    }
    true
}

fn evidence_lists_match(a: &Vec<UnifiedEffectEvidence>, b: &Vec<UnifiedEffectEvidence>) -> (r: bool)
    ensures
        r == same_evidence_list(a@, b@),
{
    if a.len() != b.len() {
        return false;
    }
    let mut i: usize = 0;
    while i < a.len()
        invariant
            a@.len() == b@.len(),
            i <= a@.len(),
            forall|j: int| 0 <= j < i ==> #[trigger] same_effect_evidence(a@[j], b@[j]),
        decreases a@.len() - i,
    {
        if !crate::unified_fenced_store::evidence_matches(&a[i], &b[i]) {
            return false;
        }
        i = i + 1;
    }
    true
}

fn projections_match(a: &Vec<UnifiedProjectionMarker>, b: &Vec<UnifiedProjectionMarker>) -> (r: bool)
    ensures
        r == same_projections(a@, b@),
{
    if a.len() != b.len() {
        return false;
    }
    let mut i: usize = 0;
    while i < a.len()
        invariant
            a@.len() == b@.len(),
            i <= a@.len(),
            forall|j: int| 0 <= j < i ==> #[trigger] same_projection(a@[j], b@[j]),
        decreases a@.len() - i,
    {
        let x = &a[i];
        let y = &b[i];
        if !(x.attempt_ordinal == y.attempt_ordinal && same_text(&x.proof_ref, &y.proof_ref)
            && x.projected_at == y.projected_at) {
            assert(!same_projection(a@[i as int], b@[i as int]));
            return false;
        }
        i = i + 1;
    }
    true
}

/// Compares two records by content.
pub fn records_match(a: &UnifiedActionRecord, b: &UnifiedActionRecord) -> (r: bool)
    ensures
        r == same_content(*a, *b),
{
    bindings_match(&a.binding, &b.binding) && a.revision == b.revision && leases_match(&a.lease, &b.lease)
        && attempts_match(&a.attempts, &b.attempts) && evidence_lists_match(&a.evidence, &b.evidence)
        && projections_match(&a.projections, &b.projections)
}

/// The revision after `revision`, saturating at the largest revision.
pub open spec fn next_revision(revision: u64) -> u64 {
    if revision < u64::MAX {
        (revision + 1) as u64
    } else {
        u64::MAX
    }
}

/// Whether a lease may move from `current` to `replacement` at database time
/// `now`: a first acquisition starts at epoch 1, revision 0; a renewal by the
/// same owner at the same epoch advances the revision before expiry; a
/// takeover advances the epoch by one after expiry, at revision 0. The new
/// lease must outlive `now`.
pub open spec fn lease_transition(
    current: Option<UnifiedLeaseAuthority>,
    replacement: Option<UnifiedLeaseAuthority>,
    now: int,
) -> Result<(), PostgresUnifiedStoreError> {
    match (current, replacement) {
        (None, Some(next)) => if next.epoch != 1 || next.revision != 0 {
            Err(PostgresUnifiedStoreError::InvalidTransition)
        } else if next.expires_at@ <= now {
            Err(PostgresUnifiedStoreError::DatabaseLeaseExpired { epoch: next.epoch })
        } else {
            Ok(())
        },
        (Some(old), Some(next)) => if old.epoch == next.epoch {
            if old.owner@ != next.owner@ || next.revision != next_revision(old.revision) {
                Err(PostgresUnifiedStoreError::InvalidTransition)
            } else if old.expires_at@ <= now {
                Err(PostgresUnifiedStoreError::DatabaseLeaseExpired { epoch: old.epoch })
            } else if next.expires_at@ <= now {
                Err(PostgresUnifiedStoreError::InvalidTransition)
            } else {
                Ok(())
            }
        } else if next.epoch == next_revision(old.epoch) {
            if old.expires_at@ > now {
                Err(PostgresUnifiedStoreError::DatabaseLeaseNotExpired { epoch: old.epoch })
            } else if next.revision != 0 {
                Err(PostgresUnifiedStoreError::InvalidTransition)
            } else if next.expires_at@ <= now {
                Err(PostgresUnifiedStoreError::DatabaseLeaseExpired { epoch: next.epoch })
            } else {
                Ok(())
            }
        } else {
            Err(PostgresUnifiedStoreError::InvalidTransition)
        },
        _ => Err(PostgresUnifiedStoreError::InvalidTransition),
    }
}

/// Whether `replacement` may succeed `current` at database time `now`: it
/// keeps the identity, advances the revision by one, and changes either the
/// lease alone (as `lease_transition` allows), or the attempts alone under a
/// lease that has not expired, or only evidence and projections.
pub open spec fn database_transition(
    current: UnifiedActionRecord,
    replacement: UnifiedActionRecord,
    now: int,
) -> Result<(), PostgresUnifiedStoreError> {
    if !same_binding(current.binding, replacement.binding) || replacement.revision != next_revision(
        current.revision,
    ) {
        Err(PostgresUnifiedStoreError::InvalidTransition)
    } else {
        let lease_changed = !same_optional_lease(current.lease, replacement.lease);
        let attempts_changed = !same_attempts(current.attempts@, replacement.attempts@);
        let evidence_changed = !same_evidence_list(current.evidence@, replacement.evidence@);
        let projections_changed = !same_projections(current.projections@, replacement.projections@);
        if lease_changed {
            if attempts_changed || evidence_changed || projections_changed {
                Err(PostgresUnifiedStoreError::InvalidTransition)
            } else {
                lease_transition(current.lease, replacement.lease, now)
            }
        } else if attempts_changed {
            if evidence_changed || projections_changed {
                Err(PostgresUnifiedStoreError::InvalidTransition)
            } else {
                match current.lease {
                    None => Err(PostgresUnifiedStoreError::InvalidTransition),
                    Some(lease) => if lease.expires_at@ <= now {
                        Err(PostgresUnifiedStoreError::DatabaseLeaseExpired { epoch: lease.epoch })
                    } else {
                        Ok(())
                    },
                }
            }
        } else if evidence_changed || projections_changed {
            Ok(())
        } else {
            Err(PostgresUnifiedStoreError::InvalidTransition)
        }
    }
}

/// Checks a lease change against database time.
pub fn validate_lease_transition(
    current: Option<&UnifiedLeaseAuthority>,
    replacement: Option<&UnifiedLeaseAuthority>,
    db_now: Timestamp,
) -> (r: Result<(), PostgresUnifiedStoreError>)
    ensures
        r == lease_transition(
            match current {
                Some(l) => Some(*l),
                None => None,
            },
            match replacement {
                Some(l) => Some(*l),
                None => None,
            },
            db_now@,
        ),
{
    match (current, replacement) {
        (None, Some(next)) => {
            if next.epoch != 1 || next.revision != 0 {
                return Err(PostgresUnifiedStoreError::InvalidTransition);
            }
            if next.expires_at.epoch_seconds() <= db_now.epoch_seconds() {
                return Err(PostgresUnifiedStoreError::DatabaseLeaseExpired { epoch: next.epoch });
            }
            Ok(())
        },
        (Some(old), Some(next)) => {
            if old.epoch == next.epoch {
                if old.owner != next.owner || next.revision != old.revision.saturating_add(1) {
                    return Err(PostgresUnifiedStoreError::InvalidTransition);
                }
                if old.expires_at.epoch_seconds() <= db_now.epoch_seconds() {
                    return Err(PostgresUnifiedStoreError::DatabaseLeaseExpired { epoch: old.epoch });
                }
                if next.expires_at.epoch_seconds() <= db_now.epoch_seconds() {
                    return Err(PostgresUnifiedStoreError::InvalidTransition);
                }
                Ok(())
            } else if next.epoch == old.epoch.saturating_add(1) {
                if old.expires_at.epoch_seconds() > db_now.epoch_seconds() {
                    return Err(PostgresUnifiedStoreError::DatabaseLeaseNotExpired { epoch: old.epoch });
                }
                if next.revision != 0 {
                    return Err(PostgresUnifiedStoreError::InvalidTransition);
                }
                if next.expires_at.epoch_seconds() <= db_now.epoch_seconds() {
                    return Err(PostgresUnifiedStoreError::DatabaseLeaseExpired { epoch: next.epoch });
                }
                Ok(())
            } else {
                Err(PostgresUnifiedStoreError::InvalidTransition)
            }
        },
        _ => Err(PostgresUnifiedStoreError::InvalidTransition),
    }
}

/// Checks a whole-record replacement against database time.
pub fn validate_database_transition(
    current: &UnifiedActionRecord,
    replacement: &UnifiedActionRecord,
    db_now: Timestamp,
) -> (r: Result<(), PostgresUnifiedStoreError>)
    ensures
        r == database_transition(*current, *replacement, db_now@),
{
    if !bindings_match(&current.binding, &replacement.binding) || replacement.revision
        != current.revision.saturating_add(1) {
        return Err(PostgresUnifiedStoreError::InvalidTransition);
    }
    let lease_changed = !leases_match(&current.lease, &replacement.lease);
    let attempts_changed = !attempts_match(&current.attempts, &replacement.attempts);
    let evidence_changed = !evidence_lists_match(&current.evidence, &replacement.evidence);
    let projections_changed = !projections_match(&current.projections, &replacement.projections);
    if lease_changed {
        if attempts_changed || evidence_changed || projections_changed {
            return Err(PostgresUnifiedStoreError::InvalidTransition);
        }
        return validate_lease_transition(current.lease.as_ref(), replacement.lease.as_ref(), db_now);
    }
    if attempts_changed {
        if evidence_changed || projections_changed {
            return Err(PostgresUnifiedStoreError::InvalidTransition);
        }
        return match &current.lease {
            None => Err(PostgresUnifiedStoreError::InvalidTransition),
            Some(lease) => {
                if lease.expires_at.epoch_seconds() <= db_now.epoch_seconds() {
                    Err(PostgresUnifiedStoreError::DatabaseLeaseExpired { epoch: lease.epoch })
                } else {
                    Ok(())
                }
            },
        };
    }
    if evidence_changed || projections_changed {
        return Ok(());
    }
    Err(PostgresUnifiedStoreError::InvalidTransition)
}

/// A table name the store accepts: a letter or underscore, then letters,
/// digits and underscores.
pub open spec fn valid_identifier(s: Seq<char>) -> bool {
    &&& s.len() >= 1
    &&& (s[0] == '_' || ('a' <= s[0] <= 'z') || ('A' <= s[0] <= 'Z'))
    &&& forall|i: int|
        1 <= i < s.len() ==> (#[trigger] s[i] == '_' || ('a' <= s[i] <= 'z') || ('A' <= s[i] <= 'Z')
            || ('0' <= s[i] <= '9'))
}

/// Checks a table name.
pub fn validate_identifier(value: &str) -> (r: Result<(), PostgresUnifiedStoreError>)
    ensures
        r is Ok <==> valid_identifier(value@),
        r is Err ==> r == Err::<(), PostgresUnifiedStoreError>(PostgresUnifiedStoreError::InvalidTableName),
{
    let n = value.unicode_len();
    if n == 0 {
        return Err(PostgresUnifiedStoreError::InvalidTableName);
    }
    let first = value.get_char(0);
    if !(first == '_' || ('a' <= first && first <= 'z') || ('A' <= first && first <= 'Z')) {
        return Err(PostgresUnifiedStoreError::InvalidTableName);
    }
    let mut i: usize = 1;
    while i < n
        invariant
            n == value@.len(),
            1 <= i <= n,
            forall|j: int|
                1 <= j < i ==> (#[trigger] value@[j] == '_' || ('a' <= value@[j] <= 'z') || ('A'
                    <= value@[j] <= 'Z') || ('0' <= value@[j] <= '9')),
        decreases n - i,
    {
        let c = value.get_char(i);
        if !(c == '_' || ('a' <= c && c <= 'z') || ('A' <= c && c <= 'Z') || ('0' <= c && c <= '9')) {
            return Err(PostgresUnifiedStoreError::InvalidTableName);
        }
        i = i + 1;
    }
    Ok(())
}

/// A name in double quotes.
pub fn quoted_identifier(value: &str) -> (r: String)
    ensures
        r@ == "\""@ + value@ + "\""@,
{
    let mut r = String::from_str("\"");
    r.append(value);
    r.append("\"");
    r
}

/// A revision as the database's signed column holds it.
pub fn i64_revision(value: u64) -> (r: Result<i64, PostgresUnifiedStoreError>)
    ensures
        match r {
            Ok(v) => value <= i64::MAX && v == value,
            Err(e) => value > i64::MAX && e == PostgresUnifiedStoreError::RevisionOutOfRange,
        },
{
    if value > 0x7fff_ffff_ffff_ffff {
        Err(PostgresUnifiedStoreError::RevisionOutOfRange)
    } else {
        Ok(value as i64)
    }
}

/// Reads a row's revision column and payload into a record: the payload must
/// read and carry the row's revision.
pub fn check_row(db_revision: i64, payload: &str) -> (r: Result<UnifiedActionRecord, PostgresUnifiedStoreError>)
    ensures
        match r {
            Ok(record) => record_error(payload_lines(payload@)) is None && lines_read(
                payload_lines(payload@),
                payload_lines(payload@).len() as int,
                record,
            ) && record.revision == db_revision,
            Err(e) => record_error(payload_lines(payload@)) == Some(e) || (record_error(
                payload_lines(payload@),
            ) is None && e == PostgresUnifiedStoreError::InvalidRecord && read_revision(
                payload_lines(payload@),
            ) != db_revision),
        },
{
    let record = decode_record(payload)?;
    proof {
        lemma_read_revision(payload_lines(payload@), record);
    }
    if db_revision < 0 || record.revision != db_revision as u64 {
        return Err(PostgresUnifiedStoreError::InvalidRecord);
    }
    Ok(record)
}

/// PostgreSQL implementation of the unified fenced store: where it connects,
/// the table it keeps records in and how often a transaction is retried.
///
/// Every compare-and-swap opens a PostgreSQL transaction, locks the action row
/// with `SELECT ... FOR UPDATE`, reads `clock_timestamp()` inside that
/// transaction, validates the control transition against database time, and
/// commits the whole replacement record in one update. No process-local mutex
/// participates in the multi-worker safety contract.
#[derive(Debug, Clone)]
pub struct PostgresUnifiedFencedStore {
    connection_string: String,
    table: String,
    retry_policy: PostgresTransactionRetryPolicy,
}

impl View for PostgresUnifiedFencedStore {
    type V = (Seq<char>, Seq<char>, u32);

    /// The connection string, the table name and the transaction attempts.
    closed spec fn view(&self) -> (Seq<char>, Seq<char>, u32) {
        (self.connection_string@, self.table@, self.retry_policy.max_attempts)
    }
}

/// The table the store uses unless told otherwise.
pub open spec fn default_table() -> Seq<char> {
    "lifetra_unified_actions"@
}

impl PostgresUnifiedFencedStore {
    /// A store on the default table with the default retry policy.
    pub fn new(connection_string: &str) -> (s: Self)
        ensures
            s@ == (connection_string@, default_table(), 3u32),
    {
        PostgresUnifiedFencedStore {
            connection_string: connection_string.to_owned(),
            table: String::from_str("lifetra_unified_actions"),
            retry_policy: PostgresTransactionRetryPolicy::default(),
        }
    }

    /// A store on a table of the caller's choice, if its name is a plain
    /// identifier.
    pub fn with_table(connection_string: &str, table: &str) -> (r: Result<Self, PostgresUnifiedStoreError>)
        ensures
            match r {
                Ok(s) => valid_identifier(table@) && s@ == (connection_string@, table@, 3u32),
                Err(e) => !valid_identifier(table@) && e == PostgresUnifiedStoreError::InvalidTableName,
            },
    {
        validate_identifier(table)?;
        Ok(
            PostgresUnifiedFencedStore {
                connection_string: connection_string.to_owned(),
                table: table.to_owned(),
                retry_policy: PostgresTransactionRetryPolicy::default(),
            },
        )
    }

    pub fn table(&self) -> (t: &str)
        ensures
            t@ == self@.1,
    {
        self.table.as_str()
    }

    pub fn connection_string(&self) -> (t: &str)
        ensures
            t@ == self@.0,
    {
        self.connection_string.as_str()
    }

    /// The same store with a retry policy of at least one attempt.
    pub fn with_retry_policy(self, policy: PostgresTransactionRetryPolicy) -> (s: Self)
        ensures
            s@ == (self@.0, self@.1, if policy.max_attempts == 0 {
                1u32
            } else {
                policy.max_attempts
            }),
    {
        PostgresUnifiedFencedStore { retry_policy: policy.normalized(), ..self }
    }

    pub fn retry_policy(&self) -> (p: PostgresTransactionRetryPolicy)
        ensures
            p.max_attempts == self@.2,
    {
        self.retry_policy
    }

    /// What a reload of the action after a lost commit acknowledgement shows:
    /// the replacement itself, the expected revision still in place, a
    /// competing write at the replacement's revision, or something else.
    pub fn resolve_commit_outcome(
        &self,
        expected_revision: Option<u64>,
        observed: Option<&UnifiedActionRecord>,
        replacement: &UnifiedActionRecord,
    ) -> (r: PostgresCommitResolution)
        ensures
            r == commit_resolution(
                expected_revision,
                match observed {
                    Some(record) => Some(*record),
                    None => None,
                },
                *replacement,
            ),
    {
        match observed {
            None => match expected_revision {
                None => PostgresCommitResolution::NotApplied,
                Some(_) => PostgresCommitResolution::Unknown { observed_revision: None },
            },
            Some(record) => {
                if records_match(record, replacement) {
                    PostgresCommitResolution::Applied
                } else {
                    match expected_revision {
                        None => PostgresCommitResolution::Contended,
                        Some(expected) => {
                            if record.revision == expected {
                                PostgresCommitResolution::NotApplied
                            } else if record.revision == replacement.revision {
                                PostgresCommitResolution::Contended
                            } else {
                                PostgresCommitResolution::Unknown {
                                    observed_revision: Some(record.revision),
                                }
                            }
                        },
                    }
                }
            },
        }
    }

    /// The statement that inserts a first record unless one exists.
    pub fn insert_statement(&self) -> (s: String)
        ensures
            s@ == "INSERT INTO "@ + quoted(self@.1)
                + " (action_id, revision, payload, updated_at) VALUES ($1, $2, $3, clock_timestamp()) ON CONFLICT (action_id) DO NOTHING"@,
    {
        statement(
            "INSERT INTO ",
            self.table.as_str(),
            " (action_id, revision, payload, updated_at) VALUES ($1, $2, $3, clock_timestamp()) ON CONFLICT (action_id) DO NOTHING",
        )
    }

    /// The statement that reads and locks an action's row.
    pub fn select_for_update_statement(&self) -> (s: String)
        ensures
            s@ == "SELECT revision, payload FROM "@ + quoted(self@.1)
                + " WHERE action_id = $1 FOR UPDATE"@,
    {
        statement("SELECT revision, payload FROM ", self.table.as_str(), " WHERE action_id = $1 FOR UPDATE")
    }

    /// The statement that replaces a record at its expected revision.
    pub fn update_statement(&self) -> (s: String)
        ensures
            s@ == "UPDATE "@ + quoted(self@.1)
                + " SET revision = $2, payload = $3, updated_at = clock_timestamp() WHERE action_id = $1 AND revision = $4"@,
    {
        statement(
            "UPDATE ",
            self.table.as_str(),
            " SET revision = $2, payload = $3, updated_at = clock_timestamp() WHERE action_id = $1 AND revision = $4",
        )
    }

    /// The statement that reads an action's row.
    pub fn select_statement(&self) -> (s: String)
        ensures
            s@ == "SELECT revision, payload FROM "@ + quoted(self@.1) + " WHERE action_id = $1"@,
    {
        statement("SELECT revision, payload FROM ", self.table.as_str(), " WHERE action_id = $1")
    }

    /// The statement that deletes an action's row.
    pub fn delete_statement(&self) -> (s: String)
        ensures
            s@ == "DELETE FROM "@ + quoted(self@.1) + " WHERE action_id = $1"@,
    {
        statement("DELETE FROM ", self.table.as_str(), " WHERE action_id = $1")
    }

    /// The statement that creates the table if it is missing.
    pub fn create_table_statement(&self) -> (s: String)
        ensures
            s@ == "CREATE TABLE IF NOT EXISTS "@ + quoted(self@.1)
                + " (action_id TEXT PRIMARY KEY,revision BIGINT NOT NULL CHECK (revision >= 0),payload TEXT NOT NULL,updated_at TIMESTAMPTZ NOT NULL DEFAULT clock_timestamp())"@,
    {
        statement(
            "CREATE TABLE IF NOT EXISTS ",
            self.table.as_str(),
            " (action_id TEXT PRIMARY KEY,revision BIGINT NOT NULL CHECK (revision >= 0),payload TEXT NOT NULL,updated_at TIMESTAMPTZ NOT NULL DEFAULT clock_timestamp())",
        )
    }
}

/// A name in double quotes.
pub open spec fn quoted(name: Seq<char>) -> Seq<char> {
    "\""@ + name + "\""@
}

fn statement(prefix: &str, table: &str, suffix: &str) -> (s: String)
    ensures
        s@ == prefix@ + quoted(table@) + suffix@,
{
    let mut s = String::from_str(prefix);
    s.append(quoted_identifier(table).as_str());
    s.append(suffix);
    s
}

/// What a reload after a lost commit acknowledgement resolves to.
pub open spec fn commit_resolution(
    expected: Option<u64>,
    observed: Option<UnifiedActionRecord>,
    replacement: UnifiedActionRecord,
) -> PostgresCommitResolution {
    match observed {
        None => match expected {
            None => PostgresCommitResolution::NotApplied,
            Some(_) => PostgresCommitResolution::Unknown { observed_revision: None },
        },
        Some(record) => if same_content(record, replacement) {
            PostgresCommitResolution::Applied
        } else {
            match expected {
                None => PostgresCommitResolution::Contended,
                Some(revision) => if record.revision == revision {
                    PostgresCommitResolution::NotApplied
                } else if record.revision == replacement.revision {
                    PostgresCommitResolution::Contended
                } else {
                    PostgresCommitResolution::Unknown { observed_revision: Some(record.revision) }
                },
            }
        },
    }
}

/// The revision and text a compare-and-swap writes.
#[derive(Debug)]
pub struct CasWrite {
    pub revision: i64,
    pub payload: String,
}

/// Checks a replacement before its transaction opens: it must belong to the
/// action and its revision must fit the database column. Gives the values to
/// write.
pub fn plan_compare_and_swap(action_id: &ActionId, replacement: &UnifiedActionRecord) -> (r: Result<
    CasWrite,
    PostgresUnifiedStoreError,
>)
    ensures
        match r {
            Ok(write) => replacement.binding.action_id@ == action_id@ && replacement.revision
                <= i64::MAX && write.revision == replacement.revision && write.payload@ == record_text(
                *replacement,
            ),
            Err(e) => if replacement.binding.action_id@ != action_id@ {
                e == PostgresUnifiedStoreError::InvalidTransition
            } else {
                replacement.revision > i64::MAX && e == PostgresUnifiedStoreError::RevisionOutOfRange
            },
        },
{
    if replacement.binding.action_id != *action_id {
        return Err(PostgresUnifiedStoreError::InvalidTransition);
    }
    let revision = i64_revision(replacement.revision)?;
    Ok(CasWrite { revision, payload: encode_record(replacement) })
}

/// A first record must start at revision 0.
pub fn check_insert(replacement: &UnifiedActionRecord) -> (r: Result<(), PostgresUnifiedStoreError>)
    ensures
        r is Ok <==> replacement.revision == 0,
        r is Err ==> r == Err::<(), PostgresUnifiedStoreError>(PostgresUnifiedStoreError::InvalidTransition),
{
    if replacement.revision != 0 {
        return Err(PostgresUnifiedStoreError::InvalidTransition);
    }
    Ok(())
}

/// Reads the locked row of a compare-and-swap at `expected`: no row, or a
/// record at another revision, means the swap does not apply (`None`).
pub fn check_locked_row(expected: u64, row: Option<(i64, &str)>) -> (r: Result<
    Option<UnifiedActionRecord>,
    PostgresUnifiedStoreError,
>)
    ensures
        match row {
            None => r == Ok::<Option<UnifiedActionRecord>, PostgresUnifiedStoreError>(None),
            Some((db_revision, payload)) => match r {
                Ok(None) => record_error(payload_lines(payload@)) is None && read_revision(
                    payload_lines(payload@),
                ) == db_revision && db_revision != expected,
                Ok(Some(current)) => record_error(payload_lines(payload@)) is None && lines_read(
                    payload_lines(payload@),
                    payload_lines(payload@).len() as int,
                    current,
                ) && current.revision == db_revision && current.revision == expected,
                Err(e) => record_error(payload_lines(payload@)) == Some(e) || (record_error(
                    payload_lines(payload@),
                ) is None && e == PostgresUnifiedStoreError::InvalidRecord && read_revision(
                    payload_lines(payload@),
                ) != db_revision),
            },
        },
{
    match row {
        None => Ok(None),
        Some((db_revision, payload)) => {
            let current = check_row(db_revision, payload)?;
            proof {
                lemma_read_revision(payload_lines(payload@), current);
            }
            if current.revision != expected {
                Ok(None)
            } else {
                Ok(Some(current))
            }
        },
    }
}

/// Checks the replacement of the locked record against database time and
/// gives the expected revision as the database's signed column holds it.
pub fn check_update(
    current: &UnifiedActionRecord,
    replacement: &UnifiedActionRecord,
    db_now: Timestamp,
    expected: u64,
) -> (r: Result<i64, PostgresUnifiedStoreError>)
    ensures
        match database_transition(*current, *replacement, db_now@) {
            Err(e) => r == Err::<i64, PostgresUnifiedStoreError>(e),
            Ok(_) => match r {
                Ok(v) => v == expected,
                Err(e) => expected > i64::MAX && e == PostgresUnifiedStoreError::RevisionOutOfRange,
            },
        },
{
    validate_database_transition(current, replacement, db_now)?;
    i64_revision(expected)
}

/// What follows a transaction attempt that failed.
#[derive(Debug)]
pub enum CasFailureStep {
    /// Run a fresh transaction.
    RetryTransaction,
    /// Reload the action to learn whether the commit landed.
    ResolveCommit,
    /// Report the error.
    GiveUp(PostgresUnifiedStoreError),
}

/// Decides what follows failed attempt `attempt` of `max_attempts`: a
/// retryable failure retries while attempts remain, a failure during commit
/// is resolved by a reload, anything else is reported with its message.
pub fn after_transaction_failure(
    attempt: u32,
    max_attempts: u32,
    disposition: PostgresFailureDisposition,
    last_error: &str,
) -> (r: CasFailureStep)
    ensures
        match disposition {
            PostgresFailureDisposition::RetryableAbortedTransaction
            | PostgresFailureDisposition::RetryableBeforeCommit => if attempt < max_attempts {
                r is RetryTransaction
            } else {
                r matches CasFailureStep::GiveUp(
                    PostgresUnifiedStoreError::TransactionRetryExhausted { attempts, last_error: m },
                ) && attempts == attempt && m@ == last_error@
            },
            PostgresFailureDisposition::CommitOutcomeUnknown => r is ResolveCommit,
            PostgresFailureDisposition::Fatal => r matches CasFailureStep::GiveUp(
                PostgresUnifiedStoreError::Postgres(m),
            ) && m@ == last_error@,
        },
{
    match disposition {
        PostgresFailureDisposition::RetryableAbortedTransaction
        | PostgresFailureDisposition::RetryableBeforeCommit => {
            if attempt < max_attempts {
                CasFailureStep::RetryTransaction
            } else {
                CasFailureStep::GiveUp(
                    PostgresUnifiedStoreError::TransactionRetryExhausted {
                        attempts: attempt,
                        last_error: last_error.to_owned(),
                    },
                )
            }
        },
        PostgresFailureDisposition::CommitOutcomeUnknown => CasFailureStep::ResolveCommit,
        PostgresFailureDisposition::Fatal => CasFailureStep::GiveUp(
            PostgresUnifiedStoreError::Postgres(last_error.to_owned()),
        ),
    }
}

/// What follows the reload after a lost commit acknowledgement.
#[derive(Debug)]
pub enum CasResolutionStep {
    /// The swap is settled: applied or not.
    Finished(bool),
    /// Nothing was committed; run a fresh transaction.
    RetryTransaction,
    /// Report the error.
    GiveUp(PostgresUnifiedStoreError),
}

/// Decides what follows a resolved commit of attempt `attempt` of
/// `max_attempts`: the replacement found means applied, a competing write
/// means not applied, an untouched record retries while attempts remain, and
/// anything else leaves the outcome unknown.
pub fn after_commit_resolution(
    attempt: u32,
    max_attempts: u32,
    expected_revision: Option<u64>,
    resolution: &PostgresCommitResolution,
    last_error: &str,
) -> (r: CasResolutionStep)
    ensures
        match *resolution {
            PostgresCommitResolution::Applied => r matches CasResolutionStep::Finished(true),
            PostgresCommitResolution::Contended => r matches CasResolutionStep::Finished(false),
            PostgresCommitResolution::NotApplied => if attempt < max_attempts {
                r is RetryTransaction
            } else {
                r matches CasResolutionStep::GiveUp(
                    PostgresUnifiedStoreError::TransactionRetryExhausted { attempts, last_error: m },
                ) && attempts == attempt && m@ == last_error@
            },
            PostgresCommitResolution::Unknown { observed_revision } => r matches CasResolutionStep::GiveUp(
                PostgresUnifiedStoreError::CommitOutcomeUnknown {
                    expected_revision: x,
                    observed_revision: o,
                    last_error: m,
                },
            ) && x == expected_revision && o == observed_revision && m@ == last_error@,
        },
{
    match resolution {
        PostgresCommitResolution::Applied => CasResolutionStep::Finished(true),
        PostgresCommitResolution::Contended => CasResolutionStep::Finished(false),
        PostgresCommitResolution::NotApplied => {
            if attempt < max_attempts {
                CasResolutionStep::RetryTransaction
            } else {
                CasResolutionStep::GiveUp(
                    PostgresUnifiedStoreError::TransactionRetryExhausted {
                        attempts: attempt,
                        last_error: last_error.to_owned(),
                    },
                )
            }
        },
        PostgresCommitResolution::Unknown { observed_revision } => CasResolutionStep::GiveUp(
            PostgresUnifiedStoreError::CommitOutcomeUnknown {
                expected_revision,
                observed_revision: *observed_revision,
                last_error: last_error.to_owned(),
            },
        ),
    }
}

/// Whether an acquisition that failed on database time is tried again: only
/// an expiry observed by the database, and only while fewer than three reads
/// of database time have been made.
pub fn retry_acquire(attempt: u32, error: &UnifiedFencedBlock<PostgresUnifiedStoreError>) -> (r: bool)
    ensures
        r == (attempt + 1 < 3 && error matches UnifiedFencedBlock::Store(
            PostgresUnifiedStoreError::DatabaseLeaseExpired { .. },
        )),
{
    match error {
        UnifiedFencedBlock::Store(PostgresUnifiedStoreError::DatabaseLeaseExpired { .. }) => attempt < 2,
        _ => false,
    }
}

/// A lost commit is reported applied only when the reloaded record is the
/// replacement itself, and not applied only when nothing was written in its
/// place: no record for an insert, or the expected revision still standing.
pub proof fn law_commit_resolution_is_evidence_based(
    expected: Option<u64>,
    observed: Option<UnifiedActionRecord>,
    replacement: UnifiedActionRecord,
)
    ensures
        commit_resolution(expected, observed, replacement) == PostgresCommitResolution::Applied
            ==> observed is Some && same_content(observed->0, replacement),
        commit_resolution(expected, observed, replacement) == PostgresCommitResolution::NotApplied
            ==> (observed is None && expected is None) || (observed is Some && !same_content(
            observed->0,
            replacement,
        ) && expected == Some(observed->0.revision)),
{
}

/// A replacement that changes the prepared attempts is accepted only under a
/// lease that has not expired by database time, and only with the revision
/// after the current one.
pub proof fn law_attempts_change_only_under_live_lease(
    current: UnifiedActionRecord,
    replacement: UnifiedActionRecord,
    now: int,
)
    requires
        database_transition(current, replacement, now) is Ok,
        !same_attempts(current.attempts@, replacement.attempts@),
    ensures
        current.lease is Some,
        current.lease->0.expires_at@ > now,
        replacement.revision == next_revision(current.revision),
        same_binding(current.binding, replacement.binding),
{
}

/// A lease change accepted against database time leaves a lease that
/// outlives that time, and either starts the first epoch, renews the same
/// epoch for the same owner before expiry, or takes over with the next epoch
/// after expiry.
pub proof fn law_lease_change_respects_database_time(
    current: Option<UnifiedLeaseAuthority>,
    replacement: Option<UnifiedLeaseAuthority>,
    now: int,
)
    requires
        lease_transition(current, replacement, now) is Ok,
    ensures
        replacement is Some,
        replacement->0.expires_at@ > now,
        current is None ==> replacement->0.epoch == 1,
        current is Some ==> (replacement->0.epoch == current->0.epoch && current->0.expires_at@ > now
            && replacement->0.owner@ == current->0.owner@) || (replacement->0.epoch == next_revision(
            current->0.epoch,
        ) && current->0.expires_at@ <= now && replacement->0.revision == 0),
{
}

/// What the store writes for a record reads back as that record. The text of
/// a record whose identities are named, whose attempts carry the record's
/// identity in their permits and do not hold a single empty proof, reads
/// without error, and whatever it reads as has the same content. Identities
/// are never blank in a record the library holds (`ActionId` and
/// `RecoveryWorkerId` keep that as their type invariant, and `encode_record`
/// states it of every record it writes).
pub proof fn law_record_text_reads_back(record: UnifiedActionRecord, read: UnifiedActionRecord)
    requires
        identities_named(record),
        forall|i: int|
            0 <= i < record.attempts@.len() ==> !((#[trigger] record.attempts@[i]).authorization_proof_refs@.len()
                == 1 && record.attempts@[i].authorization_proof_refs@[0]@.len() == 0),
        forall|i: int|
            0 <= i < record.attempts@.len() ==> (#[trigger] record.attempts@[i]).permit.action_id@
                == record.binding.action_id@ && record.attempts@[i].permit.idempotency_key@
                == record.binding.idempotency_key@,
    ensures
        record_error(payload_lines(record_text(record))) is None,
        lines_read(
            payload_lines(record_text(record)),
            payload_lines(record_text(record)).len() as int,
            read,
        ) ==> same_content(read, record),
{
    assert(storable_record(record)) by {
        assert forall|i: int| 0 <= i < record.attempts@.len() implies storable_attempt(
            #[trigger] record.attempts@[i],
        ) by {
            assert(!blank(record.attempts@[i].permit.owner@));
        }
    }
    lemma_record_text_reads(record);
    lemma_record_fields_shape(record);
    let lines = payload_lines(record_text(record));
    let n = lines.len() as int;
    let l = lease_lines(record);
    let a = record.attempts@.len() as int;
    let e = record.evidence@.len() as int;
    if lines_read(lines, n, read) {
        reveal(lines_read);
        broadcast use Timestamp::lemma_view_injective;

        lemma_bind_line(record.binding, record.revision);
        assert(line_fields(lines, 0) == bind_fields(record.binding, record.revision));
        assert(same_binding(read.binding, record.binding));
        if record.lease is Some {
            lemma_lease_line(record.lease->0);
            assert(line_fields(lines, 1) == lease_fields(record.lease->0));
        }
        assert(same_optional_lease(read.lease, record.lease));
        assert forall|i: int| 0 <= i < a implies #[trigger] same_attempt(
            read.attempts@[i],
            record.attempts@[i],
        ) by {
            assert(kind_indices(lines, n, "ATT"@, 9)[i] == 1 + l + i);
            assert(line_fields(lines, 1 + l + i) == attempt_fields(record.attempts@[i]));
            assert(storable_attempt(record.attempts@[i]));
            lemma_attempt_line(record.attempts@[i]);
            assert(attempt_matches(
                read.attempts@[i],
                line_fields(lines, kind_indices(lines, n, "ATT"@, 9)[i]),
                read.binding,
            ));
        }
        assert forall|i: int| 0 <= i < e implies #[trigger] same_effect_evidence(
            read.evidence@[i],
            record.evidence@[i],
        ) by {
            assert(kind_indices(lines, n, "EVID"@, 7)[i] == 1 + l + a + i);
            assert(line_fields(lines, 1 + l + a + i) == evidence_fields(record.evidence@[i]));
            lemma_evidence_line(record.evidence@[i]);
            assert(evidence_matches(
                read.evidence@[i],
                line_fields(lines, kind_indices(lines, n, "EVID"@, 7)[i]),
            ));
        }
        assert forall|i: int| 0 <= i < record.projections@.len() implies #[trigger] same_projection(
            read.projections@[i],
            record.projections@[i],
        ) by {
            assert(kind_indices(lines, n, "PROJ"@, 5)[i] == 1 + l + a + e + i);
            assert(line_fields(lines, 1 + l + a + e + i) == projection_fields(record.projections@[i]));
            lemma_projection_line(record.projections@[i]);
            assert(projection_matches(
                read.projections@[i],
                line_fields(lines, kind_indices(lines, n, "PROJ"@, 5)[i]),
            ));
        }
    }
}

} // verus!
