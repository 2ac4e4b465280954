use std::cell::{Cell, RefCell};

use lifetra::postgres_unified_store::{
    after_commit_resolution, after_transaction_failure, check_insert, check_locked_row, check_row,
    check_update, plan_compare_and_swap, retry_acquire, validate_identifier,
};
use lifetra::unified_record_format::{decode_record, encode_record};
use lifetra::{
    classify_sqlstate, ActionId, AuthorityTicket, BeadId, CasFailureStep, CasResolutionStep,
    ExecutionMode, FencedActuatorOutcome, FencedActuatorReceipt, FencedActuatorRequest,
    FencedAttemptPermit, IdempotencyBinding, PostgresCommitResolution,
    PostgresFailureDisposition, PostgresFailurePhase, PostgresUnifiedFencedStore,
    PostgresUnifiedStoreError, ReconciliationOutcome, RecoveryWorkerId, RetryDecision,
    RetryReason, RetryVerdict, Timestamp, UnifiedActionRecord, UnifiedFencedBlock,
    UnifiedFencedRuntime, UnifiedFencedStore, UnifiedLeaseAuthority, UnifiedPreparedAttempt,
    UnifiedReconciliationObservation, UnifiedRuntimeDirective,
};

/// A table of rows, each an action's revision column and record text, with a
/// database clock: the store's rules applied as the PostgreSQL store applies
/// them inside its transaction.
struct RowStore {
    rows: RefCell<Vec<(String, i64, String)>>,
    clock: Cell<i64>,
}

impl RowStore {
    fn new(now: i64) -> RowStore {
        RowStore {
            rows: RefCell::new(Vec::new()),
            clock: Cell::new(now),
        }
    }

    fn authoritative_now(&self) -> Timestamp {
        Timestamp::new(self.clock.get())
    }

    fn row(&self, action_id: &ActionId) -> Option<(i64, String)> {
        self.rows
            .borrow()
            .iter()
            .find(|(id, _, _)| id == action_id.as_str())
            .map(|(_, revision, payload)| (*revision, payload.clone()))
    }
}

impl UnifiedFencedStore for RowStore {
    type Error = PostgresUnifiedStoreError;

    fn load(&self, action_id: &ActionId) -> Result<Option<UnifiedActionRecord>, Self::Error> {
        match self.row(action_id) {
            None => Ok(None),
            Some((revision, payload)) => check_row(revision, &payload).map(Some),
        }
    }

    fn compare_and_swap(
        &self,
        action_id: &ActionId,
        expected_revision: Option<u64>,
        replacement: UnifiedActionRecord,
    ) -> Result<bool, Self::Error> {
        let write = plan_compare_and_swap(action_id, &replacement)?;
        match expected_revision {
            None => {
                check_insert(&replacement)?;
                if self.row(action_id).is_some() {
                    return Ok(false);
                }
                self.rows.borrow_mut().push((
                    action_id.as_str().to_owned(),
                    write.revision,
                    write.payload,
                ));
                Ok(true)
            }
            Some(expected) => {
                let row = self.row(action_id);
                let current = match check_locked_row(
                    expected,
                    row.as_ref().map(|(revision, payload)| (*revision, payload.as_str())),
                )? {
                    Some(current) => current,
                    None => return Ok(false),
                };
                let expected_db =
                    check_update(&current, &replacement, self.authoritative_now(), expected)?;
                let mut rows = self.rows.borrow_mut();
                let entry = rows
                    .iter_mut()
                    .find(|(id, revision, _)| id == action_id.as_str() && *revision == expected_db)
                    .expect("locked row");
                entry.1 = write.revision;
                entry.2 = write.payload;
                Ok(true)
            }
        }
    }
}

fn action(suffix: &str) -> ActionId {
    ActionId::new(&format!("action:postgres:{suffix}")).expect("action")
}

fn ticket(action_id: ActionId) -> AuthorityTicket {
    AuthorityTicket {
        action_id,
        source_bead: BeadId::new("bead:postgres"),
        execution_mode: ExecutionMode::Automatic,
        authority_proof_refs: vec!["proof:authority:postgres".into()],
        issued_at: Timestamp::new(10),
    }
}

fn initial(ticket: &AuthorityTicket, binding: &IdempotencyBinding) -> RetryDecision {
    RetryDecision {
        action_id: ticket.action_id.clone(),
        idempotency_key: binding.key.clone(),
        verdict: RetryVerdict::InitialDispatchAllowed,
        reasons: vec![RetryReason::AuthorizedNotDispatched],
        proof_refs: ticket.authority_proof_refs.clone(),
    }
}

fn runtime(suffix: &str) -> (UnifiedFencedRuntime<RowStore>, AuthorityTicket, IdempotencyBinding) {
    let store = RowStore::new(1_750_000_000);
    let ticket = ticket(action(suffix));
    let binding =
        IdempotencyBinding::new(&ticket, &format!("idem:postgres:{suffix}")).expect("binding");
    let runtime = UnifiedFencedRuntime::new(store);
    runtime
        .create_action(&ticket, &binding, &format!("operation:postgres:{suffix}"))
        .expect("create");
    (runtime, ticket, binding)
}

fn worker(name: &str) -> RecoveryWorkerId {
    RecoveryWorkerId::new(name).expect("worker")
}

#[test]
fn postgres_round_trip_and_authoritative_time() {
    let (runtime, ticket, _) = runtime("roundtrip");
    let now = runtime.store().authoritative_now();
    assert!(now.epoch_seconds() > 1_700_000_000);
    let record = runtime.load(&ticket.action_id).expect("load");
    assert_eq!(record.binding.action_id, ticket.action_id);
    let (_, text) = runtime.store().row(&ticket.action_id).expect("row");
    assert_eq!(encode_record(&record), text);
    assert_eq!(decode_record(&text), Ok(record));
}

#[test]
fn independent_connections_contend_on_one_revision() {
    let (runtime, ticket, _) = runtime("contention");
    let store = runtime.store();
    let current = store.load(&ticket.action_id).expect("load").expect("row");
    let mut a = current.clone();
    let mut b = current.clone();
    a.revision += 1;
    b.revision += 1;
    a.lease = Some(UnifiedLeaseAuthority {
        owner: worker("worker-a"),
        epoch: 1,
        revision: 0,
        expires_at: Timestamp::new(i64::MAX / 4),
    });
    b.lease = Some(UnifiedLeaseAuthority {
        owner: worker("worker-b"),
        epoch: 1,
        revision: 0,
        expires_at: Timestamp::new(i64::MAX / 4),
    });
    let results = [
        store
            .compare_and_swap(&ticket.action_id, Some(current.revision), a)
            .expect("left cas"),
        store
            .compare_and_swap(&ticket.action_id, Some(current.revision), b)
            .expect("right cas"),
    ];
    assert_eq!(results.iter().filter(|result| **result).count(), 1);
    let held = store.load(&ticket.action_id).expect("load").expect("row");
    assert_eq!(held.lease.expect("lease").owner, worker("worker-a"));
}

#[test]
fn db_time_rejects_execution_mutation_after_expiry() {
    let (runtime, ticket, binding) = runtime("expiry");
    let store = runtime.store();
    let token = runtime
        .acquire(
            &ticket.action_id,
            worker("expired-worker"),
            store.authoritative_now(),
            2,
        )
        .expect("lease");
    let leased = store.load(&ticket.action_id).expect("load").expect("row");
    let expires_at = leased.lease.as_ref().expect("lease record").expires_at;
    store.clock.set(expires_at.epoch_seconds());

    let current = store.load(&ticket.action_id).expect("reload").expect("row");
    let prepared_at = store.authoritative_now();
    let mut illegal = current.clone();
    illegal.revision += 1;
    illegal.attempts.push(UnifiedPreparedAttempt {
        permit: FencedAttemptPermit {
            action_id: ticket.action_id.clone(),
            owner: token.owner,
            fencing_epoch: token.epoch,
            attempt_ordinal: 0,
            idempotency_key: binding.key,
        },
        prepared_at,
        authorization_proof_refs: vec!["proof:authority:postgres".into()],
        dispatch: None,
    });
    assert!(matches!(
        store.compare_and_swap(&ticket.action_id, Some(current.revision), illegal),
        Err(PostgresUnifiedStoreError::DatabaseLeaseExpired { epoch: 1 })
    ));
}

#[test]
fn late_receipt_is_evidence_even_after_takeover() {
    let (runtime, ticket, binding) = runtime("late-evidence");
    let now = runtime.store().authoritative_now();
    let token = runtime
        .acquire(&ticket.action_id, worker("worker-a"), now, 30)
        .expect("lease");
    let permit = runtime
        .prepare_attempt(&token, &initial(&ticket, &binding), now, now)
        .expect("prepare");
    let receipt = FencedActuatorReceipt {
        request: FencedActuatorRequest::from_permit(&permit, "operation:postgres:late-evidence")
            .expect("request"),
        observed_at: runtime.store().authoritative_now(),
        outcome: FencedActuatorOutcome::Applied,
        proof_ref: "proof:postgres:late-success".into(),
    };
    runtime.record_actuator_receipt(&receipt).expect("evidence");
    assert!(matches!(
        runtime.directive(&ticket.action_id).expect("directive"),
        UnifiedRuntimeDirective::CloseSucceeded { .. }
    ));
}

#[test]
fn no_effect_proof_survives_postgres_round_trip_for_retry() {
    let (runtime, ticket, binding) = runtime("retry");
    let now = runtime.store().authoritative_now();
    let token = runtime
        .acquire(&ticket.action_id, worker("worker-a"), now, 60)
        .expect("lease");
    runtime
        .prepare_attempt(&token, &initial(&ticket, &binding), now, now)
        .expect("prepare");
    let now = runtime.store().authoritative_now();
    runtime
        .record_reconciliation(&UnifiedReconciliationObservation {
            action_id: ticket.action_id.clone(),
            idempotency_key: binding.key.clone(),
            operation_ref: "operation:postgres:retry".into(),
            attempt_ordinal: 0,
            observed_at: now,
            outcome: ReconciliationOutcome::NoEffectConfirmed,
            proof_ref: "proof:postgres:no-effect".into(),
        })
        .expect("reconciliation");
    let retry = RetryDecision {
        action_id: ticket.action_id.clone(),
        idempotency_key: binding.key,
        verdict: RetryVerdict::RedispatchAllowed { ordinal: 1 },
        reasons: Vec::new(),
        proof_refs: vec!["proof:postgres:no-effect".into()],
    };
    let permit = runtime
        .prepare_attempt(&token, &retry, now, now)
        .expect("retry");
    assert_eq!(permit.attempt_ordinal, 1);
    let record = runtime.load(&ticket.action_id).expect("load");
    let (_, text) = runtime.store().row(&ticket.action_id).expect("row");
    assert_eq!(decode_record(&text), Ok(record));
}

#[test]
fn second_creation_of_an_action_is_refused() {
    let (runtime, ticket, binding) = runtime("twice");
    assert!(matches!(
        runtime.create_action(&ticket, &binding, "operation:postgres:twice"),
        Err(UnifiedFencedBlock::ActionAlreadyExists)
    ));
}

#[test]
fn record_for_another_action_or_wrong_revision_is_refused() {
    let (runtime, ticket, _) = runtime("refusals");
    let store = runtime.store();
    let current = store.load(&ticket.action_id).expect("load").expect("row");
    assert_eq!(
        plan_compare_and_swap(&action("other"), &current).map(|write| write.revision),
        Err(PostgresUnifiedStoreError::InvalidTransition)
    );
    let mut far = current.clone();
    far.revision = u64::MAX;
    assert_eq!(
        plan_compare_and_swap(&ticket.action_id, &far).map(|write| write.revision),
        Err(PostgresUnifiedStoreError::RevisionOutOfRange)
    );
    let mut late = current.clone();
    late.revision = 3;
    assert_eq!(
        check_insert(&late),
        Err(PostgresUnifiedStoreError::InvalidTransition)
    );
    let (revision, text) = store.row(&ticket.action_id).expect("row");
    assert_eq!(
        check_row(revision + 1, &text).map(|record| record.revision),
        Err(PostgresUnifiedStoreError::InvalidRecord)
    );
    assert_eq!(
        check_locked_row(5, Some((revision, text.as_str()))).map(|row| row.is_some()),
        Ok(false)
    );
    assert_eq!(check_locked_row(5, None).map(|row| row.is_some()), Ok(false));
}

#[test]
fn corrupted_row_text_is_refused() {
    assert_eq!(
        decode_record("PGU9").map(|record| record.revision),
        Err(PostgresUnifiedStoreError::InvalidRecord)
    );
    assert!(decode_record("").is_err());
}

#[test]
fn statements_quote_the_table_name() {
    let store = PostgresUnifiedFencedStore::new("host=localhost");
    assert_eq!(store.table(), "lifetra_unified_actions");
    assert_eq!(
        store.select_statement(),
        "SELECT revision, payload FROM \"lifetra_unified_actions\" WHERE action_id = $1"
    );
    assert_eq!(
        store.delete_statement(),
        "DELETE FROM \"lifetra_unified_actions\" WHERE action_id = $1"
    );
    assert!(PostgresUnifiedFencedStore::with_table("host=localhost", "bad name").is_err());
    assert_eq!(validate_identifier("records_2"), Ok(()));
    assert_eq!(
        validate_identifier("2records"),
        Err(PostgresUnifiedStoreError::InvalidTableName)
    );
    assert_eq!(
        validate_identifier(""),
        Err(PostgresUnifiedStoreError::InvalidTableName)
    );
}

#[test]
fn failures_are_classified_by_sqlstate_and_phase() {
    assert_eq!(
        classify_sqlstate(Some("40001"), PostgresFailurePhase::Commit),
        PostgresFailureDisposition::RetryableAbortedTransaction
    );
    assert_eq!(
        classify_sqlstate(Some("08006"), PostgresFailurePhase::Commit),
        PostgresFailureDisposition::CommitOutcomeUnknown
    );
    assert_eq!(
        classify_sqlstate(Some("08006"), PostgresFailurePhase::Write),
        PostgresFailureDisposition::RetryableBeforeCommit
    );
    assert_eq!(
        classify_sqlstate(Some("23505"), PostgresFailurePhase::Write),
        PostgresFailureDisposition::Fatal
    );
}

#[test]
fn failed_transactions_retry_until_attempts_run_out() {
    assert!(matches!(
        after_transaction_failure(1, 3, PostgresFailureDisposition::RetryableBeforeCommit, "x"),
        CasFailureStep::RetryTransaction
    ));
    assert!(matches!(
        after_transaction_failure(3, 3, PostgresFailureDisposition::RetryableAbortedTransaction, "boom"),
        CasFailureStep::GiveUp(PostgresUnifiedStoreError::TransactionRetryExhausted { attempts: 3, ref last_error })
            if last_error == "boom"
    ));
    assert!(matches!(
        after_transaction_failure(1, 3, PostgresFailureDisposition::CommitOutcomeUnknown, "x"),
        CasFailureStep::ResolveCommit
    ));
    assert!(matches!(
        after_transaction_failure(1, 3, PostgresFailureDisposition::Fatal, "bad"),
        CasFailureStep::GiveUp(PostgresUnifiedStoreError::Postgres(ref message)) if message == "bad"
    ));
    assert!(matches!(
        after_commit_resolution(1, 3, Some(4), &PostgresCommitResolution::Applied, "x"),
        CasResolutionStep::Finished(true)
    ));
    assert!(matches!(
        after_commit_resolution(1, 3, Some(4), &PostgresCommitResolution::Contended, "x"),
        CasResolutionStep::Finished(false)
    ));
    assert!(matches!(
        after_commit_resolution(1, 3, Some(4), &PostgresCommitResolution::NotApplied, "x"),
        CasResolutionStep::RetryTransaction
    ));
    assert!(matches!(
        after_commit_resolution(
            1,
            3,
            Some(4),
            &PostgresCommitResolution::Unknown { observed_revision: Some(9) },
            "lost"
        ),
        CasResolutionStep::GiveUp(PostgresUnifiedStoreError::CommitOutcomeUnknown {
            expected_revision: Some(4),
            observed_revision: Some(9),
            ..
        })
    ));
    assert!(retry_acquire(
        0,
        &UnifiedFencedBlock::Store(PostgresUnifiedStoreError::DatabaseLeaseExpired { epoch: 1 })
    ));
    assert!(!retry_acquire(
        2,
        &UnifiedFencedBlock::Store(PostgresUnifiedStoreError::DatabaseLeaseExpired { epoch: 1 })
    ));
    assert!(!retry_acquire(0, &UnifiedFencedBlock::ActionMissing));
}
