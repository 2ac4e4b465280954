use std::cell::RefCell;

use lifetra::{
    ActionId, AuthorityTicket, BeadId, ExecutionMode, IdempotencyBinding, JournalAppend,
    JournalCore, JournalError, ProviderObservation, ProviderReconciler,
    ProviderReconciliationAdapter, ProviderReconciliationError, ProviderReconciliationPhase,
    ProviderReconciliationQuery, ProviderReconciliationResult, ReconciliationOutcome,
    RecoveryDirective, RetryAuthority, RetryDecision, RetryPolicy, RetryReason, RetryVerdict,
    Timestamp,
};

/// A journal whose file is a byte buffer.
struct MemJournal {
    core: JournalCore,
    bytes: Vec<u8>,
}

impl MemJournal {
    fn append(&mut self, append: JournalAppend) {
        self.bytes.extend_from_slice(append.line.as_bytes());
        self.core.commit(&append);
    }

    fn reopen(bytes: Vec<u8>) -> MemJournal {
        let (core, valid_len, _) = JournalCore::open(&bytes).expect("journal should reopen");
        let mut bytes = bytes;
        bytes.truncate(valid_len);
        MemJournal { core, bytes }
    }

    fn prepare(&mut self, decision: &RetryDecision, at: i64) -> Result<(), JournalError> {
        let (_, append) = self
            .core
            .prepare_attempt(&self.bytes, decision, Timestamp::new(at))?;
        self.append(append);
        Ok(())
    }

    fn dispatch(&mut self, ordinal: u32, at: i64, proof: &str) -> Result<(), JournalError> {
        let append = self
            .core
            .record_dispatch(&self.bytes, ordinal, Timestamp::new(at), proof)?;
        self.append(append);
        Ok(())
    }
}

#[derive(Debug)]
struct MockAdapter {
    result: Result<ProviderObservation, &'static str>,
    queries: RefCell<Vec<ProviderReconciliationQuery>>,
}

impl ProviderReconciliationAdapter for MockAdapter {
    type Error = &'static str;

    fn reconcile(
        &self,
        query: &ProviderReconciliationQuery,
    ) -> Result<ProviderObservation, Self::Error> {
        self.queries.borrow_mut().push(query.clone());
        self.result.clone()
    }
}

/// One reconciliation pass: ask the provider about the attempt the journal
/// says to reconcile, make the answer durable, then decide.
fn reconcile_once(
    reconciler: &ProviderReconciler,
    journal: &mut MemJournal,
    adapter: &MockAdapter,
) -> Result<ProviderReconciliationResult, ProviderReconciliationError<&'static str>> {
    let query = reconciler.reconciliation_query::<&'static str>(&journal.core, &journal.bytes)?;
    let observation = adapter
        .reconcile(&query)
        .map_err(ProviderReconciliationError::Adapter)?;
    ProviderReconciler::check_observation::<&'static str>(&observation)?;
    let append = journal
        .core
        .record_reconciliation(
            &journal.bytes,
            query.attempt_ordinal,
            observation.observed_at,
            observation.outcome,
            &observation.proof_ref,
        )
        .map_err(ProviderReconciliationError::Journal)?;
    journal.append(append);
    let decision =
        reconciler.reconciled_decision::<&'static str>(&journal.core, &journal.bytes, &query, &observation)?;
    Ok(ProviderReconciliationResult {
        query,
        observation,
        decision,
    })
}

fn ticket() -> AuthorityTicket {
    AuthorityTicket {
        action_id: ActionId::new("action:provider:1").expect("valid action id"),
        source_bead: BeadId::new("bead:provider:1"),
        execution_mode: ExecutionMode::Automatic,
        authority_proof_refs: vec!["proof:authority:provider".into()],
        issued_at: Timestamp::new(10),
    }
}

fn create_journal() -> MemJournal {
    let ticket = ticket();
    let binding = IdempotencyBinding::new(&ticket, "idem:provider:1").expect("valid binding");
    let (core, append) = JournalCore::create(ticket, binding).expect("journal should create");
    let mut journal = MemJournal {
        core,
        bytes: Vec::new(),
    };
    journal.append(append);
    journal
}

fn initial_decision() -> RetryDecision {
    RetryDecision {
        action_id: ticket().action_id,
        idempotency_key: "idem:provider:1".into(),
        verdict: RetryVerdict::InitialDispatchAllowed,
        reasons: vec![RetryReason::AuthorizedNotDispatched],
        proof_refs: vec!["proof:authority:provider".into()],
    }
}

fn create_prepared_crash() -> Vec<u8> {
    let mut journal = create_journal();
    journal
        .prepare(&initial_decision(), 11)
        .expect("prepare should persist");
    journal.bytes
}

fn reconciler() -> ProviderReconciler {
    ProviderReconciler::new(RetryAuthority::new(RetryPolicy::new(1, false, true)))
}

fn adapter(outcome: ReconciliationOutcome, at: i64, proof: &str) -> MockAdapter {
    MockAdapter {
        result: Ok(ProviderObservation {
            observed_at: Timestamp::new(at),
            outcome,
            proof_ref: proof.to_owned(),
        }),
        queries: RefCell::new(Vec::new()),
    }
}

#[test]
fn prepared_no_effect_can_advance_to_real_attempt_one_without_fake_zero() {
    let mut journal = MemJournal::reopen(create_prepared_crash());
    let adapter = adapter(
        ReconciliationOutcome::NoEffectConfirmed,
        12,
        "proof:provider:no-effect:0",
    );

    let result = reconcile_once(&reconciler(), &mut journal, &adapter)
        .expect("provider reconciliation should succeed");
    assert_eq!(
        result.decision.verdict,
        RetryVerdict::RedispatchAllowed { ordinal: 1 }
    );
    assert_eq!(
        result.query.phase,
        ProviderReconciliationPhase::PreparedAmbiguous
    );
    assert_eq!(result.query.idempotency_key, "idem:provider:1");

    journal
        .prepare(&result.decision, 13)
        .expect("provider proof should authorize next prepare");
    journal
        .dispatch(1, 14, "proof:dispatch:1")
        .expect("attempt one should dispatch");

    let recovered = journal.core.recover(&journal.bytes).expect("journal should replay");
    assert_eq!(recovered.next_attempt_ordinal, 2);
    assert_eq!(recovered.ledger.attempts().len(), 1);
    assert_eq!(recovered.ledger.attempts()[0].id.ordinal, 1);
    assert!(recovered
        .ledger
        .attempts()
        .iter()
        .all(|attempt| attempt.id.ordinal != 0));
}

#[test]
fn prepared_success_closes_without_fabricating_dispatch() {
    let mut journal = MemJournal::reopen(create_prepared_crash());
    let adapter = adapter(
        ReconciliationOutcome::EffectSucceeded,
        12,
        "proof:provider:success:0",
    );

    let result = reconcile_once(&reconciler(), &mut journal, &adapter)
        .expect("provider reconciliation should succeed");
    assert_eq!(result.decision.verdict, RetryVerdict::CloseSucceeded);
    let recovered = journal.core.recover(&journal.bytes).expect("journal should replay");
    assert_eq!(
        recovered.directive,
        RecoveryDirective::CloseSucceeded { ordinal: 0 }
    );
    assert!(recovered.ledger.attempts().is_empty());
    assert_eq!(recovered.prepared_reconciliations.len(), 1);
}

#[test]
fn prepared_still_unknown_remains_reconcile_first() {
    let mut journal = MemJournal::reopen(create_prepared_crash());
    let adapter = adapter(
        ReconciliationOutcome::StillUnknown,
        12,
        "proof:provider:unknown:0",
    );

    let result = reconcile_once(&reconciler(), &mut journal, &adapter)
        .expect("provider reconciliation should succeed");
    assert_eq!(result.decision.verdict, RetryVerdict::ReconcileFirst);
    assert_eq!(
        journal
            .core
            .recover(&journal.bytes)
            .expect("journal should replay")
            .directive,
        RecoveryDirective::ReconcilePreparedAttempt { ordinal: 0 }
    );
}

#[test]
fn dispatched_unknown_uses_existing_retry_authority() {
    let mut journal = create_journal();
    journal
        .prepare(&initial_decision(), 11)
        .expect("prepare should persist");
    journal
        .dispatch(0, 12, "proof:dispatch:0")
        .expect("dispatch should persist");

    let mut journal = MemJournal::reopen(journal.bytes);
    let adapter = adapter(
        ReconciliationOutcome::NoEffectConfirmed,
        13,
        "proof:provider:no-effect:0",
    );
    let result = reconcile_once(&reconciler(), &mut journal, &adapter)
        .expect("provider reconciliation should succeed");

    assert_eq!(
        result.query.phase,
        ProviderReconciliationPhase::DispatchedUnknown
    );
    assert_eq!(
        result.decision.verdict,
        RetryVerdict::RedispatchAllowed { ordinal: 1 }
    );
    assert!(result
        .decision
        .proof_refs
        .contains(&"proof:dispatch:0".to_owned()));
    assert!(result
        .decision
        .proof_refs
        .contains(&"proof:provider:no-effect:0".to_owned()));
}

#[test]
fn adapter_error_does_not_mutate_durable_history() {
    let mut journal = MemJournal::reopen(create_prepared_crash());
    let before = journal
        .core
        .recover(&journal.bytes)
        .expect("journal should replay")
        .last_sequence;
    let adapter = MockAdapter {
        result: Err("provider unavailable"),
        queries: RefCell::new(Vec::new()),
    };

    let result = reconcile_once(&reconciler(), &mut journal, &adapter);
    assert_eq!(
        result,
        Err(ProviderReconciliationError::Adapter("provider unavailable"))
    );
    assert_eq!(
        journal
            .core
            .recover(&journal.bytes)
            .expect("journal should replay")
            .last_sequence,
        before
    );
}

#[test]
fn blank_provider_proof_is_refused_before_any_write() {
    let mut journal = MemJournal::reopen(create_prepared_crash());
    let before = journal.bytes.len();
    let adapter = adapter(ReconciliationOutcome::NoEffectConfirmed, 12, "  ");
    let result = reconcile_once(&reconciler(), &mut journal, &adapter);
    assert_eq!(result, Err(ProviderReconciliationError::EmptyProviderProof));
    assert_eq!(journal.bytes.len(), before);
    assert_eq!(adapter.queries.borrow().len(), 1);
}

#[test]
fn fresh_journal_is_not_a_reconciliation_state() {
    let journal = create_journal();
    let query: Result<ProviderReconciliationQuery, ProviderReconciliationError<&'static str>> =
        reconciler().reconciliation_query(&journal.core, &journal.bytes);
    assert_eq!(
        query,
        Err(ProviderReconciliationError::NotReconciliationState)
    );
}

#[test]
fn confirmed_failure_on_prepared_attempt_closes_when_retry_disabled() {
    let mut journal = MemJournal::reopen(create_prepared_crash());
    let adapter = adapter(
        ReconciliationOutcome::EffectFailed,
        12,
        "proof:provider:failed:0",
    );
    let result = reconcile_once(&reconciler(), &mut journal, &adapter).expect("reconcile");
    assert_eq!(result.decision.verdict, RetryVerdict::CloseFailed);
    assert_eq!(
        result.decision.reasons,
        vec![
            RetryReason::ReconciliationConfirmedFailure,
            RetryReason::RetryDisabled
        ]
    );
    assert_eq!(
        result.decision.proof_refs,
        vec!["proof:provider:failed:0".to_owned()]
    );
}
