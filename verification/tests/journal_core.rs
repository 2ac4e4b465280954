use lifetra::{
    ActionId, AuthorityTicket, BeadId, ExecutionMode, ExecutionOutcome, IdempotencyBinding,
    JournalAppend, JournalCore, JournalError, ReconciliationOutcome, RecoveryDirective,
    RetryAuthority, RetryDecision, RetryPolicy, RetryReason, RetryVerdict, Timestamp,
};

/// A journal whose file is a byte buffer.
struct MemJournal {
    core: JournalCore,
    bytes: Vec<u8>,
}

impl MemJournal {
    fn append(&mut self, append: JournalAppend) {
        self.bytes.extend_from_slice(append.line.as_bytes());
        self.core.commit(&append);
    }

    fn reopen(bytes: Vec<u8>) -> Result<MemJournal, JournalError> {
        let (core, valid_len, _truncated) = JournalCore::open(&bytes)?;
        let mut bytes = bytes;
        bytes.truncate(valid_len);
        Ok(MemJournal { core, bytes })
    }

    fn prepare(&mut self, decision: &RetryDecision, at: i64) {
        let (_, append) = self
            .core
            .prepare_attempt(&self.bytes, decision, Timestamp::new(at))
            .expect("prepare should be admitted");
        self.append(append);
    }

    fn dispatch(&mut self, ordinal: u32, at: i64, proof: &str) -> Result<(), JournalError> {
        let append = self
            .core
            .record_dispatch(&self.bytes, ordinal, Timestamp::new(at), proof)?;
        self.append(append);
        Ok(())
    }
}

fn ticket() -> AuthorityTicket {
    AuthorityTicket {
        action_id: ActionId::new("action:journal:1").expect("valid action id"),
        source_bead: BeadId::new("bead:journal:1"),
        execution_mode: ExecutionMode::Automatic,
        authority_proof_refs: vec!["proof:authority:journal".into()],
        issued_at: Timestamp::new(10),
    }
}

fn create_journal() -> MemJournal {
    let ticket = ticket();
    let binding = IdempotencyBinding::new(&ticket, "idem:journal:1").expect("valid binding");
    let (core, append) = JournalCore::create(ticket, binding).expect("journal should create");
    let mut journal = MemJournal { core, bytes: Vec::new() };
    journal.append(append);
    journal
}

fn initial_decision(journal: &MemJournal) -> RetryDecision {
    RetryDecision {
        action_id: journal.core.ticket.action_id.clone(),
        idempotency_key: journal.core.binding.key.clone(),
        verdict: RetryVerdict::InitialDispatchAllowed,
        reasons: vec![RetryReason::AuthorizedNotDispatched],
        proof_refs: journal.core.ticket.authority_proof_refs.clone(),
    }
}

#[test]
fn prepared_without_dispatch_recovers_to_reconcile_not_blind_send() {
    let mut journal = create_journal();
    let initial = initial_decision(&journal);
    journal.prepare(&initial, 11);

    let reopened = MemJournal::reopen(journal.bytes).expect("journal should reopen");
    let recovered = reopened.core.recover(&reopened.bytes).expect("journal should replay");
    assert_eq!(recovered.ledger.attempts().len(), 0);
    assert_eq!(
        recovered.directive,
        RecoveryDirective::ReconcilePreparedAttempt { ordinal: 0 }
    );
}

#[test]
fn reopened_prepared_attempt_cannot_be_marked_dispatched_without_reconciliation() {
    let mut journal = create_journal();
    let initial = initial_decision(&journal);
    journal.prepare(&initial, 11);

    let mut reopened = MemJournal::reopen(journal.bytes).expect("journal should reopen");
    assert_eq!(
        reopened.dispatch(0, 12, "proof:dispatch:0"),
        Err(JournalError::RecoveredPreparedRequiresReconciliation { ordinal: 0 })
    );
}

#[test]
fn durable_dispatch_rebuilds_attempt_ledger_after_restart() {
    let mut journal = create_journal();
    let initial = initial_decision(&journal);
    journal.prepare(&initial, 11);
    journal.dispatch(0, 12, "proof:dispatch:0").expect("dispatch receipt");

    let reopened = MemJournal::reopen(journal.bytes).expect("open");
    let recovered = reopened.core.recover(&reopened.bytes).expect("recover");
    assert_eq!(recovered.ledger.attempts().len(), 1);
    assert_eq!(recovered.ledger.attempts()[0].id.ordinal, 0);
    assert_eq!(recovered.ledger.binding.key, "idem:journal:1");
    assert_eq!(
        recovered.directive,
        RecoveryDirective::ReconcileDispatchedAttempt { ordinal: 0 }
    );
}

#[test]
fn confirmed_success_recovers_closed() {
    let mut journal = create_journal();
    let initial = initial_decision(&journal);
    journal.prepare(&initial, 11);
    journal.dispatch(0, 12, "proof:dispatch:0").expect("dispatch");
    let append = journal
        .core
        .record_external_outcome(
            &journal.bytes,
            0,
            Timestamp::new(13),
            ExecutionOutcome::Succeeded,
            "proof:success:0",
        )
        .expect("external outcome");
    journal.append(append);

    let reopened = MemJournal::reopen(journal.bytes).expect("open");
    assert_eq!(
        reopened.core.recover(&reopened.bytes).expect("recover").directive,
        RecoveryDirective::CloseSucceeded { ordinal: 0 }
    );
}

#[test]
fn no_effect_recovery_feeds_existing_retry_authority() {
    let mut journal = create_journal();
    let initial = initial_decision(&journal);
    journal.prepare(&initial, 11);
    journal.dispatch(0, 12, "proof:dispatch:0").expect("dispatch");
    let append = journal
        .core
        .record_reconciliation(
            &journal.bytes,
            0,
            Timestamp::new(13),
            ReconciliationOutcome::NoEffectConfirmed,
            "proof:no-effect:0",
        )
        .expect("reconciliation");
    journal.append(append);

    let mut reopened = MemJournal::reopen(journal.bytes).expect("open");
    let recovered = reopened.core.recover(&reopened.bytes).expect("recover");
    assert_eq!(
        recovered.directive,
        RecoveryDirective::EvaluateRetry { ordinal: 0 }
    );
    let (trace, reconciliation, context) = recovered
        .ledger
        .retry_inputs()
        .expect("retry inputs should rebuild");
    let retry = RetryAuthority::new(RetryPolicy::new(1, false, true))
        .evaluate(
            &trace,
            &recovered.ledger.binding,
            reconciliation.as_ref(),
            context,
        )
        .expect("retry decision");
    assert_eq!(
        retry.verdict,
        RetryVerdict::RedispatchAllowed { ordinal: 1 }
    );
    reopened.prepare(&retry, 14);
    let again = reopened.core.recover(&reopened.bytes).expect("recover");
    assert_eq!(
        again.directive,
        RecoveryDirective::ReconcilePreparedAttempt { ordinal: 1 }
    );
}

#[test]
fn incomplete_tail_is_removed_and_keeps_recovery_fail_closed() {
    let mut journal = create_journal();
    let initial = initial_decision(&journal);
    journal.prepare(&initial, 11);
    let mut bytes = journal.bytes;
    bytes.extend_from_slice(b"2\tdeadbeef\tLJ1\tDISP\t0");

    let reopened = MemJournal::reopen(bytes).expect("open should repair partial tail");
    assert!(reopened.core.repaired_truncated_tail);
    let recovered = reopened.core.recover(&reopened.bytes).expect("recover");
    assert!(recovered.repaired_truncated_tail);
    assert_eq!(
        recovered.directive,
        RecoveryDirective::ReconcilePreparedAttempt { ordinal: 0 }
    );
}

#[test]
fn complete_checksum_corruption_is_not_silently_ignored() {
    let journal = create_journal();
    let mut bytes = journal.bytes;
    let first_tab = bytes.iter().position(|byte| *byte == b'\t').expect("tab");
    let checksum_start = first_tab + 1;
    bytes[checksum_start] = if bytes[checksum_start] == b'0' {
        b'1'
    } else {
        b'0'
    };

    assert!(matches!(
        JournalCore::open(&bytes),
        Err(JournalError::InvalidChecksum { sequence: 0 })
    ));
}

#[test]
fn empty_journal_is_refused() {
    assert!(matches!(
        JournalCore::open(b""),
        Err(JournalError::EmptyJournal)
    ));
    assert!(matches!(
        JournalCore::open(b"0\tpartial"),
        Err(JournalError::EmptyJournal)
    ));
}

#[test]
fn binding_must_match_ticket_and_carry_a_key() {
    let ticket = ticket();
    let other = AuthorityTicket {
        action_id: ActionId::new("action:other").expect("valid"),
        ..ticket.clone()
    };
    let binding = IdempotencyBinding::new(&other, "idem:other").expect("valid binding");
    assert!(matches!(
        JournalCore::create(ticket, binding),
        Err(JournalError::BindingActionMismatch)
    ));
}

#[test]
fn first_record_is_the_binding_line() {
    let journal = create_journal();
    let text = String::from_utf8(journal.bytes.clone()).expect("utf8");
    assert!(text.starts_with("0\t"));
    assert!(text.ends_with('\n'));
    assert_eq!(text.matches('\n').count(), 1);
    assert_eq!(journal.core.next_sequence, 1);
    let reopened = MemJournal::reopen(journal.bytes).expect("open");
    assert_eq!(reopened.core.next_sequence, 1);
    assert_eq!(reopened.core.binding.key, "idem:journal:1");
    assert!(!reopened.core.repaired_truncated_tail);
    let recovered = reopened.core.recover(&reopened.bytes).expect("recover");
    assert_eq!(recovered.directive, RecoveryDirective::ReadyForInitialPreparation);
    assert_eq!(recovered.last_sequence, 0);
}

#[test]
fn dispatch_and_reconciliation_need_proof() {
    let mut journal = create_journal();
    let initial = initial_decision(&journal);
    journal.prepare(&initial, 11);
    assert_eq!(journal.dispatch(0, 12, "  "), Err(JournalError::EmptyProof));
    assert!(matches!(
        journal.core.record_reconciliation(
            &journal.bytes,
            0,
            Timestamp::new(12),
            ReconciliationOutcome::NoEffectConfirmed,
            ""
        ),
        Err(JournalError::EmptyProof)
    ));
}

#[test]
fn prepared_attempt_blocks_a_second_preparation() {
    let mut journal = create_journal();
    let initial = initial_decision(&journal);
    journal.prepare(&initial, 11);
    assert_eq!(
        journal
            .core
            .prepare_attempt(&journal.bytes, &initial, Timestamp::new(12))
            .map(|(id, _)| id.ordinal),
        Err(JournalError::PendingPreparedAttempt { ordinal: 0 })
    );
}
