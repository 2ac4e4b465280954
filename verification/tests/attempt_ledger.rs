use lifetra::{
    ActionId, AttemptBlock, AttemptLedger, AttemptStatus, AuthorityTicket, BeadId,
    ExecutionMode, ExecutionOutcome, IdempotencyBinding, ReconciliationOutcome, RetryDecision,
    RetryReason, RetryVerdict, Timestamp,
};

fn ticket() -> AuthorityTicket {
    AuthorityTicket {
        action_id: ActionId::new("action:ledger:1").expect("valid action id"),
        source_bead: BeadId::new("bead:ledger:1"),
        execution_mode: ExecutionMode::Automatic,
        authority_proof_refs: vec!["proof:authority:ledger".into()],
        issued_at: Timestamp::new(10),
    }
}

fn binding(ticket: &AuthorityTicket) -> IdempotencyBinding {
    IdempotencyBinding::new(ticket, "idem:ledger:1").expect("valid idempotency key")
}

fn initial_decision(ticket: &AuthorityTicket, binding: &IdempotencyBinding) -> RetryDecision {
    RetryDecision {
        action_id: ticket.action_id.clone(),
        idempotency_key: binding.key.clone(),
        verdict: RetryVerdict::InitialDispatchAllowed,
        reasons: vec![RetryReason::AuthorizedNotDispatched],
        proof_refs: ticket.authority_proof_refs.clone(),
    }
}

fn redispatch_decision(
    ticket: &AuthorityTicket,
    binding: &IdempotencyBinding,
    ordinal: u32,
    proof_ref: &str,
) -> RetryDecision {
    RetryDecision {
        action_id: ticket.action_id.clone(),
        idempotency_key: binding.key.clone(),
        verdict: RetryVerdict::RedispatchAllowed { ordinal },
        reasons: vec![RetryReason::ReconciliationConfirmedNoEffect],
        proof_refs: vec![proof_ref.into()],
    }
}

fn ledger() -> AttemptLedger {
    let ticket = ticket();
    let binding = binding(&ticket);
    AttemptLedger::new(ticket, binding).expect("valid ledger")
}

#[test]
fn initial_dispatch_becomes_attempt_zero() {
    let mut ledger = ledger();
    let expected_action = ledger.ticket.action_id.clone();
    let decision = initial_decision(&ledger.ticket, &ledger.binding);

    let attempt_id = ledger
        .record_dispatch(&decision, Timestamp::new(11), "proof:dispatch:0")
        .expect("initial dispatch should record")
        .id
        .clone();

    assert_eq!(attempt_id.ordinal, 0);
    assert_eq!(attempt_id.action_id, expected_action);
    assert_eq!(ledger.retry_context().redispatches_used, 0);
}

#[test]
fn unknown_attempt_cannot_be_redispatched_even_with_forged_allow() {
    let mut ledger = ledger();
    let initial = initial_decision(&ledger.ticket, &ledger.binding);
    ledger
        .record_dispatch(&initial, Timestamp::new(11), "proof:dispatch:0")
        .expect("initial dispatch");
    let forged = redispatch_decision(
        &ledger.ticket,
        &ledger.binding,
        1,
        "proof:made-up-resolution",
    );

    assert_eq!(
        ledger.record_dispatch(&forged, Timestamp::new(12), "proof:dispatch:1"),
        Err(AttemptBlock::PreviousAttemptNotRetrySafe)
    );
}

#[test]
fn no_effect_resolution_allows_next_physical_attempt_with_same_identity() {
    let mut ledger = ledger();
    let expected_action = ledger.ticket.action_id.clone();
    let initial = initial_decision(&ledger.ticket, &ledger.binding);
    ledger
        .record_dispatch(&initial, Timestamp::new(11), "proof:dispatch:0")
        .expect("initial dispatch");
    ledger
        .record_reconciliation(
            0,
            Timestamp::new(12),
            ReconciliationOutcome::NoEffectConfirmed,
            "proof:no-effect:0",
        )
        .expect("reconciliation");
    let retry = redispatch_decision(&ledger.ticket, &ledger.binding, 1, "proof:no-effect:0");

    let second_id = ledger
        .record_dispatch(&retry, Timestamp::new(13), "proof:dispatch:1")
        .expect("redispatch should record")
        .id
        .clone();

    assert_eq!(second_id.ordinal, 1);
    assert_eq!(second_id.action_id, expected_action);
    assert_eq!(ledger.binding.key, "idem:ledger:1");
    assert_eq!(ledger.retry_context().redispatches_used, 1);
}

#[test]
fn retry_decision_must_carry_previous_resolution_proof() {
    let mut ledger = ledger();
    let initial = initial_decision(&ledger.ticket, &ledger.binding);
    ledger
        .record_dispatch(&initial, Timestamp::new(11), "proof:dispatch:0")
        .expect("initial dispatch");
    ledger
        .record_reconciliation(
            0,
            Timestamp::new(12),
            ReconciliationOutcome::NoEffectConfirmed,
            "proof:no-effect:0",
        )
        .expect("reconciliation");
    let retry = redispatch_decision(&ledger.ticket, &ledger.binding, 1, "proof:wrong-resolution");

    assert_eq!(
        ledger.record_dispatch(&retry, Timestamp::new(13), "proof:dispatch:1"),
        Err(AttemptBlock::RetryProofLineageMissing)
    );
}

#[test]
fn retry_inputs_use_latest_attempt_and_derive_retry_count() {
    let mut ledger = ledger();
    let initial = initial_decision(&ledger.ticket, &ledger.binding);
    ledger
        .record_dispatch(&initial, Timestamp::new(11), "proof:dispatch:0")
        .expect("initial dispatch");
    ledger
        .record_reconciliation(
            0,
            Timestamp::new(12),
            ReconciliationOutcome::NoEffectConfirmed,
            "proof:no-effect:0",
        )
        .expect("reconciliation");
    let retry = redispatch_decision(&ledger.ticket, &ledger.binding, 1, "proof:no-effect:0");
    ledger
        .record_dispatch(&retry, Timestamp::new(13), "proof:dispatch:1")
        .expect("redispatch");
    ledger
        .record_reconciliation(
            1,
            Timestamp::new(14),
            ReconciliationOutcome::StillUnknown,
            "proof:still-unknown:1",
        )
        .expect("reconciliation");

    let (trace, reconciliation, context) = ledger.retry_inputs().expect("safe retry view");

    assert_eq!(
        trace.dispatch.expect("dispatch").proof_ref,
        "proof:dispatch:1"
    );
    assert_eq!(
        reconciliation.expect("reconciliation").outcome,
        ReconciliationOutcome::StillUnknown
    );
    assert_eq!(context.redispatches_used, 1);
}

#[test]
fn late_success_on_prior_attempt_blocks_future_retry_view() {
    let mut ledger = ledger();
    let initial = initial_decision(&ledger.ticket, &ledger.binding);
    ledger
        .record_dispatch(&initial, Timestamp::new(11), "proof:dispatch:0")
        .expect("initial dispatch");
    ledger
        .record_reconciliation(
            0,
            Timestamp::new(12),
            ReconciliationOutcome::NoEffectConfirmed,
            "proof:no-effect:0",
        )
        .expect("reconciliation");
    let retry = redispatch_decision(&ledger.ticket, &ledger.binding, 1, "proof:no-effect:0");
    ledger
        .record_dispatch(&retry, Timestamp::new(13), "proof:dispatch:1")
        .expect("redispatch");

    ledger
        .record_external_outcome(
            0,
            Timestamp::new(14),
            ExecutionOutcome::Succeeded,
            "proof:late-success:0",
        )
        .expect("late external evidence should be preserved");

    assert_eq!(
        ledger.retry_inputs(),
        Err(AttemptBlock::ConflictingEvidence)
    );
}

#[test]
fn contradictory_reconciliation_and_external_evidence_is_visible() {
    let mut ledger = ledger();
    let initial = initial_decision(&ledger.ticket, &ledger.binding);
    ledger
        .record_dispatch(&initial, Timestamp::new(11), "proof:dispatch:0")
        .expect("initial dispatch");
    ledger
        .record_reconciliation(
            0,
            Timestamp::new(12),
            ReconciliationOutcome::NoEffectConfirmed,
            "proof:no-effect:0",
        )
        .expect("reconciliation");
    ledger
        .record_external_outcome(
            0,
            Timestamp::new(13),
            ExecutionOutcome::Succeeded,
            "proof:success:0",
        )
        .expect("external evidence should be recorded");

    assert!(ledger.has_conflicting_evidence());
    assert_eq!(
        ledger.retry_inputs(),
        Err(AttemptBlock::ConflictingEvidence)
    );
}

#[test]
fn ledger_rejects_binding_of_another_action_and_orders_attempts() {
    let ticket = ticket();
    let other = AuthorityTicket {
        action_id: ActionId::new("action:ledger:other").expect("action"),
        ..ticket.clone()
    };
    let foreign = IdempotencyBinding::new(&other, "idem:other").expect("binding");
    assert_eq!(
        AttemptLedger::new(ticket, foreign),
        Err(AttemptBlock::IdempotencyActionMismatch)
    );
    let mut ledger = ledger();
    assert!(ledger.latest().is_none());
    let initial = initial_decision(&ledger.ticket, &ledger.binding);
    ledger
        .record_dispatch(&initial, Timestamp::new(11), "proof:dispatch:0")
        .expect("initial dispatch");
    assert_eq!(ledger.attempts().len(), 1);
    assert_eq!(
        ledger.latest().expect("latest").status(),
        AttemptStatus::DispatchedEffectUnknown
    );
}

#[test]
fn every_attempt_ordinal_is_its_position() {
    let mut ledger = ledger();
    let initial = initial_decision(&ledger.ticket, &ledger.binding);
    ledger
        .record_dispatch(&initial, Timestamp::new(11), "proof:dispatch:0")
        .expect("initial dispatch");
    ledger
        .record_reconciliation(
            0,
            Timestamp::new(12),
            ReconciliationOutcome::NoEffectConfirmed,
            "proof:no-effect:0",
        )
        .expect("reconciliation");
    let retry = redispatch_decision(&ledger.ticket, &ledger.binding, 1, "proof:no-effect:0");
    ledger
        .record_dispatch(&retry, Timestamp::new(13), "proof:dispatch:1")
        .expect("redispatch");
    ledger
        .record_external_outcome(1, Timestamp::new(14), ExecutionOutcome::Failed, "proof:failed:1")
        .expect("external outcome");

    for (position, attempt) in ledger.attempts().iter().enumerate() {
        assert_eq!(attempt.id.ordinal as usize, position);
    }
    assert_eq!(ledger.attempts().len(), 2);
}
