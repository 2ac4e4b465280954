use lifetra::{
    ActionId, AuthorityTicket, BeadId, DispatchReceipt, ExecutionMode, ExecutionOutcome,
    ExecutionTrace, ExternalExecutionReceipt, IdempotencyBinding, ReconciliationOutcome,
    ReconciliationReceipt, RetryAuthority, RetryBlock, RetryContext, RetryPolicy, RetryReason,
    RetryVerdict, Timestamp,
};

fn ticket() -> AuthorityTicket {
    AuthorityTicket {
        action_id: ActionId::new("action:retry:1").expect("valid id"),
        source_bead: BeadId::new("bead:retry:1"),
        execution_mode: ExecutionMode::Automatic,
        authority_proof_refs: vec!["proof:authority:1".into()],
        issued_at: Timestamp::new(10),
    }
}

fn binding(ticket: &AuthorityTicket) -> IdempotencyBinding {
    IdempotencyBinding::new(ticket, "idem:action:retry:1").expect("valid key")
}

fn dispatched_trace() -> ExecutionTrace {
    ExecutionTrace {
        ticket: ticket(),
        dispatch: Some(DispatchReceipt {
            action_id: ActionId::new("action:retry:1").expect("valid id"),
            dispatched_at: Timestamp::new(11),
            proof_ref: "proof:dispatch:1".into(),
        }),
        external: None,
    }
}

#[test]
fn initial_dispatch_is_allowed_without_reconciliation() {
    let trace = ExecutionTrace::new(ticket());
    let binding = binding(&trace.ticket);
    let authority = RetryAuthority::new(RetryPolicy::new(1, true, true));

    let decision = authority
        .evaluate(&trace, &binding, None, RetryContext::default())
        .expect("valid evaluation");

    assert_eq!(decision.verdict, RetryVerdict::InitialDispatchAllowed);
}

#[test]
fn unknown_after_dispatch_requires_reconciliation_before_retry() {
    let trace = dispatched_trace();
    let binding = binding(&trace.ticket);
    let authority = RetryAuthority::new(RetryPolicy::new(1, true, true));

    let decision = authority
        .evaluate(&trace, &binding, None, RetryContext::default())
        .expect("valid evaluation");

    assert_eq!(decision.verdict, RetryVerdict::ReconcileFirst);
    assert!(decision.reasons.contains(&RetryReason::ReconciliationRequired));
}

#[test]
fn still_unknown_reconciliation_never_authorizes_redispatch() {
    let trace = dispatched_trace();
    let binding = binding(&trace.ticket);
    let receipt = ReconciliationReceipt::new(
        trace.ticket.action_id.clone(),
        Timestamp::new(12),
        ReconciliationOutcome::StillUnknown,
        "proof:reconcile:unknown",
    )
    .expect("valid receipt");
    let authority = RetryAuthority::new(RetryPolicy::new(3, true, true));

    let decision = authority
        .evaluate(&trace, &binding, Some(&receipt), RetryContext::default())
        .expect("valid evaluation");

    assert_eq!(decision.verdict, RetryVerdict::ReconcileFirst);
}

#[test]
fn confirmed_no_effect_can_authorize_same_action_redispatch() {
    let trace = dispatched_trace();
    let binding = binding(&trace.ticket);
    let receipt = ReconciliationReceipt::new(
        trace.ticket.action_id.clone(),
        Timestamp::new(12),
        ReconciliationOutcome::NoEffectConfirmed,
        "proof:reconcile:no-effect",
    )
    .expect("valid receipt");
    let authority = RetryAuthority::new(RetryPolicy::new(2, false, true));

    let decision = authority
        .evaluate(&trace, &binding, Some(&receipt), RetryContext::default())
        .expect("valid evaluation");

    assert_eq!(decision.verdict, RetryVerdict::RedispatchAllowed { ordinal: 1 });
    assert_eq!(decision.action_id, trace.ticket.action_id);
    assert_eq!(decision.idempotency_key, "idem:action:retry:1");
}

#[test]
fn reconciliation_success_closes_action_instead_of_retrying() {
    let trace = dispatched_trace();
    let binding = binding(&trace.ticket);
    let receipt = ReconciliationReceipt::new(
        trace.ticket.action_id.clone(),
        Timestamp::new(12),
        ReconciliationOutcome::EffectSucceeded,
        "proof:reconcile:success",
    )
    .expect("valid receipt");
    let authority = RetryAuthority::new(RetryPolicy::new(4, true, true));

    let decision = authority
        .evaluate(&trace, &binding, Some(&receipt), RetryContext::default())
        .expect("valid evaluation");

    assert_eq!(decision.verdict, RetryVerdict::CloseSucceeded);
}

#[test]
fn confirmed_failure_is_retryable_only_when_policy_allows() {
    let mut trace = dispatched_trace();
    trace.external = Some(ExternalExecutionReceipt {
        action_id: trace.ticket.action_id.clone(),
        observed_at: Timestamp::new(12),
        outcome: ExecutionOutcome::Failed,
        proof_ref: "proof:external:failed".into(),
    });
    let binding = binding(&trace.ticket);

    let closed = RetryAuthority::new(RetryPolicy::new(2, false, true))
        .evaluate(&trace, &binding, None, RetryContext::default())
        .expect("valid evaluation");
    assert_eq!(closed.verdict, RetryVerdict::CloseFailed);

    let retry = RetryAuthority::new(RetryPolicy::new(2, true, true))
        .evaluate(&trace, &binding, None, RetryContext::default())
        .expect("valid evaluation");
    assert_eq!(retry.verdict, RetryVerdict::RedispatchAllowed { ordinal: 1 });
}

#[test]
fn retry_limit_blocks_further_redispatch() {
    let trace = dispatched_trace();
    let binding = binding(&trace.ticket);
    let receipt = ReconciliationReceipt::new(
        trace.ticket.action_id.clone(),
        Timestamp::new(12),
        ReconciliationOutcome::NoEffectConfirmed,
        "proof:reconcile:no-effect",
    )
    .expect("valid receipt");
    let authority = RetryAuthority::new(RetryPolicy::new(1, true, true));

    let decision = authority
        .evaluate(
            &trace,
            &binding,
            Some(&receipt),
            RetryContext {
                redispatches_used: 1,
            },
        )
        .expect("valid evaluation");

    assert_eq!(decision.verdict, RetryVerdict::Block);
    assert!(decision.reasons.contains(&RetryReason::RetryLimitReached));
}

#[test]
fn idempotency_binding_cannot_be_reused_for_another_action() {
    let trace = dispatched_trace();
    let other_ticket = AuthorityTicket {
        action_id: ActionId::new("action:other").expect("valid id"),
        ..ticket()
    };
    let wrong_binding = binding(&other_ticket);
    let authority = RetryAuthority::new(RetryPolicy::new(1, true, true));

    assert_eq!(
        authority.evaluate(&trace, &wrong_binding, None, RetryContext::default()),
        Err(RetryBlock::IdempotencyActionMismatch)
    );
}

#[test]
fn reconciliation_before_dispatch_and_foreign_receipts_are_refused() {
    let trace = dispatched_trace();
    let binding = binding(&trace.ticket);
    let early = ReconciliationReceipt::new(
        trace.ticket.action_id.clone(),
        Timestamp::new(10),
        ReconciliationOutcome::EffectFailed,
        "proof:early",
    )
    .expect("receipt");
    let authority = RetryAuthority::new(RetryPolicy::new(1, true, true));
    assert_eq!(
        authority.evaluate(&trace, &binding, Some(&early), RetryContext::default()),
        Err(RetryBlock::ReconciliationBeforeDispatch)
    );
    let foreign = ReconciliationReceipt::new(
        ActionId::new("action:other").unwrap(),
        Timestamp::new(12),
        ReconciliationOutcome::EffectFailed,
        "proof:foreign",
    )
    .expect("receipt");
    assert_eq!(
        authority.evaluate(&trace, &binding, Some(&foreign), RetryContext::default()),
        Err(RetryBlock::ReconciliationActionMismatch)
    );
    assert_eq!(
        ReconciliationReceipt::new(
            ActionId::new("action:x").unwrap(),
            Timestamp::new(1),
            ReconciliationOutcome::StillUnknown,
            " "
        ),
        Err(RetryBlock::EmptyReconciliationProof)
    );
    assert_eq!(
        IdempotencyBinding::new(&ticket(), ""),
        Err(RetryBlock::EmptyIdempotencyKey)
    );
}

#[test]
fn decisions_carry_the_evidence_that_justifies_them() {
    let trace = dispatched_trace();
    let binding = binding(&trace.ticket);
    let receipt = ReconciliationReceipt::new(
        trace.ticket.action_id.clone(),
        Timestamp::new(12),
        ReconciliationOutcome::EffectFailed,
        "proof:reconcile:failed",
    )
    .expect("receipt");
    let decision = RetryAuthority::new(RetryPolicy::new(1, false, true))
        .evaluate(&trace, &binding, Some(&receipt), RetryContext::default())
        .expect("evaluation");
    assert_eq!(decision.verdict, RetryVerdict::CloseFailed);
    assert_eq!(
        decision.reasons,
        vec![RetryReason::ReconciliationConfirmedFailure, RetryReason::RetryDisabled]
    );
    assert_eq!(
        decision.proof_refs,
        vec!["proof:dispatch:1".to_string(), "proof:reconcile:failed".to_string()]
    );
    let initial = RetryAuthority::new(RetryPolicy::new(1, true, true))
        .evaluate(&ExecutionTrace::new(ticket()), &binding, None, RetryContext::default())
        .expect("evaluation");
    assert_eq!(initial.proof_refs, vec!["proof:authority:1".to_string()]);
}
