use lifetra::{
    ActionId, ApprovalState, AuthorityTicket, AuthorityVerdict, BeadId, ExecutionBlock,
    ExecutionMode, ExecutionOutcome, ExecutionStatus, ExecutionTrace, Timestamp,
};

/// The verdict, bead and proof references of an allowed authority decision
/// about a proof-backed movement.
fn allowed_authority() -> (AuthorityVerdict, BeadId, Vec<String>) {
    (
        AuthorityVerdict::Allow(ExecutionMode::Automatic),
        BeadId::new("bead:execution:1"),
        vec!["proof:movement:1".to_string()],
    )
}

fn issue(action: &str) -> AuthorityTicket {
    let (verdict, bead, refs) = allowed_authority();
    AuthorityTicket::issue(
        ActionId::new(action).expect("valid id"),
        verdict,
        &bead,
        &refs,
        Timestamp::new(10),
    )
    .expect("allowed decision should issue ticket")
}

#[test]
fn ticket_can_only_be_issued_from_allow() {
    let (_, bead, refs) = allowed_authority();

    let result = AuthorityTicket::issue(
        ActionId::new("action:1").expect("valid id"),
        AuthorityVerdict::RequireApproval,
        &bead,
        &refs,
        Timestamp::new(10),
    );

    assert_eq!(result, Err(ExecutionBlock::AuthorityDidNotAllow));
}

#[test]
fn ticket_preserves_action_identity_and_authority_lineage() {
    let ticket = issue("action:42");

    assert_eq!(ticket.action_id.as_str(), "action:42");
    assert_eq!(ticket.source_bead.as_str(), "bead:execution:1");
    assert_eq!(ticket.authority_proof_refs, vec!["proof:movement:1"]);
}

#[test]
fn dispatch_does_not_imply_external_success() {
    let mut trace = ExecutionTrace::new(issue("action:dispatch"));

    trace
        .record_dispatch(Timestamp::new(11), "proof:dispatch:1")
        .expect("dispatch should record");

    assert_eq!(trace.status(), ExecutionStatus::DispatchedEffectUnknown);
    assert!(trace.external.is_none());
}

#[test]
fn external_outcome_requires_dispatch_first() {
    let mut trace = ExecutionTrace::new(issue("action:no-dispatch"));

    assert_eq!(
        trace.record_external_outcome(
            Timestamp::new(12),
            ExecutionOutcome::Succeeded,
            "proof:external:1",
        ),
        Err(ExecutionBlock::DispatchNotRecorded)
    );
}

#[test]
fn external_receipt_confirms_success_or_failure_without_changing_identity() {
    let mut trace = ExecutionTrace::new(issue("action:resolved"));
    trace
        .record_dispatch(Timestamp::new(11), "proof:dispatch:resolved")
        .expect("dispatch should record");
    let external = trace
        .record_external_outcome(
            Timestamp::new(12),
            ExecutionOutcome::Failed,
            "proof:external:failed",
        )
        .expect("outcome should record");

    assert_eq!(external.action_id.as_str(), "action:resolved");
    assert_eq!(
        trace.status(),
        ExecutionStatus::EffectConfirmed(ExecutionOutcome::Failed)
    );
}

#[test]
fn duplicate_or_temporally_invalid_receipts_are_rejected() {
    let mut trace = ExecutionTrace::new(issue("action:strict"));

    assert_eq!(
        trace.record_dispatch(Timestamp::new(9), "proof:too-early"),
        Err(ExecutionBlock::TemporalOrderViolation)
    );
    trace
        .record_dispatch(Timestamp::new(11), "proof:dispatch")
        .expect("valid dispatch");
    assert_eq!(
        trace.record_dispatch(Timestamp::new(12), "proof:dispatch:duplicate"),
        Err(ExecutionBlock::DispatchAlreadyRecorded)
    );
    assert_eq!(
        trace.record_external_outcome(
            Timestamp::new(10),
            ExecutionOutcome::Succeeded,
            "proof:too-early:external",
        ),
        Err(ExecutionBlock::TemporalOrderViolation)
    );
}

#[test]
fn approval_state_is_not_used_as_execution_proof() {
    let trace = ExecutionTrace::new(issue("action:approval-boundary"));

    let approval = ApprovalState::Approved;
    assert_eq!(approval, ApprovalState::Approved);
    assert_eq!(trace.status(), ExecutionStatus::AuthorizedNotDispatched);
}

#[test]
fn ticket_keeps_the_allowed_execution_mode() {
    let ticket = AuthorityTicket::issue(
        ActionId::new("action:manual").expect("valid id"),
        AuthorityVerdict::Allow(ExecutionMode::ApprovedManual),
        &BeadId::new("bead:manual"),
        &vec![],
        Timestamp::new(3),
    )
    .expect("allowed");
    assert_eq!(ticket.execution_mode, ExecutionMode::ApprovedManual);
    assert_eq!(ticket.issued_at, Timestamp::new(3));
    assert_eq!(
        AuthorityTicket::issue(
            ActionId::new("action:blocked").expect("valid id"),
            AuthorityVerdict::Block,
            &BeadId::new("bead:blocked"),
            &vec![],
            Timestamp::new(3),
        ),
        Err(ExecutionBlock::AuthorityDidNotAllow)
    );
}
