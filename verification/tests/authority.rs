use lifetra::authority::decide_authority;
use lifetra::{
    ApprovalState, AuthorityContext, AuthorityReason, AuthorityVerdict, AutonomyLevel,
    ExecutionMode,
};

fn context(approval: ApprovalState, quorum: usize) -> AuthorityContext {
    AuthorityContext {
        human_approval: approval,
        quorum_approvals: quorum,
    }
}

#[test]
fn insufficient_proof_blocks_even_with_approval() {
    assert_eq!(
        decide_authority(
            AutonomyLevel::BoundedAutomatic,
            2,
            0,
            false,
            1,
            false,
            false,
            context(ApprovalState::Approved, 5)
        ),
        (
            AuthorityVerdict::Block,
            vec![AuthorityReason::InsufficientProof]
        )
    );
}

#[test]
fn hard_envelope_blocks_even_when_approved_and_denial_blocks() {
    assert_eq!(
        decide_authority(
            AutonomyLevel::BoundedAutomatic,
            1,
            0,
            false,
            1,
            true,
            true,
            context(ApprovalState::Approved, 0)
        ),
        (
            AuthorityVerdict::Block,
            vec![AuthorityReason::OutsideHardEnvelope]
        )
    );
    assert_eq!(
        decide_authority(
            AutonomyLevel::BoundedAutomatic,
            1,
            0,
            false,
            1,
            false,
            false,
            context(ApprovalState::Denied, 0)
        ),
        (
            AuthorityVerdict::Block,
            vec![AuthorityReason::HumanApprovalDenied]
        )
    );
    assert_eq!(
        decide_authority(
            AutonomyLevel::ObserveOnly,
            1,
            0,
            false,
            1,
            false,
            false,
            context(ApprovalState::Approved, 0)
        ),
        (AuthorityVerdict::Block, vec![AuthorityReason::ObserveOnly])
    );
}

#[test]
fn small_correction_runs_automatically() {
    assert_eq!(
        decide_authority(
            AutonomyLevel::BoundedAutomatic,
            1,
            0,
            false,
            1,
            false,
            false,
            AuthorityContext::default()
        ),
        (AuthorityVerdict::Allow(ExecutionMode::Automatic), vec![])
    );
}

#[test]
fn soft_envelope_requires_a_human_then_runs_manually() {
    assert_eq!(
        decide_authority(
            AutonomyLevel::BoundedAutomatic,
            1,
            0,
            false,
            1,
            false,
            true,
            AuthorityContext::default()
        ),
        (
            AuthorityVerdict::RequireApproval,
            vec![
                AuthorityReason::OutsideAutonomousEnvelope,
                AuthorityReason::HumanApprovalRequired
            ]
        )
    );
    assert_eq!(
        decide_authority(
            AutonomyLevel::BoundedAutomatic,
            1,
            0,
            false,
            1,
            false,
            true,
            context(ApprovalState::Approved, 0)
        ),
        (
            AuthorityVerdict::Allow(ExecutionMode::ApprovedManual),
            vec![AuthorityReason::OutsideAutonomousEnvelope]
        )
    );
}

#[test]
fn quorum_is_pending_even_with_human_approval() {
    assert_eq!(
        decide_authority(
            AutonomyLevel::RecommendOnly,
            1,
            2,
            false,
            1,
            false,
            false,
            context(ApprovalState::Approved, 1)
        ),
        (
            AuthorityVerdict::RequireApproval,
            vec![AuthorityReason::RecommendOnly, AuthorityReason::QuorumPending]
        )
    );
}
