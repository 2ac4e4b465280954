//! Vocabulary of decision authority: autonomy levels, approvals, verdicts,
//! execution modes and the hysteresis memory of correction policies.
use vstd::prelude::*;

verus! {

/// How much execution authority an agent is granted by policy.
#[derive(Debug, Clone, Copy, PartialEq, Eq, Structural)]
pub enum AutonomyLevel {
    /// The system may inspect and explain decisions but may not apply them.
    ObserveOnly,
    /// The system may recommend a correction, but execution requires approval.
    RecommendOnly,
    /// Small proof-backed corrections may execute automatically inside the envelope.
    BoundedAutomatic,
}

/// Explicit approval state. Unknown approval is not denial.
#[derive(Debug, Clone, Copy, PartialEq, Eq, Structural)]
pub enum ApprovalState {
    Unknown,
    Approved,
    Denied,
}

impl Default for ApprovalState {
    fn default() -> (s: Self)
        ensures
            s == ApprovalState::Unknown,
    {
        ApprovalState::Unknown
    }
}

/// Runtime authority context supplied by the surrounding system.
#[derive(Debug, Clone, Copy, PartialEq, Eq, Structural)]
pub struct AuthorityContext {
    pub human_approval: ApprovalState,
    pub quorum_approvals: usize,
}

impl Default for AuthorityContext {
    fn default() -> (c: Self)
        ensures
            c.human_approval == ApprovalState::Unknown,
            c.quorum_approvals == 0,
    {
        AuthorityContext { human_approval: ApprovalState::Unknown, quorum_approvals: 0 }
    }
}

#[derive(Debug, Clone, Copy, PartialEq, Eq, Structural)]
pub enum SafetyConfigBlock {
    InvalidEnvelope,
}

/// Why authority was reduced or denied.
#[derive(Debug, Clone, Copy, PartialEq, Eq, Structural)]
pub enum AuthorityReason {
    InsufficientProof,
    ObserveOnly,
    RecommendOnly,
    QuorumPending,
    HumanApprovalRequired,
    HumanApprovalDenied,
    OutsideAutonomousEnvelope,
    OutsideHardEnvelope,
}

/// How an allowed correction may be applied.
#[derive(Debug, Clone, Copy, PartialEq, Eq, Structural)]
pub enum ExecutionMode {
    Automatic,
    ApprovedManual,
}

#[derive(Debug, Clone, Copy, PartialEq, Eq, Structural)]
pub enum AuthorityVerdict {
    Allow(ExecutionMode),
    RequireApproval,
    Block,
}

/// Hysteresis memory for each orientation axis.
///
/// An engaged axis remains active until its absolute gap falls below the
/// release threshold. This avoids rapid on/off switching around one boundary.
#[derive(Debug, Clone, Copy, PartialEq, Eq, Structural)]
pub struct CorrectionMemory {
    pub growth_engaged: bool,
    pub stability_engaged: bool,
    pub truth_engaged: bool,
    pub connection_engaged: bool,
}

impl Default for CorrectionMemory {
    fn default() -> (m: Self)
        ensures
            !m.growth_engaged && !m.stability_engaged && !m.truth_engaged
                && !m.connection_engaged,
    {
        CorrectionMemory {
            growth_engaged: false,
            stability_engaged: false,
            truth_engaged: false,
            connection_engaged: false,
        }
    }
}

#[derive(Debug, Clone, Copy, PartialEq, Eq, Structural)]
pub enum CorrectionBlock {
    InvalidPolicy,
    MissingProof,
}

#[derive(Debug, Clone, Copy, PartialEq, Eq, Structural)]
pub enum OrientationBlock {
    MissingProof,
}

/// The verdict and reasons of decision authority over one correction: from
/// the envelope's policy (autonomy, proofs and quorum required, whether a
/// human must approve), the proofs the correction carries, whether its
/// largest adjustment leaves the hard and the autonomous envelope, and the
/// runtime context.
///
/// Missing proof and the hard envelope block whatever the approval; a denial
/// blocks; observe-only blocks; otherwise pending quorum or pending human
/// approval asks for approval, and what remains is allowed, manually where a
/// human had to approve.
pub open spec fn authority_outcome(
    autonomy: AutonomyLevel,
    min_proof_refs: nat,
    quorum_required: nat,
    require_human_approval: bool,
    proof_count: nat,
    outside_hard: bool,
    outside_autonomous: bool,
    context: AuthorityContext,
) -> (AuthorityVerdict, Seq<AuthorityReason>) {
    if proof_count < min_proof_refs {
        (AuthorityVerdict::Block, seq![AuthorityReason::InsufficientProof])
    } else if outside_hard {
        (AuthorityVerdict::Block, seq![AuthorityReason::OutsideHardEnvelope])
    } else if context.human_approval == ApprovalState::Denied {
        (AuthorityVerdict::Block, seq![AuthorityReason::HumanApprovalDenied])
    } else if autonomy == AutonomyLevel::ObserveOnly {
        (AuthorityVerdict::Block, seq![AuthorityReason::ObserveOnly])
    } else {
        let quorum_pending = context.quorum_approvals < quorum_required;
        let needs_human = require_human_approval || autonomy == AutonomyLevel::RecommendOnly
            || outside_autonomous;
        let human_pending = needs_human && context.human_approval != ApprovalState::Approved;
        let reasons = (if autonomy == AutonomyLevel::RecommendOnly {
            seq![AuthorityReason::RecommendOnly]
        } else {
            Seq::empty()
        }) + (if quorum_pending {
            seq![AuthorityReason::QuorumPending]
        } else {
            Seq::empty()
        }) + (if outside_autonomous {
            seq![AuthorityReason::OutsideAutonomousEnvelope]
        } else {
            Seq::empty()
        }) + (if human_pending {
            seq![AuthorityReason::HumanApprovalRequired]
        } else {
            Seq::empty()
        });
        if quorum_pending || human_pending {
            (AuthorityVerdict::RequireApproval, reasons)
        } else {
            (
                AuthorityVerdict::Allow(
                    if needs_human {
                        ExecutionMode::ApprovedManual
                    } else {
                        ExecutionMode::Automatic
                    },
                ),
                reasons,
            )
        }
    }
}

/// Decides decision authority over one correction; see `authority_outcome`.
pub fn decide_authority(
    autonomy: AutonomyLevel,
    min_proof_refs: usize,
    quorum_required: usize,
    require_human_approval: bool,
    proof_count: usize,
    outside_hard: bool,
    outside_autonomous: bool,
    context: AuthorityContext,
) -> (r: (AuthorityVerdict, Vec<AuthorityReason>))
    ensures
        (r.0, r.1@) == authority_outcome(
            autonomy,
            min_proof_refs as nat,
            quorum_required as nat,
            require_human_approval,
            proof_count as nat,
            outside_hard,
            outside_autonomous,
            context,
        ),
{
    if proof_count < min_proof_refs {
        return (AuthorityVerdict::Block, vec![AuthorityReason::InsufficientProof]);
    }
    if outside_hard {
        return (AuthorityVerdict::Block, vec![AuthorityReason::OutsideHardEnvelope]);
    }
    if context.human_approval == ApprovalState::Denied {
        return (AuthorityVerdict::Block, vec![AuthorityReason::HumanApprovalDenied]);
    }
    if autonomy == AutonomyLevel::ObserveOnly {
        return (AuthorityVerdict::Block, vec![AuthorityReason::ObserveOnly]);
    }
    let quorum_pending = context.quorum_approvals < quorum_required;
    let needs_human = require_human_approval || autonomy == AutonomyLevel::RecommendOnly
        || outside_autonomous;
    let human_pending = needs_human && context.human_approval != ApprovalState::Approved;
    let mut reasons: Vec<AuthorityReason> = Vec::new();
    let ghost r0 = reasons@;
    if autonomy == AutonomyLevel::RecommendOnly {
        reasons.push(AuthorityReason::RecommendOnly);
    }
    let ghost r1 = reasons@;
    if quorum_pending {
        reasons.push(AuthorityReason::QuorumPending);
    }
    let ghost r2 = reasons@;
    if outside_autonomous {
        reasons.push(AuthorityReason::OutsideAutonomousEnvelope);
    }
    let ghost r3 = reasons@;
    if human_pending {
        reasons.push(AuthorityReason::HumanApprovalRequired);
    }
    proof {
        let expected = authority_outcome(
            autonomy,
            min_proof_refs as nat,
            quorum_required as nat,
            require_human_approval,
            proof_count as nat,
            outside_hard,
            outside_autonomous,
            context,
        ).1;
        let a = if autonomy == AutonomyLevel::RecommendOnly {
            seq![AuthorityReason::RecommendOnly]
        } else {
            Seq::empty()
        };
        let b = if quorum_pending {
            seq![AuthorityReason::QuorumPending]
        } else {
            Seq::empty()
        };
        let c = if outside_autonomous {
            seq![AuthorityReason::OutsideAutonomousEnvelope]
        } else {
            Seq::empty()
        };
        let d = if human_pending {
            seq![AuthorityReason::HumanApprovalRequired]
        } else {
            Seq::empty()
        };
        assert(r1 =~= a);
        assert(r2 =~= a + b);
        assert(r3 =~= a + b + c);
        assert(reasons@ =~= a + b + c + d);
        assert(expected == a + b + c + d);
    }
    if quorum_pending || human_pending {
        return (AuthorityVerdict::RequireApproval, reasons);
    }
    let execution = if needs_human {
        ExecutionMode::ApprovedManual
    } else {
        ExecutionMode::Automatic
    };
    (AuthorityVerdict::Allow(execution), reasons)
}

/// Approval cannot turn missing proof into proof or override the hard
/// envelope: either blocks whatever the approval and the quorum.
pub proof fn law_approval_never_overrides_proof_or_hard_envelope(
    autonomy: AutonomyLevel,
    min_proof_refs: nat,
    quorum_required: nat,
    require_human_approval: bool,
    proof_count: nat,
    outside_hard: bool,
    outside_autonomous: bool,
    context: AuthorityContext,
)
    requires
        proof_count < min_proof_refs || outside_hard,
    ensures
        authority_outcome(
            autonomy,
            min_proof_refs,
            quorum_required,
            require_human_approval,
            proof_count,
            outside_hard,
            outside_autonomous,
            context,
        ).0 == AuthorityVerdict::Block,
{
}

/// Unknown approval is not denial: it never yields the denial reason, and it
/// blocks only for missing proof, the hard envelope or observe-only autonomy.
pub proof fn law_unknown_approval_is_not_denial(
    autonomy: AutonomyLevel,
    min_proof_refs: nat,
    quorum_required: nat,
    require_human_approval: bool,
    proof_count: nat,
    outside_hard: bool,
    outside_autonomous: bool,
    context: AuthorityContext,
)
    requires
        context.human_approval == ApprovalState::Unknown,
    ensures
        ({
            let (verdict, reasons) = authority_outcome(
                autonomy,
                min_proof_refs,
                quorum_required,
                require_human_approval,
                proof_count,
                outside_hard,
                outside_autonomous,
                context,
            );
            &&& !reasons.contains(AuthorityReason::HumanApprovalDenied)
            &&& verdict == AuthorityVerdict::Block ==> (proof_count < min_proof_refs || outside_hard
                || autonomy == AutonomyLevel::ObserveOnly)
        }),
{
    let (verdict, reasons) = authority_outcome(
        autonomy,
        min_proof_refs,
        quorum_required,
        require_human_approval,
        proof_count,
        outside_hard,
        outside_autonomous,
        context,
    );
    if reasons.contains(AuthorityReason::HumanApprovalDenied) {
        let k = choose|k: int| 0 <= k < reasons.len() && reasons[k] == AuthorityReason::HumanApprovalDenied;
        assert(reasons[k] != AuthorityReason::HumanApprovalDenied);
    }
}

/// Pending quorum is independent of human approval: while fewer approvals than
/// the quorum are in, nothing is allowed, approved or not.
pub proof fn law_quorum_is_independent_from_human_approval(
    autonomy: AutonomyLevel,
    min_proof_refs: nat,
    quorum_required: nat,
    require_human_approval: bool,
    proof_count: nat,
    outside_hard: bool,
    outside_autonomous: bool,
    context: AuthorityContext,
)
    requires
        context.quorum_approvals < quorum_required,
    ensures
        !(authority_outcome(
            autonomy,
            min_proof_refs,
            quorum_required,
            require_human_approval,
            proof_count,
            outside_hard,
            outside_autonomous,
            context,
        ).0 is Allow),
{
}

} // verus!
