//! Retry and reconciliation authority for one logical action identity.
//!
//! A dispatched action whose effect is unknown is never blindly retried: it
//! must first be reconciled, and only confirmed failure or confirmed absence of
//! the effect can open a redispatch, within the policy's redispatch budget.
use vstd::prelude::*;

use crate::execution_receipt::{
    ActionId, AuthorityTicket, ExecutionOutcome, ExecutionStatus, ExecutionTrace,
};
use crate::primitives::Timestamp;
use crate::text::{blank, copy_texts, is_blank};

verus! {

/// Provider-facing idempotency key permanently bound to one logical action.
#[derive(Debug, PartialEq, Eq)]
pub struct IdempotencyBinding {
    pub action_id: ActionId,
    pub key: String,
}

impl IdempotencyBinding {
    pub fn new(ticket: &AuthorityTicket, key: &str) -> (r: Result<Self, RetryBlock>)
        ensures
            match r {
                Ok(b) => !blank(key@) && b.action_id == ticket.action_id && b.key@ == key@,
                Err(e) => blank(key@) && e == RetryBlock::EmptyIdempotencyKey,
            },
    {
        if is_blank(key) {
            return Err(RetryBlock::EmptyIdempotencyKey);
        }
        Ok(IdempotencyBinding { action_id: ticket.action_id.clone(), key: key.to_owned() })
    }
}

impl Clone for IdempotencyBinding {
    fn clone(&self) -> (r: Self)
        ensures
            r == *self,
    {
        IdempotencyBinding { action_id: self.action_id.clone(), key: self.key.clone() }
    }
}

/// Externally reconciled state for an already-dispatched action.
///
/// `NoEffectConfirmed` is deliberately stronger than a generic "not found".
/// It should only be used when provider semantics and external proof establish
/// that the side effect did not occur.
#[derive(Debug, Clone, Copy, PartialEq, Eq, Structural)]
pub enum ReconciliationOutcome {
    EffectSucceeded,
    EffectFailed,
    NoEffectConfirmed,
    StillUnknown,
}

#[derive(Debug, PartialEq, Eq)]
pub struct ReconciliationReceipt {
    pub action_id: ActionId,
    pub observed_at: Timestamp,
    pub outcome: ReconciliationOutcome,
    pub proof_ref: String,
}

impl ReconciliationReceipt {
    pub fn new(
        action_id: ActionId,
        observed_at: Timestamp,
        outcome: ReconciliationOutcome,
        proof_ref: &str,
    ) -> (r: Result<Self, RetryBlock>)
        ensures
            match r {
                Ok(receipt) => {
                    &&& !blank(proof_ref@)
                    &&& receipt.action_id == action_id
                    &&& receipt.observed_at == observed_at
                    &&& receipt.outcome == outcome
                    &&& receipt.proof_ref@ == proof_ref@
                },
                Err(e) => blank(proof_ref@) && e == RetryBlock::EmptyReconciliationProof,
            },
    {
        if is_blank(proof_ref) {
            return Err(RetryBlock::EmptyReconciliationProof);
        }
        Ok(ReconciliationReceipt { action_id, observed_at, outcome, proof_ref: proof_ref.to_owned() })
    }
}

impl Clone for ReconciliationReceipt {
    fn clone(&self) -> (r: Self)
        ensures
            r == *self,
    {
        ReconciliationReceipt {
            action_id: self.action_id.clone(),
            observed_at: self.observed_at,
            outcome: self.outcome,
            proof_ref: self.proof_ref.clone(),
        }
    }
}

/// Explicit retry policy. A confirmed failure is not automatically retryable.
#[derive(Debug, Clone, Copy, PartialEq, Eq, Structural)]
pub struct RetryPolicy {
    pub max_redispatches: u32,
    pub allow_after_confirmed_failure: bool,
    pub allow_after_confirmed_no_effect: bool,
}

impl RetryPolicy {
    pub fn new(
        max_redispatches: u32,
        allow_after_confirmed_failure: bool,
        allow_after_confirmed_no_effect: bool,
    ) -> (p: Self)
        ensures
            p.max_redispatches == max_redispatches,
            p.allow_after_confirmed_failure == allow_after_confirmed_failure,
            p.allow_after_confirmed_no_effect == allow_after_confirmed_no_effect,
    {
        RetryPolicy { max_redispatches, allow_after_confirmed_failure, allow_after_confirmed_no_effect }
    }
}

#[derive(Debug, Clone, Copy, PartialEq, Eq, Structural)]
pub struct RetryContext {
    pub redispatches_used: u32,
}

impl Default for RetryContext {
    fn default() -> (c: Self)
        ensures
            c.redispatches_used == 0,
    {
        RetryContext { redispatches_used: 0 }
    }
}

#[derive(Debug, Clone, Copy, PartialEq, Eq, Structural)]
pub enum RetryVerdict {
    InitialDispatchAllowed,
    ReconcileFirst,
    RedispatchAllowed { ordinal: u32 },
    CloseSucceeded,
    CloseFailed,
    Block,
}

#[derive(Debug, Clone, Copy, PartialEq, Eq, Structural)]
pub enum RetryReason {
    AuthorizedNotDispatched,
    EffectUnknown,
    ReconciliationRequired,
    ReconciliationStillUnknown,
    ReconciliationConfirmedSuccess,
    ReconciliationConfirmedFailure,
    ReconciliationConfirmedNoEffect,
    ExternalConfirmedSuccess,
    ExternalConfirmedFailure,
    RetryDisabled,
    RetryLimitReached,
}

#[derive(Debug, Clone, Copy, PartialEq, Eq, Structural)]
pub enum RetryBlock {
    EmptyIdempotencyKey,
    EmptyReconciliationProof,
    IdempotencyActionMismatch,
    ReconciliationActionMismatch,
    ReconciliationBeforeDispatch,
}

/// Auditable retry/reconciliation result for one logical action identity.
#[derive(Debug, PartialEq, Eq)]
pub struct RetryDecision {
    pub action_id: ActionId,
    pub idempotency_key: String,
    pub verdict: RetryVerdict,
    pub reasons: Vec<RetryReason>,
    pub proof_refs: Vec<String>,
}

/// A copy of a list of retry reasons.
pub fn copy_reasons(v: &Vec<RetryReason>) -> (r: Vec<RetryReason>)
    ensures
        r@ == v@,
{
    let mut r: Vec<RetryReason> = Vec::new();
    let mut i: usize = 0;
    while i < v.len()
        invariant
            i <= v.len(),
            r@ == v@.subrange(0, i as int),
        decreases v.len() - i,
    {
        r.push(v[i]);
        i = i + 1;
    }
    assert(r@ =~= v@);
    r
}


/// A list holding exactly the given reasons.
fn reasons_of(first: RetryReason, second: Option<RetryReason>) -> (r: Vec<RetryReason>)
    ensures
        r@ == match second {
            Some(s) => seq![first, s],
            None => seq![first],
        },
{
    let mut r: Vec<RetryReason> = Vec::new();
    r.push(first);
    if let Some(s) = second {
        r.push(s);
    }
    assert(r@ =~= match second {
        Some(s) => seq![first, s],
        None => seq![first],
    });
    r
}

/// A list holding copies of the given proof references.
pub fn texts_of(first: &String, second: Option<&String>) -> (r: Vec<String>)
    ensures
        r@ == match second {
            Some(s) => seq![*first, *s],
            None => seq![*first],
        },
{
    let mut r: Vec<String> = Vec::new();
    r.push(first.clone());
    if let Some(s) = second {
        r.push(s.clone());
    }
    assert(r@ =~= match second {
        Some(s) => seq![*first, *s],
        None => seq![*first],
    });
    r
}

impl Clone for RetryDecision {
    fn clone(&self) -> (r: Self)
        ensures
            r.action_id == self.action_id,
            r.idempotency_key == self.idempotency_key,
            r.verdict == self.verdict,
            r.reasons@ == self.reasons@,
            r.proof_refs@ == self.proof_refs@,
    {
        RetryDecision {
            action_id: self.action_id.clone(),
            idempotency_key: self.idempotency_key.clone(),
            verdict: self.verdict,
            reasons: copy_reasons(&self.reasons),
            proof_refs: copy_texts(&self.proof_refs),
        }
    }
}

/// The verdict, reasons and proof references of a retry decision.
pub type DecisionBody = (RetryVerdict, Seq<RetryReason>, Seq<String>);

/// After confirmed failure or confirmed absence of the effect: close when retry
/// is disabled, block when the redispatch budget is spent, else allow the next
/// physical attempt.
pub open spec fn retry_or_close_body(
    policy: RetryPolicy,
    context: RetryContext,
    retry_enabled: bool,
    evidence_reason: RetryReason,
    proof_refs: Seq<String>,
) -> DecisionBody {
    if !retry_enabled {
        (RetryVerdict::CloseFailed, seq![evidence_reason, RetryReason::RetryDisabled], proof_refs)
    } else if context.redispatches_used >= policy.max_redispatches {
        (RetryVerdict::Block, seq![evidence_reason, RetryReason::RetryLimitReached], proof_refs)
    } else {
        (
            RetryVerdict::RedispatchAllowed { ordinal: (context.redispatches_used + 1) as u32 },
            seq![evidence_reason],
            proof_refs,
        )
    }
}

/// What `RetryAuthority::evaluate` decides for a trace, binding, optional
/// reconciliation receipt and retry context.
pub open spec fn retry_evaluation(
    policy: RetryPolicy,
    trace: ExecutionTrace,
    binding: IdempotencyBinding,
    reconciliation: Option<ReconciliationReceipt>,
    context: RetryContext,
) -> Result<DecisionBody, RetryBlock> {
    if binding.action_id@ != trace.ticket.action_id@ {
        Err(RetryBlock::IdempotencyActionMismatch)
    } else {
        match trace.spec_status() {
            ExecutionStatus::AuthorizedNotDispatched => Ok(
                (
                    RetryVerdict::InitialDispatchAllowed,
                    seq![RetryReason::AuthorizedNotDispatched],
                    trace.ticket.authority_proof_refs@,
                ),
            ),
            ExecutionStatus::EffectConfirmed(ExecutionOutcome::Succeeded) => Ok(
                (
                    RetryVerdict::CloseSucceeded,
                    seq![RetryReason::ExternalConfirmedSuccess],
                    seq![trace.external->0.proof_ref],
                ),
            ),
            ExecutionStatus::EffectConfirmed(ExecutionOutcome::Failed) => Ok(
                retry_or_close_body(
                    policy,
                    context,
                    policy.allow_after_confirmed_failure,
                    RetryReason::ExternalConfirmedFailure,
                    seq![trace.external->0.proof_ref],
                ),
            ),
            ExecutionStatus::DispatchedEffectUnknown => {
                let dispatch = trace.dispatch->0;
                match reconciliation {
                    None => Ok(
                        (
                            RetryVerdict::ReconcileFirst,
                            seq![RetryReason::EffectUnknown, RetryReason::ReconciliationRequired],
                            seq![dispatch.proof_ref],
                        ),
                    ),
                    Some(receipt) => if receipt.action_id@ != trace.ticket.action_id@ {
                        Err(RetryBlock::ReconciliationActionMismatch)
                    } else if receipt.observed_at@ < dispatch.dispatched_at@ {
                        Err(RetryBlock::ReconciliationBeforeDispatch)
                    } else {
                        let proofs = seq![dispatch.proof_ref, receipt.proof_ref];
                        match receipt.outcome {
                            ReconciliationOutcome::StillUnknown => Ok(
                                (
                                    RetryVerdict::ReconcileFirst,
                                    seq![RetryReason::ReconciliationStillUnknown],
                                    proofs,
                                ),
                            ),
                            ReconciliationOutcome::EffectSucceeded => Ok(
                                (
                                    RetryVerdict::CloseSucceeded,
                                    seq![RetryReason::ReconciliationConfirmedSuccess],
                                    proofs,
                                ),
                            ),
                            ReconciliationOutcome::EffectFailed => Ok(
                                retry_or_close_body(
                                    policy,
                                    context,
                                    policy.allow_after_confirmed_failure,
                                    RetryReason::ReconciliationConfirmedFailure,
                                    proofs,
                                ),
                            ),
                            ReconciliationOutcome::NoEffectConfirmed => Ok(
                                retry_or_close_body(
                                    policy,
                                    context,
                                    policy.allow_after_confirmed_no_effect,
                                    RetryReason::ReconciliationConfirmedNoEffect,
                                    proofs,
                                ),
                            ),
                        }
                    },
                }
            },
        }
    }
}

#[derive(Debug, Clone, Copy, PartialEq, Eq, Structural)]
pub struct RetryAuthority {
    pub policy: RetryPolicy,
}

impl RetryAuthority {
    pub fn new(policy: RetryPolicy) -> (a: Self)
        ensures
            a.policy == policy,
    {
        RetryAuthority { policy }
    }

    /// Decides whether the same logical action may be dispatched again.
    ///
    /// A dispatched action with unknown effect is never blindly retried. It
    /// must first receive a reconciliation receipt. `StillUnknown` keeps the
    /// action in reconcile-first state.
    pub fn evaluate(
        &self,
        trace: &ExecutionTrace,
        binding: &IdempotencyBinding,
        reconciliation: Option<&ReconciliationReceipt>,
        context: RetryContext,
    ) -> (r: Result<RetryDecision, RetryBlock>)
        ensures
            match r {
                Ok(d) => {
                    &&& d.action_id == trace.ticket.action_id
                    &&& d.idempotency_key == binding.key
                    &&& retry_evaluation(
                        self.policy,
                        *trace,
                        *binding,
                        match reconciliation {
                            Some(rc) => Some(*rc),
                            None => None,
                        },
                        context,
                    ) == Ok::<DecisionBody, RetryBlock>((d.verdict, d.reasons@, d.proof_refs@))
                },
                Err(e) => retry_evaluation(
                    self.policy,
                    *trace,
                    *binding,
                    match reconciliation {
                        Some(rc) => Some(*rc),
                        None => None,
                    },
                    context,
                ) == Err::<DecisionBody, RetryBlock>(e),
            },
    {
        if binding.action_id != trace.ticket.action_id {
            return Err(RetryBlock::IdempotencyActionMismatch);
        }
        let action_id = trace.ticket.action_id.clone();
        let key = binding.key.clone();
        match (&trace.dispatch, &trace.external) {
            (_, Some(external)) => {
                match external.outcome {
                    ExecutionOutcome::Succeeded => Ok(
                        RetryDecision {
                            action_id,
                            idempotency_key: key,
                            verdict: RetryVerdict::CloseSucceeded,
                            reasons: reasons_of(RetryReason::ExternalConfirmedSuccess, None),
                            proof_refs: texts_of(&external.proof_ref, None),
                        },
                    ),
                    ExecutionOutcome::Failed => Ok(
                        self.retry_or_close(
                            action_id,
                            key,
                            context,
                            self.policy.allow_after_confirmed_failure,
                            RetryReason::ExternalConfirmedFailure,
                            texts_of(&external.proof_ref, None),
                        ),
                    ),
                }
            },
            (None, None) => Ok(
                RetryDecision {
                    action_id,
                    idempotency_key: key,
                    verdict: RetryVerdict::InitialDispatchAllowed,
                    reasons: reasons_of(RetryReason::AuthorizedNotDispatched, None),
                    proof_refs: copy_texts(&trace.ticket.authority_proof_refs),
                },
            ),
            (Some(dispatch), None) => {
                let receipt = match reconciliation {
                    None => {
                        return Ok(
                            RetryDecision {
                                action_id,
                                idempotency_key: key,
                                verdict: RetryVerdict::ReconcileFirst,
                                reasons: reasons_of(RetryReason::EffectUnknown, Some(RetryReason::ReconciliationRequired)),
                                proof_refs: texts_of(&dispatch.proof_ref, None),
                            },
                        );
                    },
                    Some(receipt) => receipt,
                };
                if receipt.action_id != trace.ticket.action_id {
                    return Err(RetryBlock::ReconciliationActionMismatch);
                }
                if receipt.observed_at.epoch_seconds() < dispatch.dispatched_at.epoch_seconds() {
                    return Err(RetryBlock::ReconciliationBeforeDispatch);
                }
                let proofs = texts_of(&dispatch.proof_ref, Some(&receipt.proof_ref));
                match receipt.outcome {
                    ReconciliationOutcome::StillUnknown => Ok(
                        RetryDecision {
                            action_id,
                            idempotency_key: key,
                            verdict: RetryVerdict::ReconcileFirst,
                            reasons: reasons_of(RetryReason::ReconciliationStillUnknown, None),
                            proof_refs: proofs,
                        },
                    ),
                    ReconciliationOutcome::EffectSucceeded => Ok(
                        RetryDecision {
                            action_id,
                            idempotency_key: key,
                            verdict: RetryVerdict::CloseSucceeded,
                            reasons: reasons_of(RetryReason::ReconciliationConfirmedSuccess, None),
                            proof_refs: proofs,
                        },
                    ),
                    ReconciliationOutcome::EffectFailed => Ok(
                        self.retry_or_close(
                            action_id,
                            key,
                            context,
                            self.policy.allow_after_confirmed_failure,
                            RetryReason::ReconciliationConfirmedFailure,
                            proofs,
                        ),
                    ),
                    ReconciliationOutcome::NoEffectConfirmed => Ok(
                        self.retry_or_close(
                            action_id,
                            key,
                            context,
                            self.policy.allow_after_confirmed_no_effect,
                            RetryReason::ReconciliationConfirmedNoEffect,
                            proofs,
                        ),
                    ),
                }
            },
        }
    }

    fn retry_or_close(
        &self,
        action_id: ActionId,
        idempotency_key: String,
        context: RetryContext,
        retry_enabled: bool,
        evidence_reason: RetryReason,
        proof_refs: Vec<String>,
    ) -> (d: RetryDecision)
        ensures
            d.action_id == action_id,
            d.idempotency_key == idempotency_key,
            (d.verdict, d.reasons@, d.proof_refs@) == retry_or_close_body(
                self.policy,
                context,
                retry_enabled,
                evidence_reason,
                proof_refs@,
            ),
    {
        if !retry_enabled {
            return RetryDecision {
                action_id,
                idempotency_key,
                verdict: RetryVerdict::CloseFailed,
                reasons: reasons_of(evidence_reason, Some(RetryReason::RetryDisabled)),
                proof_refs,
            };
        }
        if context.redispatches_used >= self.policy.max_redispatches {
            return RetryDecision {
                action_id,
                idempotency_key,
                verdict: RetryVerdict::Block,
                reasons: reasons_of(evidence_reason, Some(RetryReason::RetryLimitReached)),
                proof_refs,
            };
        }
        RetryDecision {
            action_id,
            idempotency_key,
            verdict: RetryVerdict::RedispatchAllowed { ordinal: context.redispatches_used + 1 },
            reasons: reasons_of(evidence_reason, None),
            proof_refs,
        }
    }
}

/// A redispatch is allowed only after a dispatch whose effect is confirmed
/// failed (externally or by reconciliation) with retry after failure enabled,
/// or reconciled as having had no effect with retry after no effect enabled;
/// only while the redispatch budget is not spent; and always as the attempt
/// one past the redispatches already used.
pub proof fn law_redispatch_requires_resolution(
    policy: RetryPolicy,
    trace: ExecutionTrace,
    binding: IdempotencyBinding,
    reconciliation: Option<ReconciliationReceipt>,
    context: RetryContext,
)
    ensures
        retry_evaluation(policy, trace, binding, reconciliation, context) matches Ok(
            (RetryVerdict::RedispatchAllowed { ordinal }, _, _),
        ) ==> {
            &&& context.redispatches_used < policy.max_redispatches
            &&& ordinal == context.redispatches_used + 1
            &&& ((trace.spec_status() == ExecutionStatus::EffectConfirmed(ExecutionOutcome::Failed)
                && policy.allow_after_confirmed_failure) || (trace.spec_status()
                == ExecutionStatus::DispatchedEffectUnknown && reconciliation is Some && ((
            reconciliation->0.outcome == ReconciliationOutcome::EffectFailed
                && policy.allow_after_confirmed_failure) || (reconciliation->0.outcome
                == ReconciliationOutcome::NoEffectConfirmed && policy.allow_after_confirmed_no_effect))))
        },
{
}

/// A dispatched action whose effect is unknown, with no reconciliation or a
/// reconciliation that is itself still unknown, is never retried: it must be
/// reconciled first (or the evaluation is refused).
pub proof fn law_unknown_effect_reconciles_first(
    policy: RetryPolicy,
    trace: ExecutionTrace,
    binding: IdempotencyBinding,
    reconciliation: Option<ReconciliationReceipt>,
    context: RetryContext,
)
    requires
        trace.spec_status() == ExecutionStatus::DispatchedEffectUnknown,
        reconciliation is None || reconciliation->0.outcome == ReconciliationOutcome::StillUnknown,
    ensures
        retry_evaluation(policy, trace, binding, reconciliation, context) matches Ok((verdict, _, _))
            ==> verdict == RetryVerdict::ReconcileFirst,
{
}

/// A confirmed success, observed externally or by reconciliation, closes the
/// action instead of retrying it.
pub proof fn law_success_closes(
    policy: RetryPolicy,
    trace: ExecutionTrace,
    binding: IdempotencyBinding,
    reconciliation: Option<ReconciliationReceipt>,
    context: RetryContext,
)
    requires
        trace.spec_status() == ExecutionStatus::EffectConfirmed(ExecutionOutcome::Succeeded) || (
        trace.spec_status() == ExecutionStatus::DispatchedEffectUnknown && reconciliation is Some
            && reconciliation->0.outcome == ReconciliationOutcome::EffectSucceeded),
    ensures
        retry_evaluation(policy, trace, binding, reconciliation, context) matches Ok((verdict, _, _))
            ==> verdict == RetryVerdict::CloseSucceeded,
{
}

/// An idempotency binding made for another action is refused.
pub proof fn law_binding_belongs_to_action(
    policy: RetryPolicy,
    trace: ExecutionTrace,
    binding: IdempotencyBinding,
    reconciliation: Option<ReconciliationReceipt>,
    context: RetryContext,
)
    requires
        binding.action_id@ != trace.ticket.action_id@,
    ensures
        retry_evaluation(policy, trace, binding, reconciliation, context) == Err::<DecisionBody, RetryBlock>(
            RetryBlock::IdempotencyActionMismatch,
        ),
{
}

} // verus!
