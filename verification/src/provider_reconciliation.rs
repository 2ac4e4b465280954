//! Reconciliation of an ambiguous attempt against its provider: the lookup
//! a recovered journal asks for, the check of the provider's answer, and the
//! retry or close decision once that answer is durable.
use vstd::prelude::*;

use crate::attempt_ledger::{retry_inputs_given, AttemptBlock};
use crate::durable_journal::{JournalError, RecoveredRuntime, RecoveryDirective};
use crate::execution_receipt::{ActionId, ExecutionTrace};
use crate::journal_core::{recovered_from, recovery_refused, JournalCore};
use crate::primitives::Timestamp;
use crate::reconciliation::{
    retry_or_close_body, retry_evaluation, DecisionBody, ReconciliationOutcome,
    ReconciliationReceipt, RetryAuthority, RetryBlock, RetryContext, RetryDecision, RetryReason,
    RetryVerdict,
};
use crate::text::{blank, is_blank};

verus! {

/// Which uncertainty boundary the provider is being asked to resolve.
#[derive(Debug, Clone, Copy, PartialEq, Eq, Structural)]
pub enum ProviderReconciliationPhase {
    /// A write-ahead prepared attempt survived restart without a local dispatch receipt.
    PreparedAmbiguous,
    /// A local dispatch receipt exists but the external effect remains unknown.
    DispatchedUnknown,
}

/// Provider-neutral lookup request. Adapters may translate the stable action and
/// idempotency identities into provider-specific APIs, operation IDs, or ledgers.
#[derive(Debug, Clone, PartialEq, Eq)]
pub struct ProviderReconciliationQuery {
    pub action_id: ActionId,
    pub idempotency_key: String,
    pub attempt_ordinal: u32,
    pub phase: ProviderReconciliationPhase,
}

/// External observation returned by a provider adapter.
///
/// `proof_ref` must identify inspectable evidence for the observation. A plain
/// timeout, 404, or silence must be represented as `StillUnknown`, not as
/// `NoEffectConfirmed`.
#[derive(Debug, Clone, PartialEq, Eq)]
pub struct ProviderObservation {
    pub observed_at: Timestamp,
    pub outcome: ReconciliationOutcome,
    pub proof_ref: String,
}

/// Provider-specific lookup boundary. The core runtime does not assume HTTP,
/// databases, blockchains, payment rails, or any particular transport.
pub trait ProviderReconciliationAdapter {
    type Error;

    fn reconcile(&self, query: &ProviderReconciliationQuery) -> Result<
        ProviderObservation,
        Self::Error,
    >;
}

#[derive(Debug, Clone, PartialEq, Eq)]
pub struct ProviderReconciliationResult {
    pub query: ProviderReconciliationQuery,
    pub observation: ProviderObservation,
    pub decision: RetryDecision,
}

#[derive(Debug, Clone, PartialEq, Eq)]
pub enum ProviderReconciliationError<E> {
    NotReconciliationState,
    EmptyProviderProof,
    Adapter(E),
    Journal(JournalError),
    Attempt(AttemptBlock),
    Retry(RetryBlock),
}

impl<E> From<JournalError> for ProviderReconciliationError<E> {
    fn from(value: JournalError) -> (r: Self) {
        ProviderReconciliationError::Journal(value)
    }
}

impl<E> vstd::std_specs::convert::FromSpecImpl<JournalError> for ProviderReconciliationError<E> {
    open spec fn obeys_from_spec() -> bool {
        true
    }

    open spec fn from_spec(v: JournalError) -> Self {
        ProviderReconciliationError::Journal(v)
    }
}

impl<E> From<AttemptBlock> for ProviderReconciliationError<E> {
    fn from(value: AttemptBlock) -> (r: Self) {
        ProviderReconciliationError::Attempt(value)
    }
}

impl<E> vstd::std_specs::convert::FromSpecImpl<AttemptBlock> for ProviderReconciliationError<E> {
    open spec fn obeys_from_spec() -> bool {
        true
    }

    open spec fn from_spec(v: AttemptBlock) -> Self {
        ProviderReconciliationError::Attempt(v)
    }
}

impl<E> From<RetryBlock> for ProviderReconciliationError<E> {
    fn from(value: RetryBlock) -> (r: Self) {
        ProviderReconciliationError::Retry(value)
    }
}

impl<E> vstd::std_specs::convert::FromSpecImpl<RetryBlock> for ProviderReconciliationError<E> {
    open spec fn obeys_from_spec() -> bool {
        true
    }

    open spec fn from_spec(v: RetryBlock) -> Self {
        ProviderReconciliationError::Retry(v)
    }
}

/// The attempt and phase a recovery directive asks the provider about.
pub open spec fn reconciliation_target(directive: RecoveryDirective) -> Option<
    (u32, ProviderReconciliationPhase),
> {
    match directive {
        RecoveryDirective::ReconcilePreparedAttempt { ordinal } => Some(
            (ordinal, ProviderReconciliationPhase::PreparedAmbiguous),
        ),
        RecoveryDirective::ReconcileDispatchedAttempt { ordinal } => Some(
            (ordinal, ProviderReconciliationPhase::DispatchedUnknown),
        ),
        _ => None,
    }
}

/// The verdict, reasons and proofs for a prepared attempt the provider
/// answered about: unknown stays reconcile-first, success closes, and a
/// confirmed failure or absence retries or closes by the policy, with the
/// provider's proof as the only proof.
pub open spec fn prepared_body(
    authority: RetryAuthority,
    observation: ProviderObservation,
    context: RetryContext,
) -> DecisionBody {
    let proofs = seq![observation.proof_ref];
    match observation.outcome {
        ReconciliationOutcome::StillUnknown => (
            RetryVerdict::ReconcileFirst,
            seq![RetryReason::ReconciliationStillUnknown],
            proofs,
        ),
        ReconciliationOutcome::EffectSucceeded => (
            RetryVerdict::CloseSucceeded,
            seq![RetryReason::ReconciliationConfirmedSuccess],
            proofs,
        ),
        ReconciliationOutcome::EffectFailed => retry_or_close_body(
            authority.policy,
            context,
            authority.policy.allow_after_confirmed_failure,
            RetryReason::ReconciliationConfirmedFailure,
            proofs,
        ),
        ReconciliationOutcome::NoEffectConfirmed => retry_or_close_body(
            authority.policy,
            context,
            authority.policy.allow_after_confirmed_no_effect,
            RetryReason::ReconciliationConfirmedNoEffect,
            proofs,
        ),
    }
}

/// The decision after the provider's answer is durable, from the journal's
/// replay `rt`: a blocked journal blocks; a prepared attempt is decided on the
/// provider's answer alone; a dispatched attempt goes to the retry authority
/// with the retry inputs the replayed ledger gives.
pub open spec fn reconciled_decision(
    authority: RetryAuthority,
    core: JournalCore,
    rt: RecoveredRuntime,
    query: ProviderReconciliationQuery,
    observation: ProviderObservation,
    r: Result<RetryDecision, RetryBlockOrAttempt>,
) -> bool {
    let context = RetryContext {
        redispatches_used: if rt.next_attempt_ordinal == 0 {
            0
        } else {
            (rt.next_attempt_ordinal - 1) as u32
        },
    };
    if rt.directive == RecoveryDirective::Block {
        r matches Ok(d) && d.action_id == query.action_id && d.idempotency_key@
            == query.idempotency_key@ && d.verdict == RetryVerdict::Block && d.reasons@.len() == 0
            && d.proof_refs@ == seq![observation.proof_ref]
    } else if query.phase == ProviderReconciliationPhase::PreparedAmbiguous {
        r matches Ok(d) && d.action_id == query.action_id && d.idempotency_key@
            == query.idempotency_key@ && (d.verdict, d.reasons@, d.proof_refs@) == prepared_body(
            authority,
            observation,
            context,
        )
    } else {
        match r {
            Ok(d) => exists|trace: ExecutionTrace, reconciliation: Option<ReconciliationReceipt>, c: RetryContext|
                #[trigger] retry_inputs_given(rt.ledger, Ok((trace, reconciliation, c)))
                    && d.action_id == trace.ticket.action_id && d.idempotency_key == core.binding.key
                    && retry_evaluation(authority.policy, trace, core.binding, reconciliation, context)
                    == Ok::<DecisionBody, RetryBlock>((d.verdict, d.reasons@, d.proof_refs@)),
            Err(RetryBlockOrAttempt::Attempt(e)) => retry_inputs_given(rt.ledger, Err(e)),
            Err(RetryBlockOrAttempt::Retry(e)) => exists|
                trace: ExecutionTrace,
                reconciliation: Option<ReconciliationReceipt>,
                c: RetryContext,
            |
                #[trigger] retry_inputs_given(rt.ledger, Ok((trace, reconciliation, c)))
                    && retry_evaluation(authority.policy, trace, core.binding, reconciliation, context)
                    == Err::<DecisionBody, RetryBlock>(e),
        }
    }
}

/// Why deciding on a reconciled attempt failed: the ledger gives no retry
/// view, or the retry authority refuses.
#[derive(Debug, Clone, PartialEq, Eq)]
pub enum RetryBlockOrAttempt {
    Attempt(AttemptBlock),
    Retry(RetryBlock),
}

/// One-shot bridge from a durable recovery directive to external proof and an
/// auditable retry/close verdict.
#[derive(Debug, Clone, Copy, PartialEq, Eq)]
pub struct ProviderReconciler {
    pub retry_authority: RetryAuthority,
}

impl ProviderReconciler {
    pub fn new(retry_authority: RetryAuthority) -> (r: Self)
        ensures
            r.retry_authority == retry_authority,
    {
        ProviderReconciler { retry_authority }
    }

    /// The provider lookup the journal's current state asks for: the action,
    /// the key and the attempt its recovery directive says to reconcile.
    pub fn reconciliation_query<E>(&self, core: &JournalCore, bytes: &[u8]) -> (r: Result<
        ProviderReconciliationQuery,
        ProviderReconciliationError<E>,
    >)
        ensures
            match r {
                Ok(query) => exists|rt: RecoveredRuntime|
                    #[trigger] recovered_from(bytes@, core.repaired_truncated_tail, rt)
                        && reconciliation_target(rt.directive) == Some(
                        (query.attempt_ordinal, query.phase),
                    ) && query.action_id == core.ticket.action_id && query.idempotency_key
                        == core.binding.key,
                Err(ProviderReconciliationError::Journal(e)) => recovery_refused(bytes@, e),
                Err(ProviderReconciliationError::NotReconciliationState) => exists|rt: RecoveredRuntime|
                    #[trigger] recovered_from(bytes@, core.repaired_truncated_tail, rt)
                        && reconciliation_target(rt.directive) is None,
                Err(_) => false,
            },
    {
        let before = match core.recover(bytes) {
            Ok(rt) => rt,
            Err(e) => {
                return Err(ProviderReconciliationError::Journal(e));
            },
        };
        let (attempt_ordinal, phase) = match before.directive {
            RecoveryDirective::ReconcilePreparedAttempt { ordinal } => (
                ordinal,
                ProviderReconciliationPhase::PreparedAmbiguous,
            ),
            RecoveryDirective::ReconcileDispatchedAttempt { ordinal } => (
                ordinal,
                ProviderReconciliationPhase::DispatchedUnknown,
            ),
            _ => {
                return Err(ProviderReconciliationError::NotReconciliationState);
            },
        };
        Ok(
            ProviderReconciliationQuery {
                action_id: core.ticket.action_id.clone(),
                idempotency_key: core.binding.key.clone(),
                attempt_ordinal,
                phase,
            },
        )
    }

    /// A provider answer is recorded only with an inspectable proof.
    pub fn check_observation<E>(observation: &ProviderObservation) -> (r: Result<
        (),
        ProviderReconciliationError<E>,
    >)
        ensures
            r is Ok <==> !blank(observation.proof_ref@),
            r is Err ==> r == Err::<(), ProviderReconciliationError<E>>(
                ProviderReconciliationError::EmptyProviderProof,
            ),
    {
        if is_blank(observation.proof_ref.as_str()) {
            return Err(ProviderReconciliationError::EmptyProviderProof);
        }
        Ok(())
    }

    /// The decision for a prepared attempt the provider answered about.
    pub fn prepared_decision(
        &self,
        query: &ProviderReconciliationQuery,
        observation: &ProviderObservation,
        context: RetryContext,
    ) -> (d: RetryDecision)
        ensures
            d.action_id == query.action_id,
            d.idempotency_key@ == query.idempotency_key@,
            (d.verdict, d.reasons@, d.proof_refs@) == prepared_body(
                self.retry_authority,
                *observation,
                context,
            ),
    {
        let (verdict, reasons) = match observation.outcome {
            ReconciliationOutcome::StillUnknown => (
                RetryVerdict::ReconcileFirst,
                vec![RetryReason::ReconciliationStillUnknown],
            ),
            ReconciliationOutcome::EffectSucceeded => (
                RetryVerdict::CloseSucceeded,
                vec![RetryReason::ReconciliationConfirmedSuccess],
            ),
            ReconciliationOutcome::EffectFailed => self.prepared_retry_or_close(
                context,
                self.retry_authority.policy.allow_after_confirmed_failure,
                RetryReason::ReconciliationConfirmedFailure,
            ),
            ReconciliationOutcome::NoEffectConfirmed => self.prepared_retry_or_close(
                context,
                self.retry_authority.policy.allow_after_confirmed_no_effect,
                RetryReason::ReconciliationConfirmedNoEffect,
            ),
        };
        let d = RetryDecision {
            action_id: query.action_id.clone(),
            idempotency_key: query.idempotency_key.clone(),
            verdict,
            reasons,
            proof_refs: vec![observation.proof_ref.clone()],
        };
        assert(d.reasons@ =~= prepared_body(self.retry_authority, *observation, context).1);
        assert(d.proof_refs@ =~= seq![observation.proof_ref]);
        d
    }

    fn prepared_retry_or_close(
        &self,
        context: RetryContext,
        retry_enabled: bool,
        evidence_reason: RetryReason,
    ) -> (r: (RetryVerdict, Vec<RetryReason>))
        ensures
            (r.0, r.1@) == ({
                let body = retry_or_close_body(
                    self.retry_authority.policy,
                    context,
                    retry_enabled,
                    evidence_reason,
                    Seq::empty(),
                );
                (body.0, body.1)
            }),
    {
        if !retry_enabled {
            let reasons = vec![evidence_reason, RetryReason::RetryDisabled];
            assert(reasons@ =~= seq![evidence_reason, RetryReason::RetryDisabled]);
            return (RetryVerdict::CloseFailed, reasons);
        }
        if context.redispatches_used >= self.retry_authority.policy.max_redispatches {
            let reasons = vec![evidence_reason, RetryReason::RetryLimitReached];
            assert(reasons@ =~= seq![evidence_reason, RetryReason::RetryLimitReached]);
            return (RetryVerdict::Block, reasons);
        }
        let reasons = vec![evidence_reason];
        assert(reasons@ =~= seq![evidence_reason]);
        (RetryVerdict::RedispatchAllowed { ordinal: context.redispatches_used + 1 }, reasons)
    }

    /// The decision once the provider's answer is durable in the journal,
    /// read from the journal's bytes after that write.
    pub fn reconciled_decision<E>(
        &self,
        core: &JournalCore,
        bytes: &[u8],
        query: &ProviderReconciliationQuery,
        observation: &ProviderObservation,
    ) -> (r: Result<RetryDecision, ProviderReconciliationError<E>>)
        ensures
            match r {
                Err(ProviderReconciliationError::Journal(e)) => recovery_refused(bytes@, e),
                Ok(d) => exists|rt: RecoveredRuntime|
                    #[trigger] recovered_from(bytes@, core.repaired_truncated_tail, rt)
                        && reconciled_decision(
                        self.retry_authority,
                        *core,
                        rt,
                        *query,
                        *observation,
                        Ok(d),
                    ),
                Err(ProviderReconciliationError::Attempt(e)) => exists|rt: RecoveredRuntime|
                    #[trigger] recovered_from(bytes@, core.repaired_truncated_tail, rt)
                        && reconciled_decision(
                        self.retry_authority,
                        *core,
                        rt,
                        *query,
                        *observation,
                        Err(RetryBlockOrAttempt::Attempt(e)),
                    ),
                Err(ProviderReconciliationError::Retry(e)) => exists|rt: RecoveredRuntime|
                    #[trigger] recovered_from(bytes@, core.repaired_truncated_tail, rt)
                        && reconciled_decision(
                        self.retry_authority,
                        *core,
                        rt,
                        *query,
                        *observation,
                        Err(RetryBlockOrAttempt::Retry(e)),
                    ),
                Err(_) => false,
            },
    {
        let after = match core.recover(bytes) {
            Ok(rt) => rt,
            Err(e) => {
                return Err(ProviderReconciliationError::Journal(e));
            },
        };
        let context = after.retry_context();
        if after.directive == RecoveryDirective::Block {
            let d = RetryDecision {
                action_id: query.action_id.clone(),
                idempotency_key: query.idempotency_key.clone(),
                verdict: RetryVerdict::Block,
                reasons: Vec::new(),
                proof_refs: vec![observation.proof_ref.clone()],
            };
            assert(d.proof_refs@ =~= seq![observation.proof_ref]);
            return Ok(d);
        }
        match query.phase {
            ProviderReconciliationPhase::PreparedAmbiguous => Ok(
                self.prepared_decision(query, observation, context),
            ),
            ProviderReconciliationPhase::DispatchedUnknown => {
                let (trace, reconciliation, c) = match after.ledger.retry_inputs() {
                    Ok(inputs) => inputs,
                    Err(e) => {
                        return Err(ProviderReconciliationError::Attempt(e));
                    },
                };
                match self.retry_authority.evaluate(
                    &trace,
                    &core.binding,
                    reconciliation.as_ref(),
                    context,
                ) {
                    Ok(d) => Ok(d),
                    Err(e) => Err(ProviderReconciliationError::Retry(e)),
                }
            },
        }
    }
}

} // verus!
