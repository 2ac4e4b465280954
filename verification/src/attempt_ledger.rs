//! Append-only ledger of physical dispatch attempts for one logical action.
//!
//! Every network dispatch gets its own ordinal while the provider-facing
//! idempotency binding stays fixed. A redispatch is admitted only when the
//! previous attempt ended in a retry-safe state (confirmed failure or confirmed
//! absence of the effect) and the decision carries that resolution's proof.
use vstd::prelude::*;

use crate::execution_receipt::{
    same_ticket, ActionId, AuthorityTicket, DispatchReceipt, ExecutionOutcome, ExecutionTrace,
    ExternalExecutionReceipt,
};
use crate::primitives::Timestamp;
use crate::reconciliation::{
    IdempotencyBinding, ReconciliationOutcome, ReconciliationReceipt, RetryContext,
    RetryDecision, RetryVerdict,
};
use crate::text::{blank, contains_text, copy_texts, is_blank};

verus! {

/// Stable identity for one physical dispatch attempt of a logical action.
#[derive(Debug, PartialEq, Eq, Hash)]
pub struct AttemptId {
    pub action_id: ActionId,
    pub ordinal: u32,
}

impl AttemptId {
    pub fn new(action_id: ActionId, ordinal: u32) -> (id: Self)
        ensures
            id.action_id == action_id,
            id.ordinal == ordinal,
    {
        AttemptId { action_id, ordinal }
    }
}

impl Clone for AttemptId {
    fn clone(&self) -> (r: Self)
        ensures
            r == *self,
    {
        AttemptId { action_id: self.action_id.clone(), ordinal: self.ordinal }
    }
}

/// Dispatch evidence scoped to one physical attempt.
#[derive(Debug, PartialEq, Eq)]
pub struct AttemptDispatchReceipt {
    pub attempt_id: AttemptId,
    pub dispatched_at: Timestamp,
    pub proof_ref: String,
}

impl Clone for AttemptDispatchReceipt {
    fn clone(&self) -> (r: Self)
        ensures
            r == *self,
    {
        AttemptDispatchReceipt {
            attempt_id: self.attempt_id.clone(),
            dispatched_at: self.dispatched_at,
            proof_ref: self.proof_ref.clone(),
        }
    }
}

/// External outcome evidence scoped to one physical attempt.
#[derive(Debug, PartialEq, Eq)]
pub struct AttemptExternalReceipt {
    pub attempt_id: AttemptId,
    pub observed_at: Timestamp,
    pub outcome: ExecutionOutcome,
    pub proof_ref: String,
}

impl Clone for AttemptExternalReceipt {
    fn clone(&self) -> (r: Self)
        ensures
            r == *self,
    {
        AttemptExternalReceipt {
            attempt_id: self.attempt_id.clone(),
            observed_at: self.observed_at,
            outcome: self.outcome,
            proof_ref: self.proof_ref.clone(),
        }
    }
}

/// Reconciliation evidence scoped to one physical attempt.
#[derive(Debug, PartialEq, Eq)]
pub struct AttemptReconciliationReceipt {
    pub attempt_id: AttemptId,
    pub observed_at: Timestamp,
    pub outcome: ReconciliationOutcome,
    pub proof_ref: String,
}

impl Clone for AttemptReconciliationReceipt {
    fn clone(&self) -> (r: Self)
        ensures
            r == *self,
    {
        AttemptReconciliationReceipt {
            attempt_id: self.attempt_id.clone(),
            observed_at: self.observed_at,
            outcome: self.outcome,
            proof_ref: self.proof_ref.clone(),
        }
    }
}

/// Current knowledge about one physical dispatch attempt.
#[derive(Debug, Clone, Copy, PartialEq, Eq, Structural)]
pub enum AttemptStatus {
    DispatchedEffectUnknown,
    Reconciled(ReconciliationOutcome),
    EffectConfirmed(ExecutionOutcome),
}

/// Append-only evidence record for one physical dispatch attempt.
#[derive(Debug, PartialEq, Eq)]
pub struct AttemptRecord {
    pub id: AttemptId,
    pub dispatch: AttemptDispatchReceipt,
    pub authorization_proof_refs: Vec<String>,
    pub reconciliations: Vec<AttemptReconciliationReceipt>,
    pub external: Option<AttemptExternalReceipt>,
}

/// A reconciliation outcome other than `StillUnknown`.
pub open spec fn terminal_reconciliation(outcome: ReconciliationOutcome) -> bool {
    outcome != ReconciliationOutcome::StillUnknown
}

/// The first terminal outcome among the first `n` reconciliation receipts.
pub open spec fn first_terminal(recs: Seq<AttemptReconciliationReceipt>, n: int) -> Option<
    ReconciliationOutcome,
>
    decreases n,
{
    if n <= 0 {
        None
    } else {
        match first_terminal(recs, n - 1) {
            Some(o) => Some(o),
            None => if terminal_reconciliation(recs[n - 1].outcome) {
                Some(recs[n - 1].outcome)
            } else {
                None
            },
        }
    }
}

/// Two terminal reconciliation outcomes of one attempt disagree.
pub open spec fn reconciliations_disagree(recs: Seq<AttemptReconciliationReceipt>) -> bool {
    exists|i: int, j: int|
        0 <= i < j < recs.len() && terminal_reconciliation(#[trigger] recs[i].outcome)
            && terminal_reconciliation(#[trigger] recs[j].outcome) && recs[i].outcome
            != recs[j].outcome
}

/// The external receipt contradicts the first terminal reconciliation.
pub open spec fn external_contradicts(
    external: Option<AttemptExternalReceipt>,
    terminal: Option<ReconciliationOutcome>,
) -> bool {
    match (external, terminal) {
        (Some(e), Some(ReconciliationOutcome::EffectSucceeded)) => e.outcome
            != ExecutionOutcome::Succeeded,
        (Some(e), Some(ReconciliationOutcome::EffectFailed)) => e.outcome
            != ExecutionOutcome::Failed,
        (Some(_), Some(ReconciliationOutcome::NoEffectConfirmed)) => true,
        _ => false,
    }
}

/// Evidence about one attempt contradicts itself.
pub open spec fn record_conflicts(record: AttemptRecord) -> bool {
    reconciliations_disagree(record.reconciliations@) || external_contradicts(
        record.external,
        first_terminal(record.reconciliations@, record.reconciliations@.len() as int),
    )
}

/// An external receipt wins; otherwise the latest reconciliation; otherwise unknown.
pub open spec fn record_status(record: AttemptRecord) -> AttemptStatus {
    match record.external {
        Some(e) => AttemptStatus::EffectConfirmed(e.outcome),
        None => if record.reconciliations@.len() > 0 {
            AttemptStatus::Reconciled(record.reconciliations@.last().outcome)
        } else {
            AttemptStatus::DispatchedEffectUnknown
        },
    }
}

/// The attempt's effect is known to have happened.
pub open spec fn status_succeeded(status: AttemptStatus) -> bool {
    status == AttemptStatus::EffectConfirmed(ExecutionOutcome::Succeeded) || status
        == AttemptStatus::Reconciled(ReconciliationOutcome::EffectSucceeded)
}

/// The proof that makes another physical attempt safe after this one: the
/// confirmed failure receipt, or the latest reconciliation that confirmed
/// failure or absence of the effect.
pub open spec fn resolution_proof(record: AttemptRecord) -> Option<String> {
    match record_status(record) {
        AttemptStatus::EffectConfirmed(ExecutionOutcome::Failed) => Some(
            record.external->0.proof_ref,
        ),
        AttemptStatus::Reconciled(ReconciliationOutcome::EffectFailed)
        | AttemptStatus::Reconciled(ReconciliationOutcome::NoEffectConfirmed) => Some(
            record.reconciliations@.last().proof_ref,
        ),
        _ => None,
    }
}

/// Latest of `base` and the observation times of the first `n` receipts.
pub open spec fn latest_reconciliation_time(
    base: int,
    recs: Seq<AttemptReconciliationReceipt>,
    n: int,
) -> int
    decreases n,
{
    if n <= 0 {
        base
    } else {
        let prior = latest_reconciliation_time(base, recs, n - 1);
        if recs[n - 1].observed_at@ > prior {
            recs[n - 1].observed_at@
        } else {
            prior
        }
    }
}

/// Latest time at which anything was observed about the attempt.
pub open spec fn latest_observation(record: AttemptRecord) -> int {
    let base = match record.external {
        Some(e) => if e.observed_at@ > record.dispatch.dispatched_at@ {
            e.observed_at@
        } else {
            record.dispatch.dispatched_at@
        },
        None => record.dispatch.dispatched_at@,
    };
    latest_reconciliation_time(base, record.reconciliations@, record.reconciliations@.len() as int)
}

impl AttemptRecord {
    pub open spec fn spec_status(&self) -> AttemptStatus {
        record_status(*self)
    }

    pub fn status(&self) -> (s: AttemptStatus)
        ensures
            s == record_status(*self),
    {
        if let Some(external) = &self.external {
            return AttemptStatus::EffectConfirmed(external.outcome);
        }
        let n = self.reconciliations.len();
        if n > 0 {
            return AttemptStatus::Reconciled(self.reconciliations[n - 1].outcome);
        }
        AttemptStatus::DispatchedEffectUnknown
    }

    pub fn latest_reconciliation(&self) -> (r: Option<&AttemptReconciliationReceipt>)
        ensures
            match r {
                Some(x) => self.reconciliations@.len() > 0 && *x
                    == self.reconciliations@.last(),
                None => self.reconciliations@.len() == 0,
            },
    {
        let n = self.reconciliations.len();
        if n > 0 {
            Some(&self.reconciliations[n - 1])
        } else {
            None
        }
    }

    pub fn has_conflicting_evidence(&self) -> (b: bool)
        ensures
            b == record_conflicts(*self),
    {
        let recs = &self.reconciliations;
        let mut terminal: Option<ReconciliationOutcome> = None;
        let ghost mut first_index: int = 0;
        let mut i: usize = 0;
        while i < recs.len()
            invariant
                recs@ == self.reconciliations@,
                i <= recs@.len(),
                terminal == first_terminal(recs@, i as int),
                terminal is Some ==> 0 <= first_index < i && recs@[first_index].outcome
                    == terminal->0 && terminal_reconciliation(recs@[first_index].outcome),
                forall|k: int|
                    0 <= k < i && terminal_reconciliation(#[trigger] recs@[k].outcome)
                        ==> terminal is Some && recs@[k].outcome == terminal->0,
                forall|a: int, b: int|
                    0 <= a < b < i && terminal_reconciliation(#[trigger] recs@[a].outcome)
                        && terminal_reconciliation(#[trigger] recs@[b].outcome) ==> recs@[a].outcome
                        == recs@[b].outcome,
            decreases recs@.len() - i,
        {
            let outcome = recs[i].outcome;
            if outcome == ReconciliationOutcome::StillUnknown {
                i = i + 1;
                continue;
            }
            match terminal {
                Some(previous) => {
                    if previous != outcome {
                        let ghost s = self.reconciliations@;
                        assert(s[first_index].outcome != s[i as int].outcome);
                        assert(first_index < i);
                        assert(terminal_reconciliation(s[first_index].outcome));
                        assert(terminal_reconciliation(s[i as int].outcome));
                        assert(reconciliations_disagree(s));
                        return true;
                    }
                },
                None => {
                    terminal = Some(outcome);
                    proof {
                        first_index = i as int;
                    }
                },
            }
            i = i + 1;
        }
        assert(!reconciliations_disagree(recs@));
        match (&self.external, terminal) {
            (Some(external), Some(ReconciliationOutcome::EffectSucceeded)) => {
                external.outcome != ExecutionOutcome::Succeeded
            },
            (Some(external), Some(ReconciliationOutcome::EffectFailed)) => {
                external.outcome != ExecutionOutcome::Failed
            },
            (Some(_), Some(ReconciliationOutcome::NoEffectConfirmed)) => true,
            _ => false,
        }
    }

    fn retry_safe_resolution_proof(&self) -> (r: Option<&String>)
        ensures
            match r {
                Some(p) => resolution_proof(*self) == Some(*p),
                None => resolution_proof(*self) is None,
            },
    {
        match self.status() {
            AttemptStatus::EffectConfirmed(ExecutionOutcome::Failed) => match &self.external {
                Some(receipt) => Some(&receipt.proof_ref),
                None => None,
            },
            AttemptStatus::Reconciled(ReconciliationOutcome::EffectFailed)
            | AttemptStatus::Reconciled(ReconciliationOutcome::NoEffectConfirmed) => {
                match self.latest_reconciliation() {
                    Some(receipt) => Some(&receipt.proof_ref),
                    None => None,
                }
            },
            _ => None,
        }
    }

    fn latest_observed_at(&self) -> (t: Timestamp)
        ensures
            t@ == latest_observation(*self),
    {
        let mut latest = self.dispatch.dispatched_at;
        if let Some(external) = &self.external {
            if external.observed_at.epoch_seconds() > latest.epoch_seconds() {
                latest = external.observed_at;
            }
        }
        let ghost base = latest@;
        let mut i: usize = 0;
        while i < self.reconciliations.len()
            invariant
                i <= self.reconciliations@.len(),
                base == match self.external {
                    Some(e) => if e.observed_at@ > self.dispatch.dispatched_at@ {
                        e.observed_at@
                    } else {
                        self.dispatch.dispatched_at@
                    },
                    None => self.dispatch.dispatched_at@,
                },
                latest@ == latest_reconciliation_time(base, self.reconciliations@, i as int),
            decreases self.reconciliations@.len() - i,
        {
            let observed = self.reconciliations[i].observed_at;
            if observed.epoch_seconds() > latest.epoch_seconds() {
                latest = observed;
            }
            i = i + 1;
        }
        latest
    }
}

impl Clone for AttemptRecord {
    fn clone(&self) -> (r: Self)
        ensures
            r.id == self.id,
            r.dispatch == self.dispatch,
            r.authorization_proof_refs@ == self.authorization_proof_refs@,
            r.reconciliations@ == self.reconciliations@,
            r.external == self.external,
    {
        let recs = self.reconciliations.clone();
        assert(recs@ =~= self.reconciliations@);
        AttemptRecord {
            id: self.id.clone(),
            dispatch: self.dispatch.clone(),
            authorization_proof_refs: copy_texts(&self.authorization_proof_refs),
            reconciliations: recs,
            external: match &self.external {
                Some(e) => Some(e.clone()),
                None => None,
            },
        }
    }
}

/// Two records hold the same evidence.
pub open spec fn same_record(a: AttemptRecord, b: AttemptRecord) -> bool {
    &&& a.id == b.id
    &&& a.dispatch == b.dispatch
    &&& a.authorization_proof_refs@ == b.authorization_proof_refs@
    &&& a.reconciliations@ == b.reconciliations@
    &&& a.external == b.external
}

#[derive(Debug, Clone, PartialEq, Eq)]
pub enum AttemptBlock {
    IdempotencyActionMismatch,
    RetryDecisionActionMismatch,
    RetryDecisionIdempotencyMismatch,
    RetryDecisionDoesNotAuthorizeDispatch,
    InitialAttemptAlreadyRecorded,
    UnexpectedAttemptOrdinal { expected: u32, received: u32 },
    PreviousAttemptNotRetrySafe,
    RetryProofLineageMissing,
    PriorAttemptSucceeded,
    ConflictingEvidence,
    EmptyDispatchProof,
    EmptyExternalProof,
    EmptyReconciliationProof,
    UnknownAttempt { ordinal: u32 },
    ExternalOutcomeAlreadyRecorded { ordinal: u32 },
    TemporalOrderViolation,
}

/// Some attempt holds self-contradicting evidence.
pub open spec fn ledger_conflicts(attempts: Seq<AttemptRecord>) -> bool {
    exists|i: int| 0 <= i < attempts.len() && record_conflicts(#[trigger] attempts[i])
}

/// An attempt before the latest one is known to have succeeded.
pub open spec fn prior_success(attempts: Seq<AttemptRecord>) -> bool {
    attempts.len() >= 2 && exists|i: int|
        0 <= i < attempts.len() - 1 && status_succeeded(record_status(#[trigger] attempts[i]))
}

/// A list of texts holds one with the characters of `needle`.
pub open spec fn holds_text(texts: Seq<String>, needle: String) -> bool {
    exists|i: int| 0 <= i < texts.len() && (#[trigger] texts[i])@ == needle@
}

/// The common tail of dispatch admission: time order and a non-blank proof.
pub open spec fn admit_at(
    ticket: AuthorityTicket,
    ordinal: u32,
    dispatched_at: Timestamp,
    proof_ref: Seq<char>,
) -> Result<u32, AttemptBlock> {
    if dispatched_at@ < ticket.issued_at@ {
        Err(AttemptBlock::TemporalOrderViolation)
    } else if blank(proof_ref) {
        Err(AttemptBlock::EmptyDispatchProof)
    } else {
        Ok(ordinal)
    }
}

/// Which ordinal a dispatch authorized by `decision` records, or why it is refused.
pub open spec fn dispatch_admission(
    ticket: AuthorityTicket,
    binding: IdempotencyBinding,
    attempts: Seq<AttemptRecord>,
    decision: RetryDecision,
    dispatched_at: Timestamp,
    proof_ref: Seq<char>,
) -> Result<u32, AttemptBlock> {
    if decision.action_id@ != ticket.action_id@ {
        Err(AttemptBlock::RetryDecisionActionMismatch)
    } else if decision.idempotency_key@ != binding.key@ {
        Err(AttemptBlock::RetryDecisionIdempotencyMismatch)
    } else if ledger_conflicts(attempts) {
        Err(AttemptBlock::ConflictingEvidence)
    } else if prior_success(attempts) {
        Err(AttemptBlock::PriorAttemptSucceeded)
    } else {
        match decision.verdict {
            RetryVerdict::InitialDispatchAllowed => if attempts.len() > 0 {
                Err(AttemptBlock::InitialAttemptAlreadyRecorded)
            } else {
                admit_at(ticket, 0, dispatched_at, proof_ref)
            },
            RetryVerdict::RedispatchAllowed { ordinal } => {
                let expected = attempts.len() as u32;
                if ordinal != expected {
                    Err(AttemptBlock::UnexpectedAttemptOrdinal { expected, received: ordinal })
                } else if attempts.len() == 0 {
                    Err(AttemptBlock::PreviousAttemptNotRetrySafe)
                } else {
                    match resolution_proof(attempts.last()) {
                        None => Err(AttemptBlock::PreviousAttemptNotRetrySafe),
                        Some(proof) => if !holds_text(decision.proof_refs@, proof) {
                            Err(AttemptBlock::RetryProofLineageMissing)
                        } else if dispatched_at@ < latest_observation(attempts.last()) {
                            Err(AttemptBlock::TemporalOrderViolation)
                        } else {
                            admit_at(ticket, ordinal, dispatched_at, proof_ref)
                        },
                    }
                }
            },
            _ => Err(AttemptBlock::RetryDecisionDoesNotAuthorizeDispatch),
        }
    }
}

/// The record a dispatch admitted at `ordinal` appends.
pub open spec fn fresh_record(
    record: AttemptRecord,
    ticket: AuthorityTicket,
    decision: RetryDecision,
    ordinal: u32,
    dispatched_at: Timestamp,
    proof_ref: Seq<char>,
) -> bool {
    &&& record.id.action_id == ticket.action_id
    &&& record.id.ordinal == ordinal
    &&& record.dispatch.attempt_id == record.id
    &&& record.dispatch.dispatched_at == dispatched_at
    &&& record.dispatch.proof_ref@ == proof_ref
    &&& record.authorization_proof_refs@ == decision.proof_refs@
    &&& record.reconciliations@.len() == 0
    &&& record.external is None
}

/// Whether evidence about `ordinal` can be attached: it names a recorded
/// attempt, observed no earlier than its dispatch, with a non-blank proof.
pub open spec fn evidence_admission(
    attempts: Seq<AttemptRecord>,
    ordinal: u32,
    observed_at: Timestamp,
    proof_ref: Seq<char>,
    external: bool,
) -> Result<(), AttemptBlock> {
    if !(ordinal < attempts.len() && attempts[ordinal as int].id.ordinal == ordinal) {
        Err(AttemptBlock::UnknownAttempt { ordinal })
    } else if external && attempts[ordinal as int].external is Some {
        Err(AttemptBlock::ExternalOutcomeAlreadyRecorded { ordinal })
    } else if observed_at@ < attempts[ordinal as int].dispatch.dispatched_at@ {
        Err(AttemptBlock::TemporalOrderViolation)
    } else if blank(proof_ref) {
        Err(if external {
            AttemptBlock::EmptyExternalProof
        } else {
            AttemptBlock::EmptyReconciliationProof
        })
    } else {
        Ok(())
    }
}

/// What `retry_inputs` hands the retry authority.
pub open spec fn retry_inputs_admission(attempts: Seq<AttemptRecord>) -> Result<(), AttemptBlock> {
    if ledger_conflicts(attempts) {
        Err(AttemptBlock::ConflictingEvidence)
    } else if prior_success(attempts) {
        Err(AttemptBlock::PriorAttemptSucceeded)
    } else {
        Ok(())
    }
}

/// How recording a dispatch relates the ledger before and after to the result.
pub open spec fn dispatch_recorded(old: AttemptLedger, new: AttemptLedger, decision: RetryDecision, dispatched_at: Timestamp, proof_ref: Seq<char>, r: Result<AttemptRecord, AttemptBlock>) -> bool {
    &&& new.spec_ticket() == old.spec_ticket()
    &&& new.spec_binding() == old.spec_binding()
    &&& match r {
            Ok(record) => {
                &&& dispatch_admission(
                    old.spec_ticket(),
                    old.spec_binding(),
                    old.spec_attempts(),
                    decision,
                    dispatched_at,
                    proof_ref,
                ) == Ok::<u32, AttemptBlock>(record.id.ordinal)
                &&& fresh_record(
                    record,
                    old.spec_ticket(),
                    decision,
                    record.id.ordinal,
                    dispatched_at,
                    proof_ref,
                )
                &&& new.spec_attempts().len() == old.spec_attempts().len() + 1
                &&& new.spec_attempts().drop_last() == old.spec_attempts()
                &&& same_record(new.spec_attempts().last(), record)
            },
            Err(e) => {
                &&& dispatch_admission(
                    old.spec_ticket(),
                    old.spec_binding(),
                    old.spec_attempts(),
                    decision,
                    dispatched_at,
                    proof_ref,
                ) == Err::<u32, AttemptBlock>(e)
                &&& new.spec_attempts() == old.spec_attempts()
            }
        }
}

/// How recording an external outcome relates the ledger before and after to the result.
pub open spec fn external_recorded(old: AttemptLedger, new: AttemptLedger, ordinal: u32, observed_at: Timestamp, outcome: ExecutionOutcome, proof_ref: Seq<char>, r: Result<AttemptExternalReceipt, AttemptBlock>) -> bool {
    &&& new.spec_ticket() == old.spec_ticket()
    &&& new.spec_binding() == old.spec_binding()
    &&& match r {
            Ok(receipt) => {
                let before = old.spec_attempts()[ordinal as int];
                let after = new.spec_attempts()[ordinal as int];
                &&& evidence_admission(
                    old.spec_attempts(),
                    ordinal,
                    observed_at,
                    proof_ref,
                    true,
                ) == Ok::<(), AttemptBlock>(())
                &&& receipt.attempt_id == before.id
                &&& receipt.observed_at == observed_at
                &&& receipt.outcome == outcome
                &&& receipt.proof_ref@ == proof_ref
                &&& new.spec_attempts().len() == old.spec_attempts().len()
                &&& forall|j: int|
                    #![trigger new.spec_attempts()[j]]
                    0 <= j < old.spec_attempts().len() && j != ordinal
                        ==> new.spec_attempts()[j] == old.spec_attempts()[j]
                &&& after.id == before.id
                &&& after.dispatch == before.dispatch
                &&& after.authorization_proof_refs@ == before.authorization_proof_refs@
                &&& after.reconciliations@ == before.reconciliations@
                &&& after.external == Some(receipt)
            },
            Err(e) => {
                &&& evidence_admission(
                    old.spec_attempts(),
                    ordinal,
                    observed_at,
                    proof_ref,
                    true,
                ) == Err::<(), AttemptBlock>(e)
                &&& new.spec_attempts() == old.spec_attempts()
            }
        }
}

/// How recording reconciliation evidence relates the ledger before and after to the result.
pub open spec fn reconciliation_recorded(old: AttemptLedger, new: AttemptLedger, ordinal: u32, observed_at: Timestamp, outcome: ReconciliationOutcome, proof_ref: Seq<char>, r: Result<AttemptReconciliationReceipt, AttemptBlock>) -> bool {
    &&& new.spec_ticket() == old.spec_ticket()
    &&& new.spec_binding() == old.spec_binding()
    &&& match r {
            Ok(receipt) => {
                let before = old.spec_attempts()[ordinal as int];
                let after = new.spec_attempts()[ordinal as int];
                &&& evidence_admission(
                    old.spec_attempts(),
                    ordinal,
                    observed_at,
                    proof_ref,
                    false,
                ) == Ok::<(), AttemptBlock>(())
                &&& receipt.attempt_id == before.id
                &&& receipt.observed_at == observed_at
                &&& receipt.outcome == outcome
                &&& receipt.proof_ref@ == proof_ref
                &&& new.spec_attempts().len() == old.spec_attempts().len()
                &&& forall|j: int|
                    #![trigger new.spec_attempts()[j]]
                    0 <= j < old.spec_attempts().len() && j != ordinal
                        ==> new.spec_attempts()[j] == old.spec_attempts()[j]
                &&& after.id == before.id
                &&& after.dispatch == before.dispatch
                &&& after.authorization_proof_refs@ == before.authorization_proof_refs@
                &&& after.reconciliations@ == before.reconciliations@.push(receipt)
                &&& after.external == before.external
            },
            Err(e) => {
                &&& evidence_admission(
                    old.spec_attempts(),
                    ordinal,
                    observed_at,
                    proof_ref,
                    false,
                ) == Err::<(), AttemptBlock>(e)
                &&& new.spec_attempts() == old.spec_attempts()
            }
        }
}

/// Append-only ledger of physical attempts for one logical `ActionId`.
///
/// The ledger keeps the provider-facing idempotency binding stable while each
/// network dispatch receives a distinct ordinal. It never treats the existence
/// of an idempotency key as permission to retry.
#[derive(Debug, Clone, PartialEq)]
pub struct AttemptLedger {
    pub ticket: AuthorityTicket,
    pub binding: IdempotencyBinding,
    attempts: Vec<AttemptRecord>,
}

/// What `retry_inputs` hands the retry authority for a ledger: the latest
/// attempt's dispatch, external outcome and latest reconciliation as one
/// trace, with the redispatches used; or why no retry view is given.
pub open spec fn retry_inputs_given(
    ledger: AttemptLedger,
    r: Result<(ExecutionTrace, Option<ReconciliationReceipt>, RetryContext), AttemptBlock>,
) -> bool {
    match r {
        Ok((trace, reconciliation, context)) => {
            let attempts = ledger.spec_attempts();
            &&& retry_inputs_admission(attempts) == Ok::<(), AttemptBlock>(())
            &&& same_ticket(trace.ticket, ledger.spec_ticket())
            &&& context.redispatches_used == (if attempts.len() == 0 {
                0
            } else {
                (attempts.len() - 1) as u32
            })
            &&& if attempts.len() == 0 {
                &&& trace.dispatch is None
                &&& trace.external is None
                &&& reconciliation is None
            } else {
                let latest = attempts.last();
                &&& trace.dispatch == Some(
                    DispatchReceipt {
                        action_id: ledger.spec_ticket().action_id,
                        dispatched_at: latest.dispatch.dispatched_at,
                        proof_ref: latest.dispatch.proof_ref,
                    },
                )
                &&& trace.external == match latest.external {
                    Some(e) => Some(
                        ExternalExecutionReceipt {
                            action_id: ledger.spec_ticket().action_id,
                            observed_at: e.observed_at,
                            outcome: e.outcome,
                            proof_ref: e.proof_ref,
                        },
                    ),
                    None => None,
                }
                &&& reconciliation == if latest.reconciliations@.len() > 0 {
                    let last = latest.reconciliations@.last();
                    Some(
                        ReconciliationReceipt {
                            action_id: ledger.spec_ticket().action_id,
                            observed_at: last.observed_at,
                            outcome: last.outcome,
                            proof_ref: last.proof_ref,
                        },
                    )
                } else {
                    None
                }
            }
        },
        Err(e) => retry_inputs_admission(ledger.spec_attempts()) == Err::<(), AttemptBlock>(
            e,
        ),
    }
}

impl AttemptLedger {
    /// The attempts recorded so far, in dispatch order.
    /// The ticket the ledger records attempts for.
    pub closed spec fn spec_ticket(&self) -> AuthorityTicket {
        self.ticket
    }

    /// The idempotency binding every attempt of the ledger carries.
    pub closed spec fn spec_binding(&self) -> IdempotencyBinding {
        self.binding
    }

    pub fn ticket(&self) -> (t: &AuthorityTicket)
        ensures
            *t == self.spec_ticket(),
    {
        &self.ticket
    }

    pub fn binding(&self) -> (b: &IdempotencyBinding)
        ensures
            *b == self.spec_binding(),
    {
        &self.binding
    }

    pub closed spec fn spec_attempts(&self) -> Seq<AttemptRecord> {
        self.attempts@
    }

    pub fn new(ticket: AuthorityTicket, binding: IdempotencyBinding) -> (r: Result<
        Self,
        AttemptBlock,
    >)
        ensures
            match r {
                Ok(ledger) => {
                    &&& binding.action_id@ == ticket.action_id@
                    &&& ledger.spec_ticket() == ticket
                    &&& ledger.spec_binding() == binding
                    &&& ledger.spec_attempts().len() == 0
                },
                Err(e) => binding.action_id@ != ticket.action_id@ && e
                    == AttemptBlock::IdempotencyActionMismatch,
            },
    {
        if binding.action_id != ticket.action_id {
            return Err(AttemptBlock::IdempotencyActionMismatch);
        }
        Ok(AttemptLedger { ticket, binding, attempts: Vec::new() })
    }

    /// Appends an attempt whose dispatch the durable journal recorded, as it
    /// was recorded; only journal replay within the crate does this.
    pub(crate) fn append_recovered(&mut self, record: AttemptRecord)
        ensures
            final(self).spec_ticket() == old(self).spec_ticket(),
            final(self).spec_binding() == old(self).spec_binding(),
            final(self).spec_attempts() == old(self).spec_attempts().push(record),
    {
        self.attempts.push(record);
    }

    pub fn attempts(&self) -> (r: &[AttemptRecord])
        ensures
            r@ == self.spec_attempts(),
    {
        self.attempts.as_slice()
    }

    pub fn latest(&self) -> (r: Option<&AttemptRecord>)
        ensures
            match r {
                Some(x) => self.spec_attempts().len() > 0 && *x == self.spec_attempts().last(),
                None => self.spec_attempts().len() == 0,
            },
    {
        let n = self.attempts.len();
        if n > 0 {
            Some(&self.attempts[n - 1])
        } else {
            None
        }
    }

    /// Physical redispatches used so far: one less than the attempts recorded.
    pub fn retry_context(&self) -> (c: RetryContext)
        ensures
            c.redispatches_used == (if self.spec_attempts().len() == 0 {
                0
            } else {
                (self.spec_attempts().len() - 1) as u32
            }),
    {
        RetryContext { redispatches_used: self.attempts.len().saturating_sub(1) as u32 }
    }

    pub fn has_conflicting_evidence(&self) -> (b: bool)
        ensures
            b == ledger_conflicts(self.spec_attempts()),
    {
        let mut i: usize = 0;
        while i < self.attempts.len()
            invariant
                i <= self.attempts@.len(),
                forall|k: int| 0 <= k < i ==> !record_conflicts(#[trigger] self.attempts@[k]),
            decreases self.attempts@.len() - i,
        {
            if self.attempts[i].has_conflicting_evidence() {
                return true;
            }
            i = i + 1;
        }
        false
    }

    fn prior_attempt_succeeded(&self) -> (b: bool)
        ensures
            b == prior_success(self.attempts@),
    {
        let n = self.attempts.len();
        if n < 2 {
            return false;
        }
        let mut i: usize = 0;
        while i < n - 1
            invariant
                n == self.attempts@.len(),
                n >= 2,
                i <= n - 1,
                forall|k: int|
                    0 <= k < i ==> !status_succeeded(record_status(#[trigger] self.attempts@[k])),
            decreases n - 1 - i,
        {
            let status = self.attempts[i].status();
            match status {
                AttemptStatus::EffectConfirmed(ExecutionOutcome::Succeeded)
                | AttemptStatus::Reconciled(ReconciliationOutcome::EffectSucceeded) => {
                    return true;
                },
                _ => {},
            }
            i = i + 1;
        }
        false
    }

    fn validate_decision_identity(&self, decision: &RetryDecision) -> (r: Result<(), AttemptBlock>)
        ensures
            r == if decision.action_id@ != self.ticket.action_id@ {
                Err(AttemptBlock::RetryDecisionActionMismatch)
            } else if decision.idempotency_key@ != self.binding.key@ {
                Err(AttemptBlock::RetryDecisionIdempotencyMismatch)
            } else {
                Ok(())
            },
    {
        if decision.action_id != self.ticket.action_id {
            return Err(AttemptBlock::RetryDecisionActionMismatch);
        }
        if !decision.idempotency_key.eq(&self.binding.key) {
            return Err(AttemptBlock::RetryDecisionIdempotencyMismatch);
        }
        Ok(())
    }

    /// The ordinal a dispatch authorized by `decision` would record, or why
    /// it is refused; the ledger is left as it is.
    pub fn check_dispatch(&self, decision: &RetryDecision, dispatched_at: Timestamp, proof_ref: &str) -> (r:
        Result<u32, AttemptBlock>)
        ensures
            r == dispatch_admission(
                self.spec_ticket(),
                self.spec_binding(),
                self.spec_attempts(),
                *decision,
                dispatched_at,
                proof_ref@,
            ),
    {
        self.validate_decision_identity(decision)?;
        if self.has_conflicting_evidence() {
            return Err(AttemptBlock::ConflictingEvidence);
        }
        if self.prior_attempt_succeeded() {
            return Err(AttemptBlock::PriorAttemptSucceeded);
        }
        let ordinal: u32 = match decision.verdict {
            RetryVerdict::InitialDispatchAllowed => {
                if self.attempts.len() > 0 {
                    return Err(AttemptBlock::InitialAttemptAlreadyRecorded);
                }
                0
            },
            RetryVerdict::RedispatchAllowed { ordinal } => {
                let expected = self.attempts.len() as u32;
                if ordinal != expected {
                    return Err(
                        AttemptBlock::UnexpectedAttemptOrdinal { expected, received: ordinal },
                    );
                }
                let n = self.attempts.len();
                if n == 0 {
                    return Err(AttemptBlock::PreviousAttemptNotRetrySafe);
                }
                let previous = &self.attempts[n - 1];
                let required_proof = match previous.retry_safe_resolution_proof() {
                    Some(p) => p,
                    None => return Err(AttemptBlock::PreviousAttemptNotRetrySafe),
                };
                if !contains_text(&decision.proof_refs, required_proof) {
                    return Err(AttemptBlock::RetryProofLineageMissing);
                }
                if dispatched_at.epoch_seconds() < previous.latest_observed_at().epoch_seconds() {
                    return Err(AttemptBlock::TemporalOrderViolation);
                }
                ordinal
            },
            _ => {
                return Err(AttemptBlock::RetryDecisionDoesNotAuthorizeDispatch);
            },
        };
        if dispatched_at.epoch_seconds() < self.ticket.issued_at.epoch_seconds() {
            return Err(AttemptBlock::TemporalOrderViolation);
        }
        if is_blank(proof_ref) {
            return Err(AttemptBlock::EmptyDispatchProof);
        }
        Ok(ordinal)
    }

    /// Records one physical dispatch authorized by a retry decision.
    ///
    /// Initial dispatch is attempt `0`. A redispatch ordinal must exactly match
    /// the next ledger ordinal and the previous attempt must already have a
    /// retry-safe evidence state (`Failed` or `NoEffectConfirmed`). The returned
    /// record is the one appended.
    pub fn record_dispatch(
        &mut self,
        decision: &RetryDecision,
        dispatched_at: Timestamp,
        proof_ref: &str,
    ) -> (r: Result<AttemptRecord, AttemptBlock>)
        ensures
            dispatch_recorded(*old(self), *final(self), *decision, dispatched_at, proof_ref@, r),

    {
        let ordinal = self.check_dispatch(decision, dispatched_at, proof_ref)?;
        let id = AttemptId::new(self.ticket.action_id.clone(), ordinal);
        let record = AttemptRecord {
            id: id.clone(),
            dispatch: AttemptDispatchReceipt {
                attempt_id: id,
                dispatched_at,
                proof_ref: proof_ref.to_owned(),
            },
            authorization_proof_refs: copy_texts(&decision.proof_refs),
            reconciliations: Vec::new(),
            external: None,
        };
        let stored = record.clone();
        self.attempts.push(stored);
        proof {
            assert(self.attempts@.drop_last() =~= old(self).attempts@);
        }
        Ok(record)
    }

    fn locate(&self, ordinal: u32) -> (r: Result<usize, AttemptBlock>)
        ensures
            match r {
                Ok(i) => i == ordinal && ordinal < self.attempts@.len()
                    && self.attempts@[i as int].id.ordinal == ordinal,
                Err(e) => !(ordinal < self.attempts@.len()
                    && self.attempts@[ordinal as int].id.ordinal == ordinal) && e
                    == AttemptBlock::UnknownAttempt { ordinal },
            },
    {
        let index = ordinal as usize;
        if index < self.attempts.len() && self.attempts[index].id.ordinal == ordinal {
            Ok(index)
        } else {
            Err(AttemptBlock::UnknownAttempt { ordinal })
        }
    }

    /// Whether evidence about `ordinal` observed at `observed_at` could be
    /// attached; the ledger is left as it is.
    pub fn check_evidence(&self, ordinal: u32, observed_at: Timestamp, proof_ref: &str, external: bool) -> (r:
        Result<(), AttemptBlock>)
        ensures
            r == evidence_admission(self.spec_attempts(), ordinal, observed_at, proof_ref@, external),
    {
        let index = self.locate(ordinal)?;
        if external && self.attempts[index].external.is_some() {
            return Err(AttemptBlock::ExternalOutcomeAlreadyRecorded { ordinal });
        }
        if observed_at.epoch_seconds() < self.attempts[index].dispatch.dispatched_at.epoch_seconds() {
            return Err(AttemptBlock::TemporalOrderViolation);
        }
        if is_blank(proof_ref) {
            return Err(
                if external {
                    AttemptBlock::EmptyExternalProof
                } else {
                    AttemptBlock::EmptyReconciliationProof
                },
            );
        }
        Ok(())
    }

    /// Records an externally observed outcome for one recorded attempt.
    /// The returned receipt is the one attached.
    pub fn record_external_outcome(
        &mut self,
        ordinal: u32,
        observed_at: Timestamp,
        outcome: ExecutionOutcome,
        proof_ref: &str,
    ) -> (r: Result<AttemptExternalReceipt, AttemptBlock>)
        ensures
            external_recorded(*old(self), *final(self), ordinal, observed_at, outcome, proof_ref@, r),

    {
        let index = self.locate(ordinal)?;
        if self.attempts[index].external.is_some() {
            return Err(AttemptBlock::ExternalOutcomeAlreadyRecorded { ordinal });
        }
        if observed_at.epoch_seconds() < self.attempts[index].dispatch.dispatched_at.epoch_seconds() {
            return Err(AttemptBlock::TemporalOrderViolation);
        }
        if is_blank(proof_ref) {
            return Err(AttemptBlock::EmptyExternalProof);
        }
        let receipt = AttemptExternalReceipt {
            attempt_id: self.attempts[index].id.clone(),
            observed_at,
            outcome,
            proof_ref: proof_ref.to_owned(),
        };
        let mut updated = self.attempts[index].clone();
        updated.external = Some(receipt.clone());
        self.attempts.set(index, updated);
        Ok(receipt)
    }

    /// Records reconciliation evidence for one recorded attempt.
    /// The returned receipt is the one appended.
    pub fn record_reconciliation(
        &mut self,
        ordinal: u32,
        observed_at: Timestamp,
        outcome: ReconciliationOutcome,
        proof_ref: &str,
    ) -> (r: Result<AttemptReconciliationReceipt, AttemptBlock>)
        ensures
            reconciliation_recorded(*old(self), *final(self), ordinal, observed_at, outcome, proof_ref@, r),

    {
        let index = self.locate(ordinal)?;
        if observed_at.epoch_seconds() < self.attempts[index].dispatch.dispatched_at.epoch_seconds() {
            return Err(AttemptBlock::TemporalOrderViolation);
        }
        if is_blank(proof_ref) {
            return Err(AttemptBlock::EmptyReconciliationProof);
        }
        let receipt = AttemptReconciliationReceipt {
            attempt_id: self.attempts[index].id.clone(),
            observed_at,
            outcome,
            proof_ref: proof_ref.to_owned(),
        };
        let mut updated = self.attempts[index].clone();
        updated.reconciliations.push(receipt.clone());
        self.attempts.set(index, updated);
        Ok(receipt)
    }

    /// Builds the retry-authority inputs from the latest physical attempt
    /// while preserving the complete prior-attempt ledger.
    ///
    /// A late success on an older attempt or contradictory evidence blocks this
    /// bridge so callers cannot silently continue retrying through ambiguity.
    pub fn retry_inputs(&self) -> (r: Result<
        (ExecutionTrace, Option<ReconciliationReceipt>, RetryContext),
        AttemptBlock,
    >)
        ensures
            retry_inputs_given(*self, r),
    {
        if self.has_conflicting_evidence() {
            return Err(AttemptBlock::ConflictingEvidence);
        }
        if self.prior_attempt_succeeded() {
            return Err(AttemptBlock::PriorAttemptSucceeded);
        }
        let n = self.attempts.len();
        if n == 0 {
            return Ok((ExecutionTrace::new(self.ticket.clone()), None, RetryContext::default()));
        }
        let latest = &self.attempts[n - 1];
        let trace = ExecutionTrace {
            ticket: self.ticket.clone(),
            dispatch: Some(
                DispatchReceipt {
                    action_id: self.ticket.action_id.clone(),
                    dispatched_at: latest.dispatch.dispatched_at,
                    proof_ref: latest.dispatch.proof_ref.clone(),
                },
            ),
            external: match &latest.external {
                Some(external) => Some(
                    ExternalExecutionReceipt {
                        action_id: self.ticket.action_id.clone(),
                        observed_at: external.observed_at,
                        outcome: external.outcome,
                        proof_ref: external.proof_ref.clone(),
                    },
                ),
                None => None,
            },
        };
        let reconciliation = match latest.latest_reconciliation() {
            Some(receipt) => Some(
                ReconciliationReceipt {
                    action_id: self.ticket.action_id.clone(),
                    observed_at: receipt.observed_at,
                    outcome: receipt.outcome,
                    proof_ref: receipt.proof_ref.clone(),
                },
            ),
            None => None,
        };
        Ok((trace, reconciliation, self.retry_context()))
    }
}

/// A physical attempt is only ever recorded as the next ordinal: the first
/// dispatch becomes attempt zero and each redispatch the attempt after the
/// last.
pub proof fn law_attempts_are_sequential(
    ticket: AuthorityTicket,
    binding: IdempotencyBinding,
    attempts: Seq<AttemptRecord>,
    decision: RetryDecision,
    dispatched_at: Timestamp,
    proof_ref: Seq<char>,
)
    requires
        attempts.len() <= u32::MAX,
    ensures
        dispatch_admission(ticket, binding, attempts, decision, dispatched_at, proof_ref) matches Ok(
            ordinal,
        ) ==> ordinal == attempts.len(),
{
}

/// Each recorded attempt's ordinal is its position in the ledger.
pub open spec fn ordinals_are_positions(attempts: Seq<AttemptRecord>) -> bool {
    forall|i: int| 0 <= i < attempts.len() ==> #[trigger] attempts[i].id.ordinal == i
}

/// A dispatch keeps every attempt's ordinal equal to its position in the
/// ledger: a new ledger holds no attempt, and the attempt a dispatch appends
/// takes the next position.
pub proof fn law_dispatch_keeps_ordinals_positional(
    old: AttemptLedger,
    new: AttemptLedger,
    decision: RetryDecision,
    dispatched_at: Timestamp,
    proof_ref: Seq<char>,
    r: Result<AttemptRecord, AttemptBlock>,
)
    requires
        old.spec_attempts().len() <= u32::MAX,
        ordinals_are_positions(old.spec_attempts()),
        dispatch_recorded(old, new, decision, dispatched_at, proof_ref, r),
    ensures
        ordinals_are_positions(new.spec_attempts()),
{
    if r is Ok {
        let n = old.spec_attempts().len() as int;
        assert forall|i: int| 0 <= i < new.spec_attempts().len() implies #[trigger] new.spec_attempts()[i].id.ordinal
            == i by {
            if i < n {
                assert(new.spec_attempts()[i] == new.spec_attempts().drop_last()[i]);
            }
        }
    }
}

/// Recording an external outcome keeps every attempt's ordinal equal to its
/// position in the ledger.
pub proof fn law_external_outcome_keeps_ordinals_positional(
    old: AttemptLedger,
    new: AttemptLedger,
    ordinal: u32,
    observed_at: Timestamp,
    outcome: ExecutionOutcome,
    proof_ref: Seq<char>,
    r: Result<AttemptExternalReceipt, AttemptBlock>,
)
    requires
        ordinals_are_positions(old.spec_attempts()),
        external_recorded(old, new, ordinal, observed_at, outcome, proof_ref, r),
    ensures
        ordinals_are_positions(new.spec_attempts()),
{
    if r is Ok {
        assert forall|i: int| 0 <= i < new.spec_attempts().len() implies #[trigger] new.spec_attempts()[i].id.ordinal
            == i by {
            if i != ordinal {
                assert(new.spec_attempts()[i] == old.spec_attempts()[i]);
            }
        }
    }
}

/// Recording reconciliation evidence keeps every attempt's ordinal equal to
/// its position in the ledger.
pub proof fn law_reconciliation_keeps_ordinals_positional(
    old: AttemptLedger,
    new: AttemptLedger,
    ordinal: u32,
    observed_at: Timestamp,
    outcome: ReconciliationOutcome,
    proof_ref: Seq<char>,
    r: Result<AttemptReconciliationReceipt, AttemptBlock>,
)
    requires
        ordinals_are_positions(old.spec_attempts()),
        reconciliation_recorded(old, new, ordinal, observed_at, outcome, proof_ref, r),
    ensures
        ordinals_are_positions(new.spec_attempts()),
{
    if r is Ok {
        assert forall|i: int| 0 <= i < new.spec_attempts().len() implies #[trigger] new.spec_attempts()[i].id.ordinal
            == i by {
            if i != ordinal {
                assert(new.spec_attempts()[i] == old.spec_attempts()[i]);
            }
        }
    }
}

/// While the latest attempt is neither confirmed failed nor reconciled as
/// failed or without effect, no further dispatch is admitted, whatever the
/// retry decision claims.
pub proof fn law_unresolved_attempt_blocks_dispatch(
    ticket: AuthorityTicket,
    binding: IdempotencyBinding,
    attempts: Seq<AttemptRecord>,
    decision: RetryDecision,
    dispatched_at: Timestamp,
    proof_ref: Seq<char>,
)
    requires
        attempts.len() > 0,
        resolution_proof(attempts.last()) is None,
    ensures
        dispatch_admission(ticket, binding, attempts, decision, dispatched_at, proof_ref) is Err,
{
}

/// A redispatch is admitted only with the proof that resolved the previous
/// attempt among the decision's proof references.
pub proof fn law_redispatch_carries_resolution_proof(
    ticket: AuthorityTicket,
    binding: IdempotencyBinding,
    attempts: Seq<AttemptRecord>,
    decision: RetryDecision,
    dispatched_at: Timestamp,
    proof_ref: Seq<char>,
)
    requires
        dispatch_admission(ticket, binding, attempts, decision, dispatched_at, proof_ref) matches Ok(
            ordinal,
        ) && ordinal > 0,
    ensures
        resolution_proof(attempts.last()) is Some,
        holds_text(decision.proof_refs@, resolution_proof(attempts.last())->0),
{
}

/// Once an attempt before the latest is known to have succeeded, no further
/// dispatch is admitted and no retry view is handed out.
pub proof fn law_prior_success_blocks_retry(
    ticket: AuthorityTicket,
    binding: IdempotencyBinding,
    attempts: Seq<AttemptRecord>,
    decision: RetryDecision,
    dispatched_at: Timestamp,
    proof_ref: Seq<char>,
)
    requires
        prior_success(attempts),
    ensures
        dispatch_admission(ticket, binding, attempts, decision, dispatched_at, proof_ref) is Err,
        retry_inputs_admission(attempts) is Err,
{
}

} // verus!
