//! Write-ahead journal semantics for physical attempts: the events a journal
//! holds, how replaying them rebuilds the attempt ledger and the recovery
//! directive, and which new event each journal operation may append.
//!
//! A durable `Prepared` record without a durable dispatch receipt recovers to
//! reconciliation, never to permission for a blind dispatch. Reconciliation of
//! a prepared attempt stays prepared-scoped and never invents a dispatch.
use vstd::prelude::*;

use crate::attempt_ledger::{
    admit_at, dispatch_admission, dispatch_recorded, external_recorded, holds_text, ledger_conflicts,
    prior_success,
    evidence_admission, reconciliation_recorded, record_status, retry_inputs_admission, AttemptBlock,
    AttemptDispatchReceipt, AttemptId, AttemptLedger, AttemptRecord, AttemptStatus,
};
use crate::execution_receipt::{same_ticket, AuthorityTicket, ExecutionOutcome};
use crate::primitives::Timestamp;
use crate::reconciliation::{
    IdempotencyBinding, ReconciliationOutcome, RetryContext, RetryDecision, RetryVerdict,
};
use crate::text::{blank, contains_text, copy_texts, is_blank};

verus! {

/// Durable write-ahead intent for one physical attempt.
///
/// Once this record is fsynced, a crash before a local dispatch receipt must be
/// treated as ambiguous: the external call may or may not have crossed the
/// process boundary.
#[derive(Debug, PartialEq, Eq)]
pub struct PreparedAttempt {
    pub id: AttemptId,
    pub prepared_at: Timestamp,
    pub authorization_proof_refs: Vec<String>,
}

/// Two prepared attempts carry the same identity, time and proofs.
pub open spec fn same_prepared(a: PreparedAttempt, b: PreparedAttempt) -> bool {
    &&& a.id == b.id
    &&& a.prepared_at == b.prepared_at
    &&& a.authorization_proof_refs@ == b.authorization_proof_refs@
}

impl Clone for PreparedAttempt {
    fn clone(&self) -> (r: Self)
        ensures
            same_prepared(r, *self),
    {
        PreparedAttempt {
            id: self.id.clone(),
            prepared_at: self.prepared_at,
            authorization_proof_refs: copy_texts(&self.authorization_proof_refs),
        }
    }
}

/// Provider reconciliation evidence for a prepared attempt that has no local
/// dispatch receipt. This is deliberately not a `DispatchReceipt`.
#[derive(Debug, PartialEq, Eq)]
pub struct PreparedReconciliationReceipt {
    pub attempt_id: AttemptId,
    pub observed_at: Timestamp,
    pub outcome: ReconciliationOutcome,
    pub proof_ref: String,
}

impl Clone for PreparedReconciliationReceipt {
    fn clone(&self) -> (r: Self)
        ensures
            r == *self,
    {
        PreparedReconciliationReceipt {
            attempt_id: self.attempt_id.clone(),
            observed_at: self.observed_at,
            outcome: self.outcome,
            proof_ref: self.proof_ref.clone(),
        }
    }
}

#[derive(Debug, Clone, Copy, PartialEq, Eq, Structural)]
pub enum RecoveryDirective {
    ReadyForInitialPreparation,
    ReconcilePreparedAttempt { ordinal: u32 },
    ReconcileDispatchedAttempt { ordinal: u32 },
    EvaluateRetry { ordinal: u32 },
    CloseSucceeded { ordinal: u32 },
    Block,
}

/// Replayed restart state reconstructed only from durable journal records.
#[derive(Debug, Clone, PartialEq)]
pub struct RecoveredRuntime {
    pub ledger: AttemptLedger,
    pub pending_prepared: Option<PreparedAttempt>,
    pub prepared_reconciliations: Vec<PreparedReconciliationReceipt>,
    pub next_attempt_ordinal: u32,
    pub directive: RecoveryDirective,
    pub repaired_truncated_tail: bool,
    pub last_sequence: u64,
}

#[derive(Debug, Clone, PartialEq, Eq)]
pub enum JournalError {
    Io(String),
    JournalAlreadyExists,
    EmptyJournal,
    MissingBinding,
    DuplicateBinding,
    BindingMustBeFirst,
    BindingActionMismatch,
    EmptyIdempotencyKey,
    EmptyProof,
    InvalidRecord,
    InvalidChecksum { sequence: u64 },
    SequenceGap { expected: u64, received: u64 },
    InvalidHex,
    InvalidUtf8,
    InvalidNumber,
    InvalidExecutionMode,
    InvalidReconciliationOutcome,
    InvalidExecutionOutcome,
    InvalidActionId,
    DecisionActionMismatch,
    DecisionIdempotencyMismatch,
    DecisionDoesNotAuthorizePreparation,
    RecoveryDirectiveDoesNotAuthorizePreparation,
    PendingPreparedAttempt { ordinal: u32 },
    NoPendingPreparedAttempt,
    PreparedOrdinalMismatch { expected: u32, received: u32 },
    DispatchBeforePreparation,
    ReconciliationBeforePreparation,
    UnexpectedPreparationOrdinal { expected: u32, received: u32 },
    RecoveredPreparedRequiresReconciliation { ordinal: u32 },
    PreparedResolutionNotRetrySafe { ordinal: u32 },
    Attempt(AttemptBlock),
}

impl From<AttemptBlock> for JournalError {
    fn from(value: AttemptBlock) -> (r: Self) {
        JournalError::Attempt(value)
    }
}

impl vstd::std_specs::convert::FromSpecImpl<AttemptBlock> for JournalError {
    open spec fn obeys_from_spec() -> bool {
        true
    }

    open spec fn from_spec(v: AttemptBlock) -> Self {
        JournalError::Attempt(v)
    }
}

/// One durable journal record.
#[derive(Debug, Clone, PartialEq)]
pub enum JournalEvent {
    Binding { ticket: AuthorityTicket, binding: IdempotencyBinding },
    Prepared(PreparedAttempt),
    Dispatch { ordinal: u32, dispatched_at: Timestamp, proof_ref: String },
    Reconciliation {
        ordinal: u32,
        observed_at: Timestamp,
        outcome: ReconciliationOutcome,
        proof_ref: String,
    },
    External { ordinal: u32, observed_at: Timestamp, outcome: ExecutionOutcome, proof_ref: String },
}

/// The prepared-scoped reconciliation recorded last for `ordinal`.
pub open spec fn latest_prepared_for(
    receipts: Seq<PreparedReconciliationReceipt>,
    ordinal: u32,
) -> Option<PreparedReconciliationReceipt>
    decreases receipts.len(),
{
    if receipts.len() == 0 {
        None
    } else if receipts.last().attempt_id.ordinal == ordinal {
        Some(receipts.last())
    } else {
        latest_prepared_for(receipts.drop_last(), ordinal)
    }
}

/// The prepared-scoped reconciliation with a settled outcome recorded last for
/// `ordinal`.
pub open spec fn latest_terminal_prepared_for(
    receipts: Seq<PreparedReconciliationReceipt>,
    ordinal: u32,
) -> Option<PreparedReconciliationReceipt>
    decreases receipts.len(),
{
    if receipts.len() == 0 {
        None
    } else if receipts.last().attempt_id.ordinal == ordinal && receipts.last().outcome
        != ReconciliationOutcome::StillUnknown {
        Some(receipts.last())
    } else {
        latest_terminal_prepared_for(receipts.drop_last(), ordinal)
    }
}

/// Two settled prepared-scoped reconciliations about one attempt disagree.
pub open spec fn prepared_conflict_pair(receipts: Seq<PreparedReconciliationReceipt>, i: int, j: int) -> bool {
    &&& 0 <= i < receipts.len()
    &&& 0 <= j < receipts.len()
    &&& receipts[i].outcome != ReconciliationOutcome::StillUnknown
    &&& receipts[j].outcome != ReconciliationOutcome::StillUnknown
    &&& receipts[i].attempt_id.ordinal == receipts[j].attempt_id.ordinal
    &&& receipts[i].outcome != receipts[j].outcome
}

/// Settled prepared-scoped reconciliations contradict each other.
pub open spec fn prepared_conflicts(receipts: Seq<PreparedReconciliationReceipt>) -> bool {
    exists|i: int, j: int| #[trigger] prepared_conflict_pair(receipts, i, j)
}

/// The ledger holds a dispatched attempt with `ordinal`.
pub open spec fn ledger_has(attempts: Seq<AttemptRecord>, ordinal: u32) -> bool {
    exists|i: int| 0 <= i < attempts.len() && (#[trigger] attempts[i]).id.ordinal == ordinal
}

/// The directive for the latest attempt when it is only prepared and was
/// reconciled in that scope.
pub open spec fn prepared_directive(receipt: PreparedReconciliationReceipt, ordinal: u32) -> RecoveryDirective {
    match receipt.outcome {
        ReconciliationOutcome::StillUnknown => RecoveryDirective::ReconcilePreparedAttempt { ordinal },
        ReconciliationOutcome::EffectFailed => RecoveryDirective::EvaluateRetry { ordinal },
        ReconciliationOutcome::NoEffectConfirmed => RecoveryDirective::EvaluateRetry { ordinal },
        ReconciliationOutcome::EffectSucceeded => RecoveryDirective::CloseSucceeded { ordinal },
    }
}

/// The directive for the latest dispatched attempt in the given status.
pub open spec fn dispatched_directive(status: AttemptStatus, ordinal: u32) -> RecoveryDirective {
    match status {
        AttemptStatus::DispatchedEffectUnknown => RecoveryDirective::ReconcileDispatchedAttempt {
            ordinal,
        },
        AttemptStatus::Reconciled(ReconciliationOutcome::StillUnknown) => {
            RecoveryDirective::ReconcileDispatchedAttempt { ordinal }
        },
        AttemptStatus::Reconciled(ReconciliationOutcome::NoEffectConfirmed) => {
            RecoveryDirective::EvaluateRetry { ordinal }
        },
        AttemptStatus::Reconciled(ReconciliationOutcome::EffectFailed) => {
            RecoveryDirective::EvaluateRetry { ordinal }
        },
        AttemptStatus::EffectConfirmed(ExecutionOutcome::Failed) => RecoveryDirective::EvaluateRetry {
            ordinal,
        },
        AttemptStatus::Reconciled(ReconciliationOutcome::EffectSucceeded) => {
            RecoveryDirective::CloseSucceeded { ordinal }
        },
        AttemptStatus::EffectConfirmed(ExecutionOutcome::Succeeded) => {
            RecoveryDirective::CloseSucceeded { ordinal }
        },
    }
}

/// What a restarted runtime may do next: a pending prepared attempt is
/// reconciled first; contradictory evidence blocks; a latest attempt that was
/// only prepared follows its latest prepared-scoped reconciliation; otherwise
/// the latest dispatched attempt's status decides.
pub open spec fn recovery_directive_of(
    attempts: Seq<AttemptRecord>,
    pending: Option<PreparedAttempt>,
    receipts: Seq<PreparedReconciliationReceipt>,
    next_ordinal: u32,
) -> RecoveryDirective {
    match pending {
        Some(prepared) => RecoveryDirective::ReconcilePreparedAttempt { ordinal: prepared.id.ordinal },
        None => if ledger_conflicts(attempts) || prepared_conflicts(receipts) {
            RecoveryDirective::Block
        } else if next_ordinal > 0 && !ledger_has(attempts, (next_ordinal - 1) as u32) {
            match latest_prepared_for(receipts, (next_ordinal - 1) as u32) {
                None => RecoveryDirective::Block,
                Some(receipt) => prepared_directive(receipt, (next_ordinal - 1) as u32),
            }
        } else if attempts.len() == 0 {
            RecoveryDirective::ReadyForInitialPreparation
        } else if retry_inputs_admission(attempts) is Err {
            RecoveryDirective::Block
        } else {
            dispatched_directive(record_status(attempts.last()), attempts.last().id.ordinal)
        },
    }
}

/// The ordinal after `ordinal`, saturating at the largest ordinal.
pub open spec fn ordinal_after(ordinal: u32) -> u32 {
    if ordinal == u32::MAX {
        u32::MAX
    } else {
        (ordinal + 1) as u32
    }
}

impl RecoveredRuntime {
    /// Physical redispatches used so far: one less than the ordinals prepared.
    pub fn retry_context(&self) -> (c: RetryContext)
        ensures
            c.redispatches_used == if self.next_attempt_ordinal == 0 {
                0
            } else {
                self.next_attempt_ordinal - 1
            },
    {
        RetryContext { redispatches_used: self.next_attempt_ordinal.saturating_sub(1) }
    }

    pub fn latest_prepared_reconciliation(&self, ordinal: u32) -> (r: Option<
        &PreparedReconciliationReceipt,
    >)
        ensures
            match r {
                Some(x) => latest_prepared_for(self.prepared_reconciliations@, ordinal) == Some(*x),
                None => latest_prepared_for(self.prepared_reconciliations@, ordinal) is None,
            },
    {
        let receipts = &self.prepared_reconciliations;
        let mut i = receipts.len();
        assert(receipts@.subrange(0, i as int) =~= receipts@);
        while i > 0
            invariant
                receipts@ == self.prepared_reconciliations@,
                i <= receipts@.len(),
                latest_prepared_for(receipts@, ordinal) == latest_prepared_for(
                    receipts@.subrange(0, i as int),
                    ordinal,
                ),
            decreases i,
        {
            let ghost prefix = receipts@.subrange(0, i as int);
            assert(prefix.last() == receipts@[i - 1]);
            assert(prefix.drop_last() =~= receipts@.subrange(0, i - 1));
            if receipts[i - 1].attempt_id.ordinal == ordinal {
                return Some(&receipts[i - 1]);
            }
            i = i - 1;
        }
        None
    }

    pub fn latest_terminal_prepared_reconciliation(&self, ordinal: u32) -> (r: Option<
        &PreparedReconciliationReceipt,
    >)
        ensures
            match r {
                Some(x) => latest_terminal_prepared_for(self.prepared_reconciliations@, ordinal)
                    == Some(*x),
                None => latest_terminal_prepared_for(self.prepared_reconciliations@, ordinal) is None,
            },
    {
        let receipts = &self.prepared_reconciliations;
        let mut i = receipts.len();
        assert(receipts@.subrange(0, i as int) =~= receipts@);
        while i > 0
            invariant
                receipts@ == self.prepared_reconciliations@,
                i <= receipts@.len(),
                latest_terminal_prepared_for(receipts@, ordinal) == latest_terminal_prepared_for(
                    receipts@.subrange(0, i as int),
                    ordinal,
                ),
            decreases i,
        {
            let ghost prefix = receipts@.subrange(0, i as int);
            assert(prefix.last() == receipts@[i - 1]);
            assert(prefix.drop_last() =~= receipts@.subrange(0, i - 1));
            if receipts[i - 1].attempt_id.ordinal == ordinal && receipts[i - 1].outcome
                != ReconciliationOutcome::StillUnknown {
                return Some(&receipts[i - 1]);
            }
            i = i - 1;
        }
        None
    }
}

/// Whether the ledger holds a dispatched attempt with `ordinal`.
fn ledger_holds(ledger: &AttemptLedger, ordinal: u32) -> (b: bool)
    ensures
        b == ledger_has(ledger.spec_attempts(), ordinal),
{
    let attempts = ledger.attempts();
    let mut i: usize = 0;
    while i < attempts.len()
        invariant
            attempts@ == ledger.spec_attempts(),
            i <= attempts@.len(),
            forall|j: int| 0 <= j < i ==> (#[trigger] attempts@[j]).id.ordinal != ordinal,
        decreases attempts@.len() - i,
    {
        if attempts[i].id.ordinal == ordinal {
            return true;
        }
        i = i + 1;
    }
    false
}

fn prepared_receipts_conflict(receipts: &Vec<PreparedReconciliationReceipt>) -> (b: bool)
    ensures
        b == prepared_conflicts(receipts@),
{
    let mut i: usize = 0;
    while i < receipts.len()
        invariant
            i <= receipts@.len(),
            forall|a: int, c: int| a < i ==> !#[trigger] prepared_conflict_pair(receipts@, a, c),
        decreases receipts@.len() - i,
    {
        if receipts[i].outcome != ReconciliationOutcome::StillUnknown {
            let mut j: usize = 0;
            while j < receipts.len()
                invariant
                    i < receipts@.len(),
                    j <= receipts@.len(),
                    receipts@[i as int].outcome != ReconciliationOutcome::StillUnknown,
                    forall|c: int| c < j ==> !#[trigger] prepared_conflict_pair(receipts@, i as int, c),
                decreases receipts@.len() - j,
            {
                if receipts[j].outcome != ReconciliationOutcome::StillUnknown
                    && receipts[j].attempt_id.ordinal == receipts[i].attempt_id.ordinal
                    && receipts[j].outcome != receipts[i].outcome {
                    assert(prepared_conflict_pair(receipts@, i as int, j as int));
                    return true;
                }
                j = j + 1;
            }
        }
        i = i + 1;
    }
    false
}

/// Decides what a restarted runtime may do next from the replayed state.
#[verifier::loop_isolation(false)]
pub fn recovery_directive(
    ledger: &AttemptLedger,
    pending: Option<&PreparedAttempt>,
    receipts: &Vec<PreparedReconciliationReceipt>,
    next_ordinal: u32,
) -> (d: RecoveryDirective)
    ensures
        d == recovery_directive_of(
            ledger.spec_attempts(),
            match pending {
                Some(p) => Some(*p),
                None => None,
            },
            receipts@,
            next_ordinal,
        ),
{
    if let Some(prepared) = pending {
        return RecoveryDirective::ReconcilePreparedAttempt { ordinal: prepared.id.ordinal };
    }
    if ledger.has_conflicting_evidence() || prepared_receipts_conflict(receipts) {
        return RecoveryDirective::Block;
    }
    if next_ordinal > 0 && !ledger_holds(ledger, next_ordinal - 1) {
        let ordinal = next_ordinal - 1;
        let mut i = receipts.len();
        assert(receipts@.subrange(0, i as int) =~= receipts@);
        while i > 0
            invariant
                i <= receipts@.len(),
                latest_prepared_for(receipts@, ordinal) == latest_prepared_for(
                    receipts@.subrange(0, i as int),
                    ordinal,
                ),
            decreases i,
        {
            let ghost prefix = receipts@.subrange(0, i as int);
            assert(prefix.last() == receipts@[i - 1]);
            assert(prefix.drop_last() =~= receipts@.subrange(0, i - 1));
            if receipts[i - 1].attempt_id.ordinal == ordinal {
                return match receipts[i - 1].outcome {
                    ReconciliationOutcome::StillUnknown => {
                        RecoveryDirective::ReconcilePreparedAttempt { ordinal }
                    },
                    ReconciliationOutcome::EffectFailed | ReconciliationOutcome::NoEffectConfirmed => {
                        RecoveryDirective::EvaluateRetry { ordinal }
                    },
                    ReconciliationOutcome::EffectSucceeded => RecoveryDirective::CloseSucceeded {
                        ordinal,
                    },
                };
            }
            i = i - 1;
        }
        return RecoveryDirective::Block;
    }
    let latest = match ledger.latest() {
        Some(latest) => latest,
        None => return RecoveryDirective::ReadyForInitialPreparation,
    };
    if ledger.retry_inputs().is_err() {
        return RecoveryDirective::Block;
    }
    let ordinal = latest.id.ordinal;
    match latest.status() {
        AttemptStatus::DispatchedEffectUnknown | AttemptStatus::Reconciled(
            ReconciliationOutcome::StillUnknown,
        ) => RecoveryDirective::ReconcileDispatchedAttempt { ordinal },
        AttemptStatus::Reconciled(ReconciliationOutcome::NoEffectConfirmed)
        | AttemptStatus::Reconciled(ReconciliationOutcome::EffectFailed)
        | AttemptStatus::EffectConfirmed(ExecutionOutcome::Failed) => RecoveryDirective::EvaluateRetry {
            ordinal,
        },
        AttemptStatus::Reconciled(ReconciliationOutcome::EffectSucceeded)
        | AttemptStatus::EffectConfirmed(ExecutionOutcome::Succeeded) => {
            RecoveryDirective::CloseSucceeded { ordinal }
        },
    }
}


/// The ticket and binding the journal opens with: the first record must be
/// the only binding.
pub open spec fn events_binding(events: Seq<JournalEvent>) -> Result<
    (AuthorityTicket, IdempotencyBinding),
    JournalError,
> {
    if events.len() == 0 {
        Err(JournalError::MissingBinding)
    } else {
        match events[0] {
            JournalEvent::Binding { ticket, binding } => if exists|i: int|
                1 <= i < events.len() && (#[trigger] events[i]) is Binding {
                Err(JournalError::DuplicateBinding)
            } else {
                Ok((ticket, binding))
            },
            _ => Err(JournalError::BindingMustBeFirst),
        }
    }
}

/// Reads the ticket and binding a journal opens with.
pub fn binding_from_events(events: &Vec<JournalEvent>) -> (r: Result<
    (AuthorityTicket, IdempotencyBinding),
    JournalError,
>)
    ensures
        match events_binding(events@) {
            Err(e) => r == Err::<(AuthorityTicket, IdempotencyBinding), JournalError>(e),
            Ok((ticket, binding)) => r matches Ok((t, b)) && same_ticket(t, ticket) && b == binding,
        },
{
    if events.len() == 0 {
        return Err(JournalError::MissingBinding);
    }
    let (ticket, binding) = match &events[0] {
        JournalEvent::Binding { ticket, binding } => (ticket.clone(), binding.clone()),
        _ => return Err(JournalError::BindingMustBeFirst),
    };
    let mut i: usize = 1;
    while i < events.len()
        invariant
            1 <= i <= events@.len(),
            events@[0] is Binding,
            forall|j: int| 1 <= j < i ==> !((#[trigger] events@[j]) is Binding),
        decreases events@.len() - i,
    {
        if let JournalEvent::Binding { .. } = &events[i] {
            assert(events@[i as int] is Binding);
            return Err(JournalError::DuplicateBinding);
        }
        i = i + 1;
    }
    Ok((ticket, binding))
}

/// The retry decision a replayed dispatch of `prepared` carries into the
/// ledger: the journal's identity, the verdict for its ordinal and the
/// prepared authorization proofs.
pub open spec fn replay_decision(
    decision: RetryDecision,
    ledger: AttemptLedger,
    ordinal: u32,
    prepared: PreparedAttempt,
) -> bool {
    &&& decision.action_id == ledger.spec_ticket().action_id
    &&& decision.idempotency_key == ledger.spec_binding().key
    &&& decision.verdict == if ordinal == 0 {
        RetryVerdict::InitialDispatchAllowed
    } else {
        RetryVerdict::RedispatchAllowed { ordinal }
    }
    &&& decision.proof_refs@ == prepared.authorization_proof_refs@
}

/// A dispatch of `ordinal` follows an attempt that was resolved only in
/// prepared scope: no dispatched predecessor, but a settled prepared-scoped
/// reconciliation of it.
pub open spec fn follows_prepared_resolution(state: RecoveredRuntime, ordinal: u32) -> bool {
    &&& ordinal > 0
    &&& !ledger_has(state.ledger.spec_attempts(), (ordinal - 1) as u32)
    &&& latest_terminal_prepared_for(state.prepared_reconciliations@, (ordinal - 1) as u32) is Some
}

/// Whether a dispatch of `ordinal` may follow a prepared-scoped resolution of
/// its predecessor: the resolution is retry-safe, the prepared authorization
/// carries its proof, and the dispatch itself is admissible.
pub open spec fn prepared_lineage(
    state: RecoveredRuntime,
    ordinal: u32,
    proofs: Seq<String>,
) -> Result<(), JournalError> {
    let resolution = latest_terminal_prepared_for(
        state.prepared_reconciliations@,
        (ordinal - 1) as u32,
    )->0;
    if resolution.outcome != ReconciliationOutcome::EffectFailed && resolution.outcome
        != ReconciliationOutcome::NoEffectConfirmed {
        Err(JournalError::PreparedResolutionNotRetrySafe { ordinal: (ordinal - 1) as u32 })
    } else if !holds_text(proofs, resolution.proof_ref) {
        Err(JournalError::Attempt(AttemptBlock::RetryProofLineageMissing))
    } else {
        Ok(())
    }
}

/// Replay state apart from the ledger, the pending attempt and the prepared
/// reconciliations stays as it was.
pub open spec fn same_counters(before: RecoveredRuntime, after: RecoveredRuntime) -> bool {
    &&& after.next_attempt_ordinal == before.next_attempt_ordinal
    &&& after.directive == before.directive
    &&& after.repaired_truncated_tail == before.repaired_truncated_tail
    &&& after.last_sequence == before.last_sequence
}

/// Reconciliation evidence about a dispatched attempt goes to the ledger.
pub open spec fn ledger_reconciliation_step(
    before: RecoveredRuntime,
    after: RecoveredRuntime,
    ordinal: u32,
    observed_at: Timestamp,
    outcome: ReconciliationOutcome,
    proof_ref: String,
    r: Result<(), JournalError>,
) -> bool {
    exists|lr: Result<crate::attempt_ledger::AttemptReconciliationReceipt, AttemptBlock>|
        #[trigger] reconciliation_recorded(
            before.ledger,
            after.ledger,
            ordinal,
            observed_at,
            outcome,
            proof_ref@,
            lr,
        ) && match lr {
            Ok(_) => {
                &&& r is Ok
                &&& after.pending_prepared == before.pending_prepared
                &&& after.prepared_reconciliations == before.prepared_reconciliations
                &&& same_counters(before, after)
            },
            Err(e) => r == Err::<(), JournalError>(JournalError::Attempt(e)),
        }
}

/// How replaying one journal record changes the replay state, or why the
/// journal is refused.
pub open spec fn event_replayed(
    before: RecoveredRuntime,
    event: JournalEvent,
    after: RecoveredRuntime,
    r: Result<(), JournalError>,
) -> bool {
    match event {
        JournalEvent::Binding { .. } => r == Err::<(), JournalError>(JournalError::DuplicateBinding),
        JournalEvent::Prepared(prepared) => match before.pending_prepared {
            Some(existing) => r == Err::<(), JournalError>(
                JournalError::PendingPreparedAttempt { ordinal: existing.id.ordinal },
            ),
            None => if prepared.id.ordinal != before.next_attempt_ordinal {
                r == Err::<(), JournalError>(
                    JournalError::UnexpectedPreparationOrdinal {
                        expected: before.next_attempt_ordinal,
                        received: prepared.id.ordinal,
                    },
                )
            } else if prepared.id.action_id@ != before.ledger.spec_ticket().action_id@ {
                r == Err::<(), JournalError>(JournalError::BindingActionMismatch)
            } else {
                &&& r is Ok
                &&& after.ledger == before.ledger
                &&& after.prepared_reconciliations == before.prepared_reconciliations
                &&& after.pending_prepared matches Some(p) && same_prepared(p, prepared)
                &&& after.next_attempt_ordinal == ordinal_after(prepared.id.ordinal)
            },
        },
        JournalEvent::Dispatch { ordinal, dispatched_at, proof_ref } => match before.pending_prepared {
            None => r == Err::<(), JournalError>(JournalError::NoPendingPreparedAttempt),
            Some(prepared) => if prepared.id.ordinal != ordinal {
                r == Err::<(), JournalError>(
                    JournalError::PreparedOrdinalMismatch {
                        expected: prepared.id.ordinal,
                        received: ordinal,
                    },
                )
            } else if dispatched_at@ < prepared.prepared_at@ {
                r == Err::<(), JournalError>(JournalError::DispatchBeforePreparation)
            } else if follows_prepared_resolution(before, ordinal) {
                match prepared_lineage(before, ordinal, prepared.authorization_proof_refs@) {
                    Err(e) => r == Err::<(), JournalError>(e),
                    Ok(_) => match admit_at(before.ledger.spec_ticket(), ordinal, dispatched_at, proof_ref@) {
                        Err(e) => r == Err::<(), JournalError>(JournalError::Attempt(e)),
                        Ok(_) => {
                            let record = after.ledger.spec_attempts().last();
                            &&& r is Ok
                            &&& after.ledger.spec_ticket() == before.ledger.spec_ticket()
                            &&& after.ledger.spec_binding() == before.ledger.spec_binding()
                            &&& after.ledger.spec_attempts().len() == before.ledger.spec_attempts().len()
                                + 1
                            &&& after.ledger.spec_attempts().drop_last() == before.ledger.spec_attempts()
                            &&& record.id == prepared.id
                            &&& record.dispatch == AttemptDispatchReceipt {
                                attempt_id: prepared.id,
                                dispatched_at,
                                proof_ref,
                            }
                            &&& record.authorization_proof_refs@ == prepared.authorization_proof_refs@
                            &&& record.reconciliations@.len() == 0
                            &&& record.external is None
                            &&& after.pending_prepared is None
                            &&& after.prepared_reconciliations == before.prepared_reconciliations
                            &&& after.next_attempt_ordinal == before.next_attempt_ordinal
                        },
                    },
                }
            } else {
                exists|decision: RetryDecision, lr: Result<AttemptRecord, AttemptBlock>|
                    replay_decision(decision, before.ledger, ordinal, prepared)
                        && #[trigger] dispatch_recorded(
                        before.ledger,
                        after.ledger,
                        decision,
                        dispatched_at,
                        proof_ref@,
                        lr,
                    ) && match lr {
                        Ok(_) => {
                            &&& r is Ok
                            &&& after.pending_prepared is None
                            &&& after.prepared_reconciliations == before.prepared_reconciliations
                            &&& after.next_attempt_ordinal == before.next_attempt_ordinal
                        },
                        Err(e) => r == Err::<(), JournalError>(JournalError::Attempt(e)),
                    }
            },
        },
        JournalEvent::Reconciliation { ordinal, observed_at, outcome, proof_ref } => match before.pending_prepared {
            Some(prepared) => if prepared.id.ordinal != ordinal {
                r == Err::<(), JournalError>(
                    JournalError::PreparedOrdinalMismatch {
                        expected: prepared.id.ordinal,
                        received: ordinal,
                    },
                )
            } else if observed_at@ < prepared.prepared_at@ {
                r == Err::<(), JournalError>(JournalError::ReconciliationBeforePreparation)
            } else {
                &&& r is Ok
                &&& after.ledger == before.ledger
                &&& after.pending_prepared is None
                &&& after.next_attempt_ordinal == before.next_attempt_ordinal
                &&& after.prepared_reconciliations@ == before.prepared_reconciliations@.push(
                    PreparedReconciliationReceipt {
                        attempt_id: prepared.id,
                        observed_at,
                        outcome,
                        proof_ref,
                    },
                )
            },
            None => match latest_prepared_for(before.prepared_reconciliations@, ordinal) {
                Some(previous) => if !ledger_has(before.ledger.spec_attempts(), ordinal) {
                    if observed_at@ < previous.observed_at@ {
                        r == Err::<(), JournalError>(JournalError::ReconciliationBeforePreparation)
                    } else {
                        &&& r is Ok
                        &&& after.ledger == before.ledger
                        &&& after.pending_prepared is None
                        &&& after.next_attempt_ordinal == before.next_attempt_ordinal
                        &&& after.prepared_reconciliations@
                            == before.prepared_reconciliations@.push(
                            PreparedReconciliationReceipt {
                                attempt_id: previous.attempt_id,
                                observed_at,
                                outcome,
                                proof_ref,
                            },
                        )
                    }
                } else {
                    ledger_reconciliation_step(before, after, ordinal, observed_at, outcome, proof_ref, r)
                },
                None => ledger_reconciliation_step(
                    before,
                    after,
                    ordinal,
                    observed_at,
                    outcome,
                    proof_ref,
                    r,
                ),
            },
        },
        JournalEvent::External { ordinal, observed_at, outcome, proof_ref } => match before.pending_prepared {
            Some(prepared) => r == Err::<(), JournalError>(
                JournalError::PendingPreparedAttempt { ordinal: prepared.id.ordinal },
            ),
            None => exists|lr: Result<crate::attempt_ledger::AttemptExternalReceipt, AttemptBlock>|
                #[trigger] external_recorded(
                    before.ledger,
                    after.ledger,
                    ordinal,
                    observed_at,
                    outcome,
                    proof_ref@,
                    lr,
                ) && match lr {
                    Ok(_) => {
                        &&& r is Ok
                        &&& after.pending_prepared is None
                        &&& after.prepared_reconciliations == before.prepared_reconciliations
                        &&& after.next_attempt_ordinal == before.next_attempt_ordinal
                    },
                    Err(e) => r == Err::<(), JournalError>(JournalError::Attempt(e)),
                },
        },
    }
}


/// Replays one journal record onto the replay state.
fn replay_event(rt: &mut RecoveredRuntime, event: &JournalEvent) -> (r: Result<(), JournalError>)
    ensures
        event_replayed(*old(rt), *event, *final(rt), r),
        final(rt).repaired_truncated_tail == old(rt).repaired_truncated_tail,
        final(rt).last_sequence == old(rt).last_sequence,
{
    let ghost before = *rt;
    match event {
        JournalEvent::Binding { .. } => Err(JournalError::DuplicateBinding),
        JournalEvent::Prepared(prepared) => {
            if let Some(existing) = &rt.pending_prepared {
                return Err(JournalError::PendingPreparedAttempt { ordinal: existing.id.ordinal });
            }
            if prepared.id.ordinal != rt.next_attempt_ordinal {
                return Err(
                    JournalError::UnexpectedPreparationOrdinal {
                        expected: rt.next_attempt_ordinal,
                        received: prepared.id.ordinal,
                    },
                );
            }
            if prepared.id.action_id != rt.ledger.ticket().action_id {
                return Err(JournalError::BindingActionMismatch);
            }
            rt.pending_prepared = Some(prepared.clone());
            rt.next_attempt_ordinal = prepared.id.ordinal.saturating_add(1);
            Ok(())
        },
        JournalEvent::Dispatch { ordinal, dispatched_at, proof_ref } => {
            let ordinal = *ordinal;
            let dispatched_at = *dispatched_at;
            match &rt.pending_prepared {
                None => return Err(JournalError::NoPendingPreparedAttempt),
                Some(prepared) => {
                    if prepared.id.ordinal != ordinal {
                        return Err(
                            JournalError::PreparedOrdinalMismatch {
                                expected: prepared.id.ordinal,
                                received: ordinal,
                            },
                        );
                    }
                    if dispatched_at.epoch_seconds() < prepared.prepared_at.epoch_seconds() {
                        return Err(JournalError::DispatchBeforePreparation);
                    }
                },
            }
            let follows_resolution = ordinal > 0 && !ledger_holds(&rt.ledger, ordinal - 1)
                && rt.latest_terminal_prepared_reconciliation(ordinal - 1).is_some();
            if follows_resolution {
                match rt.latest_terminal_prepared_reconciliation(ordinal - 1) {
                    None => return Err(JournalError::NoPendingPreparedAttempt),
                    Some(resolution) => {
                        if resolution.outcome != ReconciliationOutcome::EffectFailed
                            && resolution.outcome != ReconciliationOutcome::NoEffectConfirmed {
                            return Err(
                                JournalError::PreparedResolutionNotRetrySafe { ordinal: ordinal - 1 },
                            );
                        }
                        let lineage = match &rt.pending_prepared {
                            Some(prepared) => contains_text(
                                &prepared.authorization_proof_refs,
                                &resolution.proof_ref,
                            ),
                            None => false,
                        };
                        if !lineage {
                            return Err(JournalError::Attempt(AttemptBlock::RetryProofLineageMissing));
                        }
                    },
                }
                if dispatched_at.epoch_seconds() < rt.ledger.ticket().issued_at.epoch_seconds() {
                    return Err(JournalError::Attempt(AttemptBlock::TemporalOrderViolation));
                }
                if is_blank(proof_ref.as_str()) {
                    return Err(JournalError::Attempt(AttemptBlock::EmptyDispatchProof));
                }
                let prepared = match rt.pending_prepared.take() {
                    Some(prepared) => prepared,
                    None => return Err(JournalError::NoPendingPreparedAttempt),
                };
                let record = AttemptRecord {
                    id: prepared.id.clone(),
                    dispatch: AttemptDispatchReceipt {
                        attempt_id: prepared.id,
                        dispatched_at,
                        proof_ref: proof_ref.clone(),
                    },
                    authorization_proof_refs: prepared.authorization_proof_refs,
                    reconciliations: Vec::new(),
                    external: None,
                };
                let ghost attempts_before = rt.ledger.spec_attempts();
                rt.ledger.append_recovered(record);
                assert(rt.ledger.spec_attempts().drop_last() =~= attempts_before);
                return Ok(());
            }
            let prepared = match rt.pending_prepared.take() {
                Some(prepared) => prepared,
                None => return Err(JournalError::NoPendingPreparedAttempt),
            };
            let verdict = if ordinal == 0 {
                RetryVerdict::InitialDispatchAllowed
            } else {
                RetryVerdict::RedispatchAllowed { ordinal }
            };
            let decision = RetryDecision {
                action_id: rt.ledger.ticket().action_id.clone(),
                idempotency_key: rt.ledger.binding().key.clone(),
                verdict,
                reasons: Vec::new(),
                proof_refs: prepared.authorization_proof_refs,
            };
            let ghost ledger_before = rt.ledger;
            let recorded = rt.ledger.record_dispatch(&decision, dispatched_at, proof_ref.as_str());
            assert(dispatch_recorded(ledger_before, rt.ledger, decision, dispatched_at, proof_ref@, recorded));
            match recorded {
                Ok(_) => Ok(()),
                Err(e) => Err(JournalError::Attempt(e)),
            }
        },
        JournalEvent::Reconciliation { ordinal, observed_at, outcome, proof_ref } => {
            let ordinal = *ordinal;
            let observed_at = *observed_at;
            let outcome = *outcome;
            if let Some(prepared) = &rt.pending_prepared {
                if prepared.id.ordinal != ordinal {
                    return Err(
                        JournalError::PreparedOrdinalMismatch {
                            expected: prepared.id.ordinal,
                            received: ordinal,
                        },
                    );
                }
                if observed_at.epoch_seconds() < prepared.prepared_at.epoch_seconds() {
                    return Err(JournalError::ReconciliationBeforePreparation);
                }
                let prepared = match rt.pending_prepared.take() {
                    Some(prepared) => prepared,
                    None => return Err(JournalError::NoPendingPreparedAttempt),
                };
                rt.prepared_reconciliations.push(
                    PreparedReconciliationReceipt {
                        attempt_id: prepared.id,
                        observed_at,
                        outcome,
                        proof_ref: proof_ref.clone(),
                    },
                );
                return Ok(());
            }
            let previous = match rt.latest_prepared_reconciliation(ordinal) {
                Some(previous) => Some((previous.attempt_id.clone(), previous.observed_at)),
                None => None,
            };
            if let Some((attempt_id, previous_at)) = previous {
                if !ledger_holds(&rt.ledger, ordinal) {
                    if observed_at.epoch_seconds() < previous_at.epoch_seconds() {
                        return Err(JournalError::ReconciliationBeforePreparation);
                    }
                    rt.prepared_reconciliations.push(
                        PreparedReconciliationReceipt {
                            attempt_id,
                            observed_at,
                            outcome,
                            proof_ref: proof_ref.clone(),
                        },
                    );
                    return Ok(());
                }
            }
            let ghost ledger_before = rt.ledger;
            let recorded = rt.ledger.record_reconciliation(
                ordinal,
                observed_at,
                outcome,
                proof_ref.as_str(),
            );
            assert(reconciliation_recorded(
                ledger_before,
                rt.ledger,
                ordinal,
                observed_at,
                outcome,
                proof_ref@,
                recorded,
            ));
            match recorded {
                Ok(_) => Ok(()),
                Err(e) => Err(JournalError::Attempt(e)),
            }
        },
        JournalEvent::External { ordinal, observed_at, outcome, proof_ref } => {
            if let Some(prepared) = &rt.pending_prepared {
                return Err(JournalError::PendingPreparedAttempt { ordinal: prepared.id.ordinal });
            }
            let ghost ledger_before = rt.ledger;
            let recorded = rt.ledger.record_external_outcome(
                *ordinal,
                *observed_at,
                *outcome,
                proof_ref.as_str(),
            );
            assert(external_recorded(
                ledger_before,
                rt.ledger,
                *ordinal,
                *observed_at,
                *outcome,
                proof_ref@,
                recorded,
            ));
            match recorded {
                Ok(_) => Ok(()),
                Err(e) => Err(JournalError::Attempt(e)),
            }
        },
    }
}


/// The replay state right after the binding record.
pub open spec fn replay_start(state: RecoveredRuntime, ticket: AuthorityTicket, binding: IdempotencyBinding) -> bool {
    &&& same_ticket(state.ledger.spec_ticket(), ticket)
    &&& state.ledger.spec_binding() == binding
    &&& state.ledger.spec_attempts().len() == 0
    &&& state.pending_prepared is None
    &&& state.prepared_reconciliations@.len() == 0
    &&& state.next_attempt_ordinal == 0
}

/// Record `j` of the journal took replay state `j - 1` to state `j`.
pub open spec fn replayed_at(events: Seq<JournalEvent>, states: Seq<RecoveredRuntime>, j: int) -> bool {
    event_replayed(states[j - 1], events[j], states[j], Ok(()))
}

/// `states` are the replay states after the binding and after each of the
/// next `n` records.
pub open spec fn replay_run(
    events: Seq<JournalEvent>,
    ticket: AuthorityTicket,
    binding: IdempotencyBinding,
    states: Seq<RecoveredRuntime>,
    n: int,
) -> bool {
    &&& states.len() == n + 1
    &&& replay_start(states[0], ticket, binding)
    &&& forall|j: int| 1 <= j <= n ==> #[trigger] replayed_at(events, states, j)
}

/// The recovered runtime reports the final replay state and its directive.
pub open spec fn settled(state: RecoveredRuntime, rt: RecoveredRuntime) -> bool {
    &&& rt.ledger == state.ledger
    &&& rt.pending_prepared == state.pending_prepared
    &&& rt.prepared_reconciliations == state.prepared_reconciliations
    &&& rt.next_attempt_ordinal == state.next_attempt_ordinal
    &&& rt.directive == recovery_directive_of(
        state.ledger.spec_attempts(),
        state.pending_prepared,
        state.prepared_reconciliations@,
        state.next_attempt_ordinal,
    )
    &&& !rt.repaired_truncated_tail
    &&& rt.last_sequence == 0
}

/// What replaying a whole journal yields: every record after the binding is
/// replayed in order, and the first refused record refuses the journal.
pub open spec fn replay_result(events: Seq<JournalEvent>, r: Result<RecoveredRuntime, JournalError>) -> bool {
    match events_binding(events) {
        Err(e) => r == Err::<RecoveredRuntime, JournalError>(e),
        Ok((ticket, binding)) => if binding.action_id@ != ticket.action_id@ {
            r == Err::<RecoveredRuntime, JournalError>(
                JournalError::Attempt(AttemptBlock::IdempotencyActionMismatch),
            )
        } else {
            match r {
                Ok(rt) => exists|states: Seq<RecoveredRuntime>|
                    #[trigger] replay_run(events, ticket, binding, states, events.len() - 1) && settled(
                        states.last(),
                        rt,
                    ),
                Err(e) => exists|states: Seq<RecoveredRuntime>, n: int|
                    0 <= n < events.len() - 1 && #[trigger] replay_run(events, ticket, binding, states, n)
                        && exists|after: RecoveredRuntime|
                        #[trigger] event_replayed(states.last(), events[n + 1], after, Err(e)),
            }
        },
    }
}

/// Rebuilds restart state from durable journal records alone.
pub fn replay_events(events: &Vec<JournalEvent>) -> (r: Result<RecoveredRuntime, JournalError>)
    ensures
        replay_result(events@, r),
{
    let ghost opened = events_binding(events@);
    let (ticket, binding) = binding_from_events(events)?;
    let ghost spec_ticket = opened->Ok_0.0;
    let ghost spec_binding = opened->Ok_0.1;
    let ledger = match AttemptLedger::new(ticket, binding) {
        Ok(ledger) => ledger,
        Err(e) => return Err(JournalError::Attempt(e)),
    };
    let mut rt = RecoveredRuntime {
        ledger,
        pending_prepared: None,
        prepared_reconciliations: Vec::new(),
        next_attempt_ordinal: 0,
        directive: RecoveryDirective::ReadyForInitialPreparation,
        repaired_truncated_tail: false,
        last_sequence: 0,
    };
    let ghost mut states: Seq<RecoveredRuntime> = seq![rt];
    assert(opened == Ok::<(AuthorityTicket, IdempotencyBinding), JournalError>((spec_ticket, spec_binding)));
    let mut i: usize = 1;
    while i < events.len()
        invariant
            opened == events_binding(events@),
            opened == Ok::<(AuthorityTicket, IdempotencyBinding), JournalError>((spec_ticket, spec_binding)),
            spec_binding.action_id@ == spec_ticket.action_id@,
            1 <= i <= events@.len(),
            replay_run(events@, spec_ticket, spec_binding, states, i - 1),
            states.last() == rt,
            !rt.repaired_truncated_tail,
            rt.last_sequence == 0,
        decreases events@.len() - i,
    {
        let ghost before = rt;
        match replay_event(&mut rt, &events[i]) {
            Ok(()) => {},
            Err(e) => {
                proof {
                    let n = i - 1;
                    assert(event_replayed(states.last(), events@[n + 1], rt, Err::<(), JournalError>(e)));
                    assert(replay_run(events@, spec_ticket, spec_binding, states, n));
                    assert(0 <= n < events@.len() - 1);
                    assert(exists|after: RecoveredRuntime| #[trigger] event_replayed(states.last(), events@[n + 1], after, Err::<(), JournalError>(e)));
                }
                return Err(e);
            },
        }
        proof {
            let next = states.push(rt);
            assert(replayed_at(events@, next, i as int));
            assert forall|j: int| 1 <= j <= i implies #[trigger] replayed_at(events@, next, j) by {
                if j < i {
                    assert(replayed_at(events@, states, j));
                    assert(next[j - 1] == states[j - 1]);
                    assert(next[j] == states[j]);
                }
            }
            states = next;
        }
        i = i + 1;
    }
    rt.directive = recovery_directive(
        &rt.ledger,
        rt.pending_prepared.as_ref(),
        &rt.prepared_reconciliations,
        rt.next_attempt_ordinal,
    );
    assert(replay_run(events@, spec_ticket, spec_binding, states, events@.len() - 1));
    Ok(rt)
}


/// Whether a retry decision names this journal's action and idempotency key.
pub open spec fn decision_identity(
    ticket: AuthorityTicket,
    binding: IdempotencyBinding,
    decision: RetryDecision,
) -> Result<(), JournalError> {
    if decision.action_id@ != ticket.action_id@ {
        Err(JournalError::DecisionActionMismatch)
    } else if decision.idempotency_key@ != binding.key@ {
        Err(JournalError::DecisionIdempotencyMismatch)
    } else {
        Ok(())
    }
}

/// Checks that a retry decision names this journal's action and key.
pub fn check_decision_identity(
    ticket: &AuthorityTicket,
    binding: &IdempotencyBinding,
    decision: &RetryDecision,
) -> (r: Result<(), JournalError>)
    ensures
        r == decision_identity(*ticket, *binding, *decision),
{
    if decision.action_id != ticket.action_id {
        return Err(JournalError::DecisionActionMismatch);
    }
    if !decision.idempotency_key.eq(&binding.key) {
        return Err(JournalError::DecisionIdempotencyMismatch);
    }
    Ok(())
}

/// The ordinal a verdict authorizes preparing.
pub open spec fn prepared_ordinal(verdict: RetryVerdict) -> Option<u32> {
    match verdict {
        RetryVerdict::InitialDispatchAllowed => Some(0u32),
        RetryVerdict::RedispatchAllowed { ordinal } => Some(ordinal),
        _ => None,
    }
}

/// The recovery directive admits preparing `ordinal`: the initial attempt
/// when ready, or the attempt after the one awaiting a retry decision.
pub open spec fn directive_permits(directive: RecoveryDirective, ordinal: u32) -> bool {
    match directive {
        RecoveryDirective::ReadyForInitialPreparation => ordinal == 0,
        RecoveryDirective::EvaluateRetry { ordinal: previous } => ordinal == ordinal_after(previous),
        _ => false,
    }
}

/// Whether a retry decision may durably prepare the next attempt over the
/// recovered state, and the ordinal it prepares. A prepared attempt still
/// pending blocks; the ordinal must be the next one and the directive must
/// admit it; a retry after a prepared-only resolution needs that resolution's
/// proof, any other attempt must be one the ledger would accept.
pub open spec fn preparation_admission(
    rt: RecoveredRuntime,
    decision: RetryDecision,
    prepared_at: Timestamp,
) -> Result<u32, JournalError> {
    match rt.pending_prepared {
        Some(pending) => Err(JournalError::PendingPreparedAttempt { ordinal: pending.id.ordinal }),
        None => match prepared_ordinal(decision.verdict) {
            None => Err(JournalError::DecisionDoesNotAuthorizePreparation),
            Some(ordinal) => if ordinal != rt.next_attempt_ordinal {
                Err(
                    JournalError::UnexpectedPreparationOrdinal {
                        expected: rt.next_attempt_ordinal,
                        received: ordinal,
                    },
                )
            } else if !directive_permits(rt.directive, ordinal) {
                Err(JournalError::RecoveryDirectiveDoesNotAuthorizePreparation)
            } else if follows_prepared_resolution(rt, ordinal) {
                match prepared_lineage(rt, ordinal, decision.proof_refs@) {
                    Err(e) => Err(e),
                    Ok(_) => Ok(ordinal),
                }
            } else {
                match dispatch_admission(
                    rt.ledger.spec_ticket(),
                    rt.ledger.spec_binding(),
                    rt.ledger.spec_attempts(),
                    decision,
                    prepared_at,
                    "journal:prepare-probe"@,
                ) {
                    Err(e) => Err(JournalError::Attempt(e)),
                    Ok(_) => Ok(ordinal),
                }
            },
        },
    }
}

/// Plans the durable preparation of the next attempt over the recovered state.
pub fn plan_preparation(rt: &RecoveredRuntime, decision: &RetryDecision, prepared_at: Timestamp) -> (r:
    Result<PreparedAttempt, JournalError>)
    ensures
        match preparation_admission(*rt, *decision, prepared_at) {
            Err(e) => r == Err::<PreparedAttempt, JournalError>(e),
            Ok(ordinal) => r matches Ok(prepared) && prepared.id.action_id == rt.ledger.spec_ticket().action_id
                && prepared.id.ordinal == ordinal && prepared.prepared_at == prepared_at
                && prepared.authorization_proof_refs@ == decision.proof_refs@,
        },
{
    if let Some(pending) = &rt.pending_prepared {
        return Err(JournalError::PendingPreparedAttempt { ordinal: pending.id.ordinal });
    }
    let ordinal: u32 = match decision.verdict {
        RetryVerdict::InitialDispatchAllowed => 0,
        RetryVerdict::RedispatchAllowed { ordinal } => ordinal,
        _ => return Err(JournalError::DecisionDoesNotAuthorizePreparation),
    };
    if ordinal != rt.next_attempt_ordinal {
        return Err(
            JournalError::UnexpectedPreparationOrdinal {
                expected: rt.next_attempt_ordinal,
                received: ordinal,
            },
        );
    }
    let permitted = match rt.directive {
        RecoveryDirective::ReadyForInitialPreparation => ordinal == 0,
        RecoveryDirective::EvaluateRetry { ordinal: previous } => ordinal == previous.saturating_add(1),
        _ => false,
    };
    if !permitted {
        return Err(JournalError::RecoveryDirectiveDoesNotAuthorizePreparation);
    }
    let follows_resolution = ordinal > 0 && !ledger_holds(&rt.ledger, ordinal - 1)
        && rt.latest_terminal_prepared_reconciliation(ordinal - 1).is_some();
    if follows_resolution {
        match rt.latest_terminal_prepared_reconciliation(ordinal - 1) {
            None => return Err(JournalError::PreparedResolutionNotRetrySafe { ordinal: ordinal - 1 }),
            Some(resolution) => {
                if resolution.outcome != ReconciliationOutcome::EffectFailed && resolution.outcome
                    != ReconciliationOutcome::NoEffectConfirmed {
                    return Err(JournalError::PreparedResolutionNotRetrySafe { ordinal: ordinal - 1 });
                }
                if !contains_text(&decision.proof_refs, &resolution.proof_ref) {
                    return Err(JournalError::Attempt(AttemptBlock::RetryProofLineageMissing));
                }
            },
        }
    } else {
        if let Err(e) = rt.ledger.check_dispatch(decision, prepared_at, "journal:prepare-probe") {
            return Err(JournalError::Attempt(e));
        }
    }
    Ok(
        PreparedAttempt {
            id: AttemptId::new(rt.ledger.ticket().action_id.clone(), ordinal),
            prepared_at,
            authorization_proof_refs: copy_texts(&decision.proof_refs),
        },
    )
}

/// Whether dispatch of `ordinal` may be recorded: it must be the pending
/// prepared attempt, prepared by this process, and dispatched no earlier.
pub open spec fn dispatch_admission_in_journal(
    rt: RecoveredRuntime,
    prepared_in_process: Option<u32>,
    ordinal: u32,
    dispatched_at: Timestamp,
    proof_ref: Seq<char>,
) -> Result<(), JournalError> {
    if blank(proof_ref) {
        Err(JournalError::EmptyProof)
    } else {
        match rt.pending_prepared {
            None => Err(JournalError::NoPendingPreparedAttempt),
            Some(pending) => if pending.id.ordinal != ordinal {
                Err(
                    JournalError::PreparedOrdinalMismatch {
                        expected: pending.id.ordinal,
                        received: ordinal,
                    },
                )
            } else if prepared_in_process != Some(ordinal) {
                Err(JournalError::RecoveredPreparedRequiresReconciliation { ordinal })
            } else if dispatched_at@ < pending.prepared_at@ {
                Err(JournalError::DispatchBeforePreparation)
            } else {
                Ok(())
            },
        }
    }
}

/// Plans the dispatch record for the attempt this process prepared.
pub fn plan_dispatch_record(
    rt: &RecoveredRuntime,
    prepared_in_process: Option<u32>,
    ordinal: u32,
    dispatched_at: Timestamp,
    proof_ref: &str,
) -> (r: Result<JournalEvent, JournalError>)
    ensures
        match dispatch_admission_in_journal(*rt, prepared_in_process, ordinal, dispatched_at, proof_ref@) {
            Err(e) => r == Err::<JournalEvent, JournalError>(e),
            Ok(_) => r matches Ok(JournalEvent::Dispatch { ordinal: o, dispatched_at: t, proof_ref: p })
                && o == ordinal && t == dispatched_at && p@ == proof_ref@,
        },
{
    if is_blank(proof_ref) {
        return Err(JournalError::EmptyProof);
    }
    let pending = match &rt.pending_prepared {
        Some(pending) => pending,
        None => return Err(JournalError::NoPendingPreparedAttempt),
    };
    if pending.id.ordinal != ordinal {
        return Err(
            JournalError::PreparedOrdinalMismatch { expected: pending.id.ordinal, received: ordinal },
        );
    }
    if prepared_in_process != Some(ordinal) {
        return Err(JournalError::RecoveredPreparedRequiresReconciliation { ordinal });
    }
    if dispatched_at.epoch_seconds() < pending.prepared_at.epoch_seconds() {
        return Err(JournalError::DispatchBeforePreparation);
    }
    Ok(JournalEvent::Dispatch { ordinal, dispatched_at, proof_ref: proof_ref.to_owned() })
}

/// Whether reconciliation evidence about `ordinal` may be recorded, and
/// whether it resolves the prepared attempt this process holds: evidence
/// about a pending prepared attempt stays prepared-scoped, as does follow-up
/// evidence about an attempt that never dispatched; anything else must be
/// evidence the ledger would accept.
pub open spec fn reconciliation_admission(
    rt: RecoveredRuntime,
    ordinal: u32,
    observed_at: Timestamp,
    proof_ref: Seq<char>,
) -> Result<bool, JournalError> {
    if blank(proof_ref) {
        Err(JournalError::EmptyProof)
    } else {
        match rt.pending_prepared {
            Some(pending) => if pending.id.ordinal != ordinal {
                Err(
                    JournalError::PreparedOrdinalMismatch {
                        expected: pending.id.ordinal,
                        received: ordinal,
                    },
                )
            } else if observed_at@ < pending.prepared_at@ {
                Err(JournalError::ReconciliationBeforePreparation)
            } else {
                Ok(true)
            },
            None => {
                let previous = latest_prepared_for(rt.prepared_reconciliations@, ordinal);
                if previous is Some && !ledger_has(rt.ledger.spec_attempts(), ordinal) {
                    if observed_at@ < previous->0.observed_at@ {
                        Err(JournalError::ReconciliationBeforePreparation)
                    } else {
                        Ok(false)
                    }
                } else {
                    match evidence_admission(rt.ledger.spec_attempts(), ordinal, observed_at, proof_ref, false) {
                        Err(e) => Err(JournalError::Attempt(e)),
                        Ok(_) => Ok(false),
                    }
                }
            },
        }
    }
}

/// Plans a reconciliation record, and says whether it resolves the prepared
/// attempt this process holds.
pub fn plan_reconciliation_record(
    rt: &RecoveredRuntime,
    ordinal: u32,
    observed_at: Timestamp,
    outcome: ReconciliationOutcome,
    proof_ref: &str,
) -> (r: Result<(JournalEvent, bool), JournalError>)
    ensures
        match reconciliation_admission(*rt, ordinal, observed_at, proof_ref@) {
            Err(e) => r == Err::<(JournalEvent, bool), JournalError>(e),
            Ok(resolves) => r matches Ok(
                (JournalEvent::Reconciliation { ordinal: o, observed_at: t, outcome: c, proof_ref: p }, b),
            ) && o == ordinal && t == observed_at && c == outcome && p@ == proof_ref@ && b == resolves,
        },
{
    if is_blank(proof_ref) {
        return Err(JournalError::EmptyProof);
    }
    let event = JournalEvent::Reconciliation {
        ordinal,
        observed_at,
        outcome,
        proof_ref: proof_ref.to_owned(),
    };
    if let Some(pending) = &rt.pending_prepared {
        if pending.id.ordinal != ordinal {
            return Err(
                JournalError::PreparedOrdinalMismatch { expected: pending.id.ordinal, received: ordinal },
            );
        }
        if observed_at.epoch_seconds() < pending.prepared_at.epoch_seconds() {
            return Err(JournalError::ReconciliationBeforePreparation);
        }
        return Ok((event, true));
    }
    if let Some(previous) = rt.latest_prepared_reconciliation(ordinal) {
        if !ledger_holds(&rt.ledger, ordinal) {
            if observed_at.epoch_seconds() < previous.observed_at.epoch_seconds() {
                return Err(JournalError::ReconciliationBeforePreparation);
            }
            return Ok((event, false));
        }
    }
    if let Err(e) = rt.ledger.check_evidence(ordinal, observed_at, proof_ref, false) {
        return Err(JournalError::Attempt(e));
    }
    Ok((event, false))
}

/// Whether an external outcome about `ordinal` may be recorded.
pub open spec fn external_admission(
    rt: RecoveredRuntime,
    ordinal: u32,
    observed_at: Timestamp,
    proof_ref: Seq<char>,
) -> Result<(), JournalError> {
    if blank(proof_ref) {
        Err(JournalError::EmptyProof)
    } else {
        match rt.pending_prepared {
            Some(pending) => Err(JournalError::PendingPreparedAttempt { ordinal: pending.id.ordinal }),
            None => match evidence_admission(rt.ledger.spec_attempts(), ordinal, observed_at, proof_ref, true) {
                Err(e) => Err(JournalError::Attempt(e)),
                Ok(_) => Ok(()),
            },
        }
    }
}

/// Plans an external-outcome record.
pub fn plan_external_record(
    rt: &RecoveredRuntime,
    ordinal: u32,
    observed_at: Timestamp,
    outcome: ExecutionOutcome,
    proof_ref: &str,
) -> (r: Result<JournalEvent, JournalError>)
    ensures
        match external_admission(*rt, ordinal, observed_at, proof_ref@) {
            Err(e) => r == Err::<JournalEvent, JournalError>(e),
            Ok(_) => r matches Ok(JournalEvent::External { ordinal: o, observed_at: t, outcome: c, proof_ref: p })
                && o == ordinal && t == observed_at && c == outcome && p@ == proof_ref@,
        },
{
    if is_blank(proof_ref) {
        return Err(JournalError::EmptyProof);
    }
    if let Some(pending) = &rt.pending_prepared {
        return Err(JournalError::PendingPreparedAttempt { ordinal: pending.id.ordinal });
    }
    if let Err(e) = rt.ledger.check_evidence(ordinal, observed_at, proof_ref, true) {
        return Err(JournalError::Attempt(e));
    }
    Ok(JournalEvent::External { ordinal, observed_at, outcome, proof_ref: proof_ref.to_owned() })
}

/// A journal whose replay ends with a prepared attempt that was never
/// dispatched or resolved recovers to reconciling that attempt: it is never
/// sent again blindly.
pub proof fn law_pending_prepared_recovers_to_reconcile(
    events: Seq<JournalEvent>,
    rt: RecoveredRuntime,
)
    requires
        replay_result(events, Ok(rt)),
        rt.pending_prepared is Some,
    ensures
        rt.directive == (RecoveryDirective::ReconcilePreparedAttempt {
            ordinal: rt.pending_prepared->0.id.ordinal,
        }),
{
}

/// Only the process that prepared an attempt can record its dispatch; an
/// attempt known only from the journal's records is never marked dispatched.
pub proof fn law_recovered_attempt_is_not_dispatched(
    rt: RecoveredRuntime,
    ordinal: u32,
    dispatched_at: Timestamp,
    proof_ref: Seq<char>,
)
    ensures
        (dispatch_admission_in_journal(rt, None, ordinal, dispatched_at, proof_ref) is Err),
        (!blank(proof_ref) && rt.pending_prepared is Some && rt.pending_prepared->0.id.ordinal
            == ordinal) ==> dispatch_admission_in_journal(rt, None, ordinal, dispatched_at, proof_ref)
            == Err::<(), JournalError>(
            (JournalError::RecoveredPreparedRequiresReconciliation { ordinal }),
        ),
{
}

/// After a restart with no prepared attempt pending and no contradictory
/// evidence, a latest dispatched attempt whose effect is still unknown (no
/// external outcome, and no reconciliation or a latest reconciliation that is
/// still unknown) is reconciled, never retried.
pub proof fn law_unknown_dispatched_effect_is_reconciled(
    attempts: Seq<AttemptRecord>,
    receipts: Seq<PreparedReconciliationReceipt>,
    next_ordinal: u32,
)
    requires
        !ledger_conflicts(attempts),
        !prepared_conflicts(receipts),
        !prior_success(attempts),
        attempts.len() > 0,
        next_ordinal == 0 || ledger_has(attempts, (next_ordinal - 1) as u32),
        attempts.last().external is None,
        attempts.last().reconciliations@.len() == 0 || attempts.last().reconciliations@.last().outcome
            == ReconciliationOutcome::StillUnknown,
    ensures
        recovery_directive_of(attempts, None, receipts, next_ordinal)
            == (RecoveryDirective::ReconcileDispatchedAttempt { ordinal: attempts.last().id.ordinal }),
{
}

/// The latest dispatched attempt is `ordinal` and its failure or absence of
/// effect is settled: a failed external outcome, or (without one) a latest
/// reconciliation that confirmed failure or no effect.
pub open spec fn settled_latest_failure(attempts: Seq<AttemptRecord>, ordinal: u32) -> bool {
    &&& attempts.len() > 0
    &&& ordinal == attempts.last().id.ordinal
    &&& match attempts.last().external {
        Some(e) => e.outcome == ExecutionOutcome::Failed,
        None => {
            &&& attempts.last().reconciliations@.len() > 0
            &&& (attempts.last().reconciliations@.last().outcome == ReconciliationOutcome::EffectFailed
                || attempts.last().reconciliations@.last().outcome
                == ReconciliationOutcome::NoEffectConfirmed)
        },
    }
}

/// Attempt `ordinal` was only prepared, and its latest prepared-scoped
/// reconciliation confirmed failure or no effect.
pub open spec fn settled_prepared_failure(
    attempts: Seq<AttemptRecord>,
    receipts: Seq<PreparedReconciliationReceipt>,
    ordinal: u32,
) -> bool {
    &&& !ledger_has(attempts, ordinal)
    &&& match latest_prepared_for(receipts, ordinal) {
        Some(receipt) => receipt.outcome == ReconciliationOutcome::EffectFailed || receipt.outcome
            == ReconciliationOutcome::NoEffectConfirmed,
        None => false,
    }
}

/// The latest dispatched attempt is `ordinal` and its effect is confirmed: a
/// succeeded external outcome, or (without one) a latest reconciliation that
/// confirmed the effect.
pub open spec fn confirmed_latest_success(attempts: Seq<AttemptRecord>, ordinal: u32) -> bool {
    &&& attempts.len() > 0
    &&& ordinal == attempts.last().id.ordinal
    &&& match attempts.last().external {
        Some(e) => e.outcome == ExecutionOutcome::Succeeded,
        None => {
            &&& attempts.last().reconciliations@.len() > 0
            &&& attempts.last().reconciliations@.last().outcome == ReconciliationOutcome::EffectSucceeded
        },
    }
}

/// Attempt `ordinal` was only prepared, and its latest prepared-scoped
/// reconciliation confirmed the effect.
pub open spec fn confirmed_prepared_success(
    attempts: Seq<AttemptRecord>,
    receipts: Seq<PreparedReconciliationReceipt>,
    ordinal: u32,
) -> bool {
    &&& !ledger_has(attempts, ordinal)
    &&& match latest_prepared_for(receipts, ordinal) {
        Some(receipt) => receipt.outcome == ReconciliationOutcome::EffectSucceeded,
        None => false,
    }
}

/// A restart directs a retry to be evaluated only for an attempt whose
/// failure or absence of effect is settled: the latest dispatched attempt with
/// a failed external outcome, or (without one) a latest reconciliation that
/// confirmed failure or no effect; or an attempt that was only prepared and
/// whose latest prepared-scoped reconciliation confirmed failure or no effect.
pub proof fn law_retry_evaluated_only_after_settled_failure(
    attempts: Seq<AttemptRecord>,
    pending: Option<PreparedAttempt>,
    receipts: Seq<PreparedReconciliationReceipt>,
    next_ordinal: u32,
)
    ensures
        recovery_directive_of(attempts, pending, receipts, next_ordinal) matches RecoveryDirective::EvaluateRetry { ordinal }
            ==> pending is None && (settled_latest_failure(attempts, ordinal) || settled_prepared_failure(
            attempts,
            receipts,
            ordinal,
        )),
{
}

/// A restart closes an action as succeeded only on evidence of success about
/// the attempt it names: the latest dispatched attempt with a succeeded
/// external outcome or, without one, a latest reconciliation that confirmed
/// the effect; or an attempt only prepared whose latest prepared-scoped
/// reconciliation confirmed it. A still-unknown prepared-scoped
/// reconciliation of an attempt only prepared keeps it being reconciled.
pub proof fn law_close_only_on_confirmed_success(
    attempts: Seq<AttemptRecord>,
    pending: Option<PreparedAttempt>,
    receipts: Seq<PreparedReconciliationReceipt>,
    next_ordinal: u32,
)
    ensures
        recovery_directive_of(attempts, pending, receipts, next_ordinal) matches RecoveryDirective::CloseSucceeded { ordinal }
            ==> pending is None && (confirmed_latest_success(attempts, ordinal)
            || confirmed_prepared_success(attempts, receipts, ordinal)),
        ({
            &&& pending is None
            &&& !ledger_conflicts(attempts)
            &&& !prepared_conflicts(receipts)
            &&& next_ordinal > 0
            &&& !ledger_has(attempts, (next_ordinal - 1) as u32)
            &&& latest_prepared_for(receipts, (next_ordinal - 1) as u32) is Some
            &&& latest_prepared_for(receipts, (next_ordinal - 1) as u32)->0.outcome
                == ReconciliationOutcome::StillUnknown
        }) ==> recovery_directive_of(attempts, pending, receipts, next_ordinal)
            == (RecoveryDirective::ReconcilePreparedAttempt { ordinal: (next_ordinal - 1) as u32 }),
{
}

} // verus!
