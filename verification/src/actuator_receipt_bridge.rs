//! The actuator receipt bridge: a durable sidecar that keeps the identity of
//! one logical side effect and the actuator's evidence about it, apart from
//! the execution journal. This module holds its records, what they replay
//! to, the checks on what may be recorded, and how recorded evidence is
//! carried into the journal.
use vstd::prelude::*;

use crate::attempt_ledger::AttemptRecord;
use crate::bead::{EvidenceRef, EvidenceStatus};
use crate::durable_journal::{JournalError, RecoveredRuntime, RecoveryDirective};
use crate::execution_receipt::{ActionId, ExecutionOutcome};
use crate::fenced_actuator::{
    FencedActuatorOutcome, FencedActuatorReceipt, FencedActuatorRejection, InMemoryAppliedEffect,
    InMemoryFencedActuator, InMemoryFencedActuatorError, InMemoryFencedActuatorState,
};
use crate::fenced_journal::FencedJournalError;
use crate::journal_core::JournalCore;
use crate::primitives::Timestamp;
use crate::reconciliation::ReconciliationOutcome;
use crate::recovery_lease::{FencedAttemptPermit, RecoveryWorkerId};
use crate::text::{blank, decimal, decimal_text, is_blank, same_text};

verus! {

/// Stable semantic identity for one logical side effect.
///
/// The binding is persisted before any actuator request is returned to the caller,
/// so a restart can reconcile by `ActionId + idempotency_key + operation_ref` even
/// if the process died after the external effect but before persisting the receipt.
#[derive(Debug, PartialEq, Eq)]
pub struct ActuatorBridgeBinding {
    pub action_id: ActionId,
    pub idempotency_key: String,
    pub operation_ref: String,
}

impl Clone for ActuatorBridgeBinding {
    fn clone(&self) -> (r: Self)
        ensures
            r == *self,
    {
        ActuatorBridgeBinding {
            action_id: self.action_id.clone(),
            idempotency_key: self.idempotency_key.clone(),
            operation_ref: self.operation_ref.clone(),
        }
    }
}

#[derive(Debug, PartialEq, Eq)]
pub struct PreparedActuatorCall {
    pub permit: FencedAttemptPermit,
    pub prepared_at: Timestamp,
}

impl Clone for PreparedActuatorCall {
    fn clone(&self) -> (r: Self)
        ensures
            r == *self,
    {
        PreparedActuatorCall { permit: self.permit.clone(), prepared_at: self.prepared_at }
    }
}

#[derive(Debug, PartialEq, Eq)]
pub struct ActuatorRecoveryQuery {
    pub action_id: ActionId,
    pub idempotency_key: String,
    pub operation_ref: String,
    pub attempt_ordinal: u32,
    pub prepared_owner: RecoveryWorkerId,
    pub prepared_epoch: u64,
}

impl Clone for ActuatorRecoveryQuery {
    fn clone(&self) -> (r: Self)
        ensures
            r == *self,
    {
        ActuatorRecoveryQuery {
            action_id: self.action_id.clone(),
            idempotency_key: self.idempotency_key.clone(),
            operation_ref: self.operation_ref.clone(),
            attempt_ordinal: self.attempt_ordinal,
            prepared_owner: self.prepared_owner.clone(),
            prepared_epoch: self.prepared_epoch,
        }
    }
}

#[derive(Debug, Clone, Copy, PartialEq, Eq, Structural)]
pub enum ActuatorRecoveryOutcome {
    EffectSucceeded { applied_epoch: u64, applied_attempt_ordinal: u32 },
    StillUnknown,
    IdentityConflict,
}

#[derive(Debug, PartialEq, Eq)]
pub struct ActuatorRecoveryObservation {
    pub query: ActuatorRecoveryQuery,
    pub observed_at: Timestamp,
    pub outcome: ActuatorRecoveryOutcome,
    pub proof_ref: String,
}

impl Clone for ActuatorRecoveryObservation {
    fn clone(&self) -> (r: Self)
        ensures
            r == *self,
    {
        ActuatorRecoveryObservation {
            query: self.query.clone(),
            observed_at: self.observed_at,
            outcome: self.outcome,
            proof_ref: self.proof_ref.clone(),
        }
    }
}

/// Provider-side lookup of a side effect after a crash.
pub trait ActuatorRecoveryAdapter {
    type Error;

    fn reconcile(&self, query: &ActuatorRecoveryQuery, observed_at: Timestamp) -> Result<
        ActuatorRecoveryObservation,
        Self::Error,
    >;
}

/// The proof the in-memory actuator gives a recovery answer.
pub open spec fn recovery_proof_text(action: Seq<char>, outcome: ActuatorRecoveryOutcome) -> Seq<char> {
    match outcome {
        ActuatorRecoveryOutcome::EffectSucceeded { applied_epoch, applied_attempt_ordinal } =>
            "proof:in-memory-actuator-recovery:"@ + action + ":"@ + decimal(applied_epoch as nat)
            + ":"@ + decimal(applied_attempt_ordinal as nat),
        ActuatorRecoveryOutcome::StillUnknown => "proof:in-memory-actuator-recovery:"@ + action
            + ":unknown"@,
        ActuatorRecoveryOutcome::IdentityConflict => "proof:in-memory-actuator-recovery:"@ + action
            + ":identity-conflict"@,
    }
}

/// What the in-memory actuator answers about an applied effect: the effect
/// of this operation, another operation's effect, or none (still unknown,
/// never "no effect").
pub open spec fn recovery_outcome_of(
    query: ActuatorRecoveryQuery,
    effect: Option<InMemoryAppliedEffect>,
) -> ActuatorRecoveryOutcome {
    match effect {
        Some(e) => if e.idempotency_key@ == query.idempotency_key@ && e.operation_ref@
            == query.operation_ref@ {
            ActuatorRecoveryOutcome::EffectSucceeded {
                applied_epoch: e.applied_epoch,
                applied_attempt_ordinal: e.applied_attempt_ordinal,
            }
        } else {
            ActuatorRecoveryOutcome::IdentityConflict
        },
        None => ActuatorRecoveryOutcome::StillUnknown,
    }
}

/// Reference reconciliation adapter for the process-local fenced actuator.
///
/// Absence is deliberately `StillUnknown`, never `NoEffectConfirmed`.
impl ActuatorRecoveryAdapter for InMemoryFencedActuator {
    type Error = InMemoryFencedActuatorError;

    fn reconcile(&self, query: &ActuatorRecoveryQuery, observed_at: Timestamp) -> (r: Result<
        ActuatorRecoveryObservation,
        InMemoryFencedActuatorError,
    >)
        ensures
            match r {
                Ok(obs) => {
                    &&& obs.query == *query
                    &&& obs.observed_at == observed_at
                    &&& exists|s: InMemoryFencedActuatorState|
                        obs.outcome == recovery_outcome_of(
                            *query,
                            #[trigger] s.effects.lookup(query.action_id@),
                        )
                    &&& obs.proof_ref@ == recovery_proof_text(query.action_id@, obs.outcome)
                },
                Err(e) => e == InMemoryFencedActuatorError::Poisoned || e == InMemoryFencedActuatorError::LockBusy,
            },
    {
        let effect = self.applied_effect(&query.action_id)?;
        let outcome = recovery_outcome(query, &effect);
        let proof_ref = recovery_proof(query.action_id.as_str(), outcome);
        Ok(ActuatorRecoveryObservation { query: query.clone(), observed_at, outcome, proof_ref })
    }
}

/// Decides the recovery answer for an applied effect, if any.
pub fn recovery_outcome(query: &ActuatorRecoveryQuery, effect: &Option<InMemoryAppliedEffect>) -> (o:
    ActuatorRecoveryOutcome)
    ensures
        o == recovery_outcome_of(*query, *effect),
{
    match effect {
        Some(e) => {
            if same_text(&e.idempotency_key, &query.idempotency_key) && same_text(
                &e.operation_ref,
                &query.operation_ref,
            ) {
                ActuatorRecoveryOutcome::EffectSucceeded {
                    applied_epoch: e.applied_epoch,
                    applied_attempt_ordinal: e.applied_attempt_ordinal,
                }
            } else {
                ActuatorRecoveryOutcome::IdentityConflict
            }
        },
        None => ActuatorRecoveryOutcome::StillUnknown,
    }
}

/// Writes the proof of a recovery answer.
pub fn recovery_proof(action: &str, outcome: ActuatorRecoveryOutcome) -> (s: String)
    ensures
        s@ == recovery_proof_text(action@, outcome),
{
    let mut s = String::from_str("proof:in-memory-actuator-recovery:");
    s.append(action);
    match outcome {
        ActuatorRecoveryOutcome::EffectSucceeded { applied_epoch, applied_attempt_ordinal } => {
            s.append(":");
            s.append(decimal_text(applied_epoch).as_str());
            s.append(":");
            s.append(decimal_text(applied_attempt_ordinal as u64).as_str());
        },
        ActuatorRecoveryOutcome::StillUnknown => {
            s.append(":unknown");
        },
        ActuatorRecoveryOutcome::IdentityConflict => {
            s.append(":identity-conflict");
        },
    }
    s
}

/// Evidence about the side effect, kept in the bridge under its sequence.
#[derive(Debug, PartialEq, Eq)]
pub enum DurableActuatorEvidence {
    Receipt { sequence: u64, receipt: FencedActuatorReceipt },
    Recovery { sequence: u64, observation: ActuatorRecoveryObservation },
}

impl Clone for DurableActuatorEvidence {
    fn clone(&self) -> (r: Self)
        ensures
            r == *self,
    {
        match self {
            DurableActuatorEvidence::Receipt { sequence, receipt } => DurableActuatorEvidence::Receipt {
                sequence: *sequence,
                receipt: receipt.clone(),
            },
            DurableActuatorEvidence::Recovery { sequence, observation } => {
                DurableActuatorEvidence::Recovery {
                    sequence: *sequence,
                    observation: observation.clone(),
                }
            },
        }
    }
}

/// The sequence under which evidence was recorded.
pub open spec fn evidence_sequence(evidence: DurableActuatorEvidence) -> u64 {
    match evidence {
        DurableActuatorEvidence::Receipt { sequence, .. } => sequence,
        DurableActuatorEvidence::Recovery { sequence, .. } => sequence,
    }
}

/// The proof evidence carries.
pub open spec fn evidence_proof(evidence: DurableActuatorEvidence) -> Seq<char> {
    match evidence {
        DurableActuatorEvidence::Receipt { receipt, .. } => receipt.proof_ref@,
        DurableActuatorEvidence::Recovery { observation, .. } => observation.proof_ref@,
    }
}

/// The attempt evidence is about.
pub open spec fn evidence_ordinal(evidence: DurableActuatorEvidence) -> u32 {
    match evidence {
        DurableActuatorEvidence::Receipt { receipt, .. } => receipt.request.attempt_ordinal,
        DurableActuatorEvidence::Recovery { observation, .. } => observation.query.attempt_ordinal,
    }
}

/// Evidence that the side effect took place: an applied or already-applied
/// receipt, or a recovery answer that found the effect.
pub open spec fn evidence_confirms(evidence: DurableActuatorEvidence) -> bool {
    match evidence {
        DurableActuatorEvidence::Receipt { receipt, .. } => receipt.outcome is Applied
            || receipt.outcome is AlreadyApplied,
        DurableActuatorEvidence::Recovery { observation, .. } => observation.outcome is EffectSucceeded,
    }
}

/// Evidence that another operation holds the action's identity.
pub open spec fn evidence_conflicts(evidence: DurableActuatorEvidence) -> bool {
    match evidence {
        DurableActuatorEvidence::Receipt { receipt, .. } => receipt.outcome
            == FencedActuatorOutcome::Rejected(FencedActuatorRejection::IdentityConflict),
        DurableActuatorEvidence::Recovery { observation, .. } => observation.outcome
            == ActuatorRecoveryOutcome::IdentityConflict,
    }
}

impl DurableActuatorEvidence {
    pub fn sequence(&self) -> (s: u64)
        ensures
            s == evidence_sequence(*self),
    {
        match self {
            DurableActuatorEvidence::Receipt { sequence, .. } => *sequence,
            DurableActuatorEvidence::Recovery { sequence, .. } => *sequence,
        }
    }

    pub fn proof_ref(&self) -> (p: &str)
        ensures
            p@ == evidence_proof(*self),
    {
        match self {
            DurableActuatorEvidence::Receipt { receipt, .. } => receipt.proof_ref.as_str(),
            DurableActuatorEvidence::Recovery { observation, .. } => observation.proof_ref.as_str(),
        }
    }

    pub fn attempt_ordinal(&self) -> (o: u32)
        ensures
            o == evidence_ordinal(*self),
    {
        match self {
            DurableActuatorEvidence::Receipt { receipt, .. } => receipt.request.attempt_ordinal,
            DurableActuatorEvidence::Recovery { observation, .. } => observation.query.attempt_ordinal,
        }
    }

    pub fn confirms_effect(&self) -> (b: bool)
        ensures
            b == evidence_confirms(*self),
    {
        match self {
            DurableActuatorEvidence::Receipt { receipt, .. } => match receipt.outcome {
                FencedActuatorOutcome::Applied => true,
                FencedActuatorOutcome::AlreadyApplied { .. } => true,
                FencedActuatorOutcome::Rejected(_) => false,
            },
            DurableActuatorEvidence::Recovery { observation, .. } => match observation.outcome {
                ActuatorRecoveryOutcome::EffectSucceeded { .. } => true,
                _ => false,
            },
        }
    }

    pub fn has_identity_conflict(&self) -> (b: bool)
        ensures
            b == evidence_conflicts(*self),
    {
        match self {
            DurableActuatorEvidence::Receipt { receipt, .. } => match receipt.outcome {
                FencedActuatorOutcome::Rejected(FencedActuatorRejection::IdentityConflict) => true,
                _ => false,
            },
            DurableActuatorEvidence::Recovery { observation, .. } => match observation.outcome {
                ActuatorRecoveryOutcome::IdentityConflict => true,
                _ => false,
            },
        }
    }

    /// Converts only positive external effect evidence into bead evidence.
    /// Rejections and unknown observations never become a supported transition.
    pub fn as_supported_evidence(&self) -> (r: Result<EvidenceRef, ActuatorBridgeError>)
        ensures
            match r {
                Ok(e) => evidence_confirms(*self) && e.id@ == evidence_proof(*self) && e.status
                    == EvidenceStatus::Supported && e.note@
                    == "fenced actuator confirmed the logical side effect"@,
                Err(e) => !evidence_confirms(*self) && e == ActuatorBridgeError::EvidenceDoesNotConfirmEffect,
            },
    {
        if !self.confirms_effect() {
            return Err(ActuatorBridgeError::EvidenceDoesNotConfirmEffect);
        }
        Ok(
            EvidenceRef::new(
                self.proof_ref(),
                EvidenceStatus::Supported,
                "fenced actuator confirmed the logical side effect",
            ),
        )
    }
}

/// What the bridge's records replay to.
#[derive(Debug, PartialEq, Eq)]
pub struct RecoveredActuatorBridge {
    pub binding: ActuatorBridgeBinding,
    pub prepared_calls: Vec<PreparedActuatorCall>,
    pub evidence: Vec<DurableActuatorEvidence>,
    pub synced_sequences: Vec<u64>,
    pub last_sequence: u64,
}

/// The index of the last prepared call for `ordinal` among the first `n`.
pub open spec fn last_prepared_index(calls: Seq<PreparedActuatorCall>, ordinal: u32, n: int) -> Option<int>
    decreases n,
{
    if n <= 0 {
        None
    } else if calls[n - 1].permit.attempt_ordinal == ordinal {
        Some(n - 1)
    } else {
        last_prepared_index(calls, ordinal, n - 1)
    }
}

/// The last prepared call for `ordinal`.
pub open spec fn latest_prepared_call(calls: Seq<PreparedActuatorCall>, ordinal: u32) -> Option<
    PreparedActuatorCall,
> {
    match last_prepared_index(calls, ordinal, calls.len() as int) {
        Some(i) => Some(calls[i]),
        None => None,
    }
}

/// Evidence among the first `n` not yet carried into the journal, in order.
pub open spec fn pending_among(
    evidence: Seq<DurableActuatorEvidence>,
    synced: Seq<u64>,
    n: int,
) -> Seq<DurableActuatorEvidence>
    decreases n,
{
    if n <= 0 {
        Seq::empty()
    } else {
        let prior = pending_among(evidence, synced, n - 1);
        if synced.contains(evidence_sequence(evidence[n - 1])) {
            prior
        } else {
            prior.push(evidence[n - 1])
        }
    }
}

/// The index of the last evidence among the first `n` that satisfies the
/// kind: confirming the effect or reporting an identity conflict.
pub open spec fn last_evidence_index(
    evidence: Seq<DurableActuatorEvidence>,
    conflicts: bool,
    n: int,
) -> Option<int>
    decreases n,
{
    if n <= 0 {
        None
    } else if (if conflicts {
        evidence_conflicts(evidence[n - 1])
    } else {
        evidence_confirms(evidence[n - 1])
    }) {
        Some(n - 1)
    } else {
        last_evidence_index(evidence, conflicts, n - 1)
    }
}

impl RecoveredActuatorBridge {
    /// The last prepared call for `ordinal`.
    pub fn latest_prepared(&self, ordinal: u32) -> (r: Option<PreparedActuatorCall>)
        ensures
            r == latest_prepared_call(self.prepared_calls@, ordinal),
    {
        let mut i = self.prepared_calls.len();
        while i > 0
            invariant
                i <= self.prepared_calls@.len(),
                last_prepared_index(self.prepared_calls@, ordinal, self.prepared_calls@.len() as int)
                    == last_prepared_index(self.prepared_calls@, ordinal, i as int),
            decreases i,
        {
            if self.prepared_calls[i - 1].permit.attempt_ordinal == ordinal {
                return Some(self.prepared_calls[i - 1].clone());
            }
            i = i - 1;
        }
        None
    }

    /// The evidence not yet carried into the journal, in recorded order.
    pub fn pending_evidence(&self) -> (r: Vec<&DurableActuatorEvidence>)
        ensures
            r@.len() == pending_among(
                self.evidence@,
                self.synced_sequences@,
                self.evidence@.len() as int,
            ).len(),
            forall|k: int|
                0 <= k < r@.len() ==> *(#[trigger] r@[k]) == pending_among(
                    self.evidence@,
                    self.synced_sequences@,
                    self.evidence@.len() as int,
                )[k],
    {
        let mut r: Vec<&DurableActuatorEvidence> = Vec::new();
        let mut i: usize = 0;
        while i < self.evidence.len()
            invariant
                i <= self.evidence@.len(),
                r@.len() == pending_among(self.evidence@, self.synced_sequences@, i as int).len(),
                forall|k: int|
                    0 <= k < r@.len() ==> *(#[trigger] r@[k]) == pending_among(
                        self.evidence@,
                        self.synced_sequences@,
                        i as int,
                    )[k],
            decreases self.evidence@.len() - i,
        {
            let sequence = self.evidence[i].sequence();
            if !contains_sequence(&self.synced_sequences, sequence) {
                r.push(&self.evidence[i]);
            }
            i = i + 1;
        }
        r
    }

    /// The last evidence that confirms the side effect.
    pub fn latest_success_evidence(&self) -> (r: Option<&DurableActuatorEvidence>)
        ensures
            r == match last_evidence_index(self.evidence@, false, self.evidence@.len() as int) {
                Some(i) => Some(&self.evidence@[i]),
                None => None,
            },
    {
        let mut i = self.evidence.len();
        while i > 0
            invariant
                i <= self.evidence@.len(),
                last_evidence_index(self.evidence@, false, self.evidence@.len() as int)
                    == last_evidence_index(self.evidence@, false, i as int),
            decreases i,
        {
            if self.evidence[i - 1].confirms_effect() {
                return Some(&self.evidence[i - 1]);
            }
            i = i - 1;
        }
        None
    }

    /// Whether any evidence reports another operation under the identity.
    pub fn has_identity_conflict(&self) -> (b: bool)
        ensures
            b == last_evidence_index(self.evidence@, true, self.evidence@.len() as int) is Some,
    {
        self.latest_conflict().is_some()
    }

    /// The last evidence that reports an identity conflict.
    pub fn latest_conflict(&self) -> (r: Option<&DurableActuatorEvidence>)
        ensures
            r == match last_evidence_index(self.evidence@, true, self.evidence@.len() as int) {
                Some(i) => Some(&self.evidence@[i]),
                None => None,
            },
    {
        let mut i = self.evidence.len();
        while i > 0
            invariant
                i <= self.evidence@.len(),
                last_evidence_index(self.evidence@, true, self.evidence@.len() as int)
                    == last_evidence_index(self.evidence@, true, i as int),
            decreases i,
        {
            if self.evidence[i - 1].has_identity_conflict() {
                return Some(&self.evidence[i - 1]);
            }
            i = i - 1;
        }
        None
    }
}

fn contains_sequence(v: &Vec<u64>, s: u64) -> (b: bool)
    ensures
        b == v@.contains(s),
{
    let mut i: usize = 0;
    while i < v.len()
        invariant
            i <= v@.len(),
            forall|j: int| 0 <= j < i ==> v@[j] != s,
        decreases v@.len() - i,
    {
        if v[i] == s {
            return true;
        }
        i = i + 1;
    }
    false
}

#[derive(Debug, Clone, PartialEq, Eq)]
pub enum ActuatorBridgeDirective {
    Clean,
    ProjectEvidence { sequence: u64 },
    Reconcile(ActuatorRecoveryQuery),
    CloseSucceeded { proof_ref: String },
    BlockIdentityConflict { proof_ref: String },
}

#[derive(Debug, Clone, PartialEq, Eq)]
pub enum ActuatorBridgeError {
    Io(String),
    BridgeAlreadyExists,
    EmptyBridge,
    MissingBinding,
    DuplicateBinding,
    BindingMustBeFirst,
    EmptyIdempotencyKey,
    EmptyOperationRef,
    EmptyProof,
    InvalidRecord,
    SequenceGap { expected: u64, received: u64 },
    InvalidHex,
    InvalidUtf8,
    InvalidNumber,
    InvalidActionId,
    InvalidWorkerId,
    InvalidReceiptOutcome,
    InvalidRecoveryOutcome,
    Journal(JournalError),
    JournalActionMismatch,
    JournalIdempotencyMismatch,
    PreparedIdentityMismatch,
    ReceiptIdentityMismatch,
    RecoveryIdentityMismatch,
    MissingPreparedCall { ordinal: u32 },
    ObservationBeforePreparation,
    NotReconciliationState,
    EvidenceDoesNotConfirmEffect,
}

impl From<JournalError> for ActuatorBridgeError {
    fn from(value: JournalError) -> (r: Self) {
        ActuatorBridgeError::Journal(value)
    }
}

impl vstd::std_specs::convert::FromSpecImpl<JournalError> for ActuatorBridgeError {
    open spec fn obeys_from_spec() -> bool {
        true
    }

    open spec fn from_spec(v: JournalError) -> Self {
        ActuatorBridgeError::Journal(v)
    }
}

#[derive(Debug, Clone, PartialEq, Eq)]
pub enum ActuatorBridgeRuntimeError<E> {
    Bridge(ActuatorBridgeError),
    Fenced(FencedJournalError<E>),
}

impl<E> From<ActuatorBridgeError> for ActuatorBridgeRuntimeError<E> {
    fn from(value: ActuatorBridgeError) -> (r: Self) {
        ActuatorBridgeRuntimeError::Bridge(value)
    }
}

impl<E> vstd::std_specs::convert::FromSpecImpl<ActuatorBridgeError> for ActuatorBridgeRuntimeError<E> {
    open spec fn obeys_from_spec() -> bool {
        true
    }

    open spec fn from_spec(v: ActuatorBridgeError) -> Self {
        ActuatorBridgeRuntimeError::Bridge(v)
    }
}

impl<E> From<FencedJournalError<E>> for ActuatorBridgeRuntimeError<E> {
    fn from(value: FencedJournalError<E>) -> (r: Self) {
        ActuatorBridgeRuntimeError::Fenced(value)
    }
}

impl<E> vstd::std_specs::convert::FromSpecImpl<FencedJournalError<E>> for ActuatorBridgeRuntimeError<E> {
    open spec fn obeys_from_spec() -> bool {
        true
    }

    open spec fn from_spec(v: FencedJournalError<E>) -> Self {
        ActuatorBridgeRuntimeError::Fenced(v)
    }
}

#[derive(Debug, Clone, PartialEq, Eq)]
pub enum ActuatorBridgeReconcileError<E> {
    Bridge(ActuatorBridgeError),
    Adapter(E),
}

impl<E> From<ActuatorBridgeError> for ActuatorBridgeReconcileError<E> {
    fn from(value: ActuatorBridgeError) -> (r: Self) {
        ActuatorBridgeReconcileError::Bridge(value)
    }
}

impl<E> vstd::std_specs::convert::FromSpecImpl<ActuatorBridgeError> for ActuatorBridgeReconcileError<E> {
    open spec fn obeys_from_spec() -> bool {
        true
    }

    open spec fn from_spec(v: ActuatorBridgeError) -> Self {
        ActuatorBridgeReconcileError::Bridge(v)
    }
}

/// The bridge identity for a journal's action and an operation reference.
pub fn bridge_binding(journal: &JournalCore, operation_ref: &str) -> (r: Result<
    ActuatorBridgeBinding,
    ActuatorBridgeError,
>)
    ensures
        match r {
            Ok(b) => !blank(operation_ref@) && !blank(journal.binding.key@) && b.action_id
                == journal.ticket.action_id && b.idempotency_key == journal.binding.key
                && b.operation_ref@ == operation_ref@,
            Err(e) => if blank(operation_ref@) {
                e == ActuatorBridgeError::EmptyOperationRef
            } else {
                blank(journal.binding.key@) && e == ActuatorBridgeError::EmptyIdempotencyKey
            },
        },
{
    if is_blank(operation_ref) {
        return Err(ActuatorBridgeError::EmptyOperationRef);
    }
    if is_blank(journal.binding.key.as_str()) {
        return Err(ActuatorBridgeError::EmptyIdempotencyKey);
    }
    Ok(
        ActuatorBridgeBinding {
            action_id: journal.ticket.action_id.clone(),
            idempotency_key: journal.binding.key.clone(),
            operation_ref: operation_ref.to_owned(),
        },
    )
}

/// Why a journal is not the one a bridge belongs to, if it is not.
pub open spec fn journal_identity_error(binding: ActuatorBridgeBinding, journal: JournalCore) -> Option<
    ActuatorBridgeError,
> {
    if journal.ticket.action_id@ != binding.action_id@ {
        Some(ActuatorBridgeError::JournalActionMismatch)
    } else if journal.binding.key@ != binding.idempotency_key@ {
        Some(ActuatorBridgeError::JournalIdempotencyMismatch)
    } else {
        None
    }
}

/// Checks that a journal is the one the bridge belongs to.
pub fn validate_journal_identity(binding: &ActuatorBridgeBinding, journal: &JournalCore) -> (r: Result<
    (),
    ActuatorBridgeError,
>)
    ensures
        match journal_identity_error(*binding, *journal) {
            Some(e) => r == Err::<(), ActuatorBridgeError>(e),
            None => r is Ok,
        },
{
    if journal.ticket.action_id != binding.action_id {
        return Err(ActuatorBridgeError::JournalActionMismatch);
    }
    if !same_text(&journal.binding.key, &binding.idempotency_key) {
        return Err(ActuatorBridgeError::JournalIdempotencyMismatch);
    }
    Ok(())
}

/// Checks that a permit was issued for the bridge's action and key.
pub fn validate_permit_identity(binding: &ActuatorBridgeBinding, permit: &FencedAttemptPermit) -> (r:
    Result<(), ActuatorBridgeError>)
    ensures
        r is Ok <==> (permit.action_id@ == binding.action_id@ && permit.idempotency_key@
            == binding.idempotency_key@),
        r is Err ==> r == Err::<(), ActuatorBridgeError>(ActuatorBridgeError::PreparedIdentityMismatch),
{
    if permit.action_id != binding.action_id || !same_text(
        &permit.idempotency_key,
        &binding.idempotency_key,
    ) {
        return Err(ActuatorBridgeError::PreparedIdentityMismatch);
    }
    Ok(())
}

/// Why a receipt may not be recorded, if it may not: it needs a proof, the
/// bridge's identity, a prepared call for its attempt by the same owner at
/// the same epoch, and an observation no earlier than that preparation.
pub open spec fn receipt_refusal(
    binding: ActuatorBridgeBinding,
    calls: Seq<PreparedActuatorCall>,
    receipt: FencedActuatorReceipt,
) -> Option<ActuatorBridgeError> {
    if blank(receipt.proof_ref@) {
        Some(ActuatorBridgeError::EmptyProof)
    } else if receipt.request.action_id@ != binding.action_id@ || receipt.request.idempotency_key@
        != binding.idempotency_key@ || receipt.request.operation_ref@ != binding.operation_ref@ {
        Some(ActuatorBridgeError::ReceiptIdentityMismatch)
    } else {
        match latest_prepared_call(calls, receipt.request.attempt_ordinal) {
            None => Some(
                ActuatorBridgeError::MissingPreparedCall { ordinal: receipt.request.attempt_ordinal },
            ),
            Some(prepared) => if prepared.permit.owner@ != receipt.request.owner@
                || prepared.permit.fencing_epoch != receipt.request.fencing_epoch {
                Some(ActuatorBridgeError::ReceiptIdentityMismatch)
            } else if receipt.observed_at@ < prepared.prepared_at@ {
                Some(ActuatorBridgeError::ObservationBeforePreparation)
            } else {
                None
            },
        }
    }
}

/// Checks a receipt against the bridge's records before it is saved.
pub fn validate_receipt(
    binding: &ActuatorBridgeBinding,
    state: &RecoveredActuatorBridge,
    receipt: &FencedActuatorReceipt,
) -> (r: Result<(), ActuatorBridgeError>)
    ensures
        match receipt_refusal(*binding, state.prepared_calls@, *receipt) {
            Some(e) => r == Err::<(), ActuatorBridgeError>(e),
            None => r is Ok,
        },
{
    if is_blank(receipt.proof_ref.as_str()) {
        return Err(ActuatorBridgeError::EmptyProof);
    }
    if receipt.request.action_id != binding.action_id || !same_text(
        &receipt.request.idempotency_key,
        &binding.idempotency_key,
    ) || !same_text(&receipt.request.operation_ref, &binding.operation_ref) {
        return Err(ActuatorBridgeError::ReceiptIdentityMismatch);
    }
    let prepared = match state.latest_prepared(receipt.request.attempt_ordinal) {
        Some(p) => p,
        None => {
            return Err(
                ActuatorBridgeError::MissingPreparedCall { ordinal: receipt.request.attempt_ordinal },
            );
        },
    };
    if prepared.permit.owner != receipt.request.owner || prepared.permit.fencing_epoch
        != receipt.request.fencing_epoch {
        return Err(ActuatorBridgeError::ReceiptIdentityMismatch);
    }
    if receipt.observed_at.epoch_seconds() < prepared.prepared_at.epoch_seconds() {
        return Err(ActuatorBridgeError::ObservationBeforePreparation);
    }
    Ok(())
}

/// Why a recovery answer may not be recorded, if it may not: it needs a
/// proof, a query with the bridge's identity about a prepared call by the
/// queried owner at the queried epoch, and an observation no earlier than
/// that preparation.
pub open spec fn observation_refusal(
    binding: ActuatorBridgeBinding,
    calls: Seq<PreparedActuatorCall>,
    observation: ActuatorRecoveryObservation,
) -> Option<ActuatorBridgeError> {
    let query = observation.query;
    if blank(observation.proof_ref@) {
        Some(ActuatorBridgeError::EmptyProof)
    } else if query.action_id@ != binding.action_id@ || query.idempotency_key@
        != binding.idempotency_key@ || query.operation_ref@ != binding.operation_ref@ {
        Some(ActuatorBridgeError::RecoveryIdentityMismatch)
    } else {
        match latest_prepared_call(calls, query.attempt_ordinal) {
            None => Some(ActuatorBridgeError::MissingPreparedCall { ordinal: query.attempt_ordinal }),
            Some(prepared) => if prepared.permit.owner@ != query.prepared_owner@
                || prepared.permit.fencing_epoch != query.prepared_epoch {
                Some(ActuatorBridgeError::RecoveryIdentityMismatch)
            } else if observation.observed_at@ < prepared.prepared_at@ {
                Some(ActuatorBridgeError::ObservationBeforePreparation)
            } else {
                None
            },
        }
    }
}

/// Checks a recovery answer against the bridge's records before it is saved.
pub fn validate_recovery_observation(
    binding: &ActuatorBridgeBinding,
    state: &RecoveredActuatorBridge,
    observation: &ActuatorRecoveryObservation,
) -> (r: Result<(), ActuatorBridgeError>)
    ensures
        match observation_refusal(*binding, state.prepared_calls@, *observation) {
            Some(e) => r == Err::<(), ActuatorBridgeError>(e),
            None => r is Ok,
        },
{
    if is_blank(observation.proof_ref.as_str()) {
        return Err(ActuatorBridgeError::EmptyProof);
    }
    let query = &observation.query;
    if query.action_id != binding.action_id || !same_text(
        &query.idempotency_key,
        &binding.idempotency_key,
    ) || !same_text(&query.operation_ref, &binding.operation_ref) {
        return Err(ActuatorBridgeError::RecoveryIdentityMismatch);
    }
    let prepared = match state.latest_prepared(query.attempt_ordinal) {
        Some(p) => p,
        None => {
            return Err(ActuatorBridgeError::MissingPreparedCall { ordinal: query.attempt_ordinal });
        },
    };
    if prepared.permit.owner != query.prepared_owner || prepared.permit.fencing_epoch
        != query.prepared_epoch {
        return Err(ActuatorBridgeError::RecoveryIdentityMismatch);
    }
    if observation.observed_at.epoch_seconds() < prepared.prepared_at.epoch_seconds() {
        return Err(ActuatorBridgeError::ObservationBeforePreparation);
    }
    Ok(())
}

/// The journal already holds a record with this proof: a prepared-scoped
/// reconciliation, or an attempt's dispatch, reconciliation or outcome.
pub open spec fn journal_holds_proof(state: RecoveredRuntime, proof: Seq<char>) -> bool {
    (exists|i: int|
        0 <= i < state.prepared_reconciliations@.len() && (
        #[trigger] state.prepared_reconciliations@[i]).proof_ref@ == proof) || (exists|i: int|
        0 <= i < state.ledger.spec_attempts().len() && #[trigger] attempt_holds_proof(
            state.ledger.spec_attempts()[i],
            proof,
        ))
}

/// An attempt's records hold this proof.
pub open spec fn attempt_holds_proof(attempt: AttemptRecord, proof: Seq<char>) -> bool {
    ||| attempt.dispatch.proof_ref@ == proof
    ||| exists|j: int|
        0 <= j < attempt.reconciliations@.len() && (#[trigger] attempt.reconciliations@[j]).proof_ref@
            == proof
    ||| (attempt.external is Some && attempt.external->0.proof_ref@ == proof)
}

fn attempt_contains_proof(attempt: &AttemptRecord, proof_ref: &String) -> (b: bool)
    ensures
        b == attempt_holds_proof(*attempt, proof_ref@),
{
    if same_text(&attempt.dispatch.proof_ref, proof_ref) {
        return true;
    }
    let mut j: usize = 0;
    while j < attempt.reconciliations.len()
        invariant
            j <= attempt.reconciliations@.len(),
            forall|k: int| 0 <= k < j ==> (#[trigger] attempt.reconciliations@[k]).proof_ref@ != proof_ref@,
        decreases attempt.reconciliations@.len() - j,
    {
        if same_text(&attempt.reconciliations[j].proof_ref, proof_ref) {
            return true;
        }
        j = j + 1;
    }
    match &attempt.external {
        Some(e) => same_text(&e.proof_ref, proof_ref),
        None => false,
    }
}

/// Whether the journal already holds a record with this proof.
pub fn journal_contains_proof(state: &RecoveredRuntime, proof_ref: &str) -> (b: bool)
    ensures
        b == journal_holds_proof(*state, proof_ref@),
{
    let proof = proof_ref.to_owned();
    let mut i: usize = 0;
    while i < state.prepared_reconciliations.len()
        invariant
            proof@ == proof_ref@,
            i <= state.prepared_reconciliations@.len(),
            forall|k: int|
                0 <= k < i ==> (#[trigger] state.prepared_reconciliations@[k]).proof_ref@ != proof@,
        decreases state.prepared_reconciliations@.len() - i,
    {
        if same_text(&state.prepared_reconciliations[i].proof_ref, &proof) {
            return true;
        }
        i = i + 1;
    }
    let attempts = state.ledger.attempts();
    let mut i: usize = 0;
    while i < attempts.len()
        invariant
            proof@ == proof_ref@,
            attempts@ == state.ledger.spec_attempts(),
            i <= attempts@.len(),
            forall|k: int|
                0 <= k < state.prepared_reconciliations@.len() ==> (
                #[trigger] state.prepared_reconciliations@[k]).proof_ref@ != proof@,
            forall|k: int| 0 <= k < i ==> !#[trigger] attempt_holds_proof(attempts@[k], proof@),
        decreases attempts@.len() - i,
    {
        if attempt_contains_proof(&attempts[i], &proof) {
            return true;
        }
        i = i + 1;
    }
    false
}

/// The attempt a journal directive asks to reconcile, if any.
pub open spec fn reconcile_ordinal(directive: RecoveryDirective) -> Option<u32> {
    match directive {
        RecoveryDirective::ReconcilePreparedAttempt { ordinal } => Some(ordinal),
        RecoveryDirective::ReconcileDispatchedAttempt { ordinal } => Some(ordinal),
        _ => None,
    }
}

/// The exact identity to look the side effect up by after a crash, from the
/// journal's replay and the bridge's records: the operation reference comes
/// from the bridge, the attempt from the journal's directive, and the owner
/// and epoch from the last preparation of that attempt.
pub open spec fn recovery_query_of(
    binding: ActuatorBridgeBinding,
    calls: Seq<PreparedActuatorCall>,
    journal: RecoveredRuntime,
    r: Result<ActuatorRecoveryQuery, ActuatorBridgeError>,
) -> bool {
    match reconcile_ordinal(journal.directive) {
        None => r == Err::<ActuatorRecoveryQuery, ActuatorBridgeError>(
            ActuatorBridgeError::NotReconciliationState,
        ),
        Some(ordinal) => match latest_prepared_call(calls, ordinal) {
            None => r == Err::<ActuatorRecoveryQuery, ActuatorBridgeError>(
                ActuatorBridgeError::MissingPreparedCall { ordinal },
            ),
            Some(prepared) => r matches Ok(q) && q.action_id == binding.action_id
                && q.idempotency_key == binding.idempotency_key && q.operation_ref
                == binding.operation_ref && q.attempt_ordinal == ordinal && q.prepared_owner
                == prepared.permit.owner && q.prepared_epoch == prepared.permit.fencing_epoch,
        },
    }
}

/// Builds the lookup identity from a journal replay and the bridge's records.
pub fn recovery_query_for(
    binding: &ActuatorBridgeBinding,
    state: &RecoveredActuatorBridge,
    journal_state: &RecoveredRuntime,
) -> (r: Result<ActuatorRecoveryQuery, ActuatorBridgeError>)
    ensures
        recovery_query_of(*binding, state.prepared_calls@, *journal_state, r),
{
    let ordinal = match journal_state.directive {
        RecoveryDirective::ReconcilePreparedAttempt { ordinal } => ordinal,
        RecoveryDirective::ReconcileDispatchedAttempt { ordinal } => ordinal,
        _ => {
            return Err(ActuatorBridgeError::NotReconciliationState);
        },
    };
    let prepared = match state.latest_prepared(ordinal) {
        Some(p) => p,
        None => {
            return Err(ActuatorBridgeError::MissingPreparedCall { ordinal });
        },
    };
    Ok(
        ActuatorRecoveryQuery {
            action_id: binding.action_id.clone(),
            idempotency_key: binding.idempotency_key.clone(),
            operation_ref: binding.operation_ref.clone(),
            attempt_ordinal: ordinal,
            prepared_owner: prepared.permit.owner.clone(),
            prepared_epoch: prepared.permit.fencing_epoch,
        },
    )
}

/// What the bridge asks its caller to do next: block on an identity
/// conflict, carry pending evidence into the journal first, close on
/// confirmed success the journal has closed, reconcile what the journal
/// says to reconcile, or nothing.
pub open spec fn bridge_directive(
    binding: ActuatorBridgeBinding,
    state: RecoveredActuatorBridge,
    journal: RecoveredRuntime,
    r: Result<ActuatorBridgeDirective, ActuatorBridgeError>,
) -> bool {
    let n = state.evidence@.len() as int;
    let pending = pending_among(state.evidence@, state.synced_sequences@, n);
    match last_evidence_index(state.evidence@, true, n) {
        Some(i) => r matches Ok(ActuatorBridgeDirective::BlockIdentityConflict { proof_ref })
            && proof_ref@ == evidence_proof(state.evidence@[i]),
        None => if pending.len() > 0 {
            r == Ok::<ActuatorBridgeDirective, ActuatorBridgeError>(
                ActuatorBridgeDirective::ProjectEvidence { sequence: evidence_sequence(pending[0]) },
            )
        } else if journal.directive is CloseSucceeded && last_evidence_index(
            state.evidence@,
            false,
            n,
        ) is Some {
            r matches Ok(ActuatorBridgeDirective::CloseSucceeded { proof_ref }) && proof_ref@
                == evidence_proof(state.evidence@[last_evidence_index(state.evidence@, false, n)->0])
        } else if reconcile_ordinal(journal.directive) is Some {
            match r {
                Ok(ActuatorBridgeDirective::Reconcile(q)) => recovery_query_of(
                    binding,
                    state.prepared_calls@,
                    journal,
                    Ok(q),
                ),
                Err(e) => recovery_query_of(binding, state.prepared_calls@, journal, Err(e)),
                _ => false,
            }
        } else {
            r == Ok::<ActuatorBridgeDirective, ActuatorBridgeError>(ActuatorBridgeDirective::Clean)
        },
    }
}

/// Decides what the bridge asks next, from its records and the journal's
/// replay; the caller has checked that the journal is the bridge's.
pub fn directive_for(
    binding: &ActuatorBridgeBinding,
    state: &RecoveredActuatorBridge,
    journal_state: &RecoveredRuntime,
) -> (r: Result<ActuatorBridgeDirective, ActuatorBridgeError>)
    ensures
        bridge_directive(*binding, *state, *journal_state, r),
{
    match state.latest_conflict() {
        Some(conflict) => {
            return Ok(
                ActuatorBridgeDirective::BlockIdentityConflict {
                    proof_ref: conflict.proof_ref().to_owned(),
                },
            );
        },
        None => {},
    }
    let pending = state.pending_evidence();
    if pending.len() > 0 {
        return Ok(ActuatorBridgeDirective::ProjectEvidence { sequence: pending[0].sequence() });
    }
    match journal_state.directive {
        RecoveryDirective::CloseSucceeded { .. } => {
            match state.latest_success_evidence() {
                Some(success) => {
                    return Ok(
                        ActuatorBridgeDirective::CloseSucceeded {
                            proof_ref: success.proof_ref().to_owned(),
                        },
                    );
                },
                None => {},
            }
        },
        _ => {},
    }
    match journal_state.directive {
        RecoveryDirective::ReconcilePreparedAttempt { .. }
        | RecoveryDirective::ReconcileDispatchedAttempt { .. } => {
            let query = recovery_query_for(binding, state, journal_state)?;
            Ok(ActuatorBridgeDirective::Reconcile(query))
        },
        _ => Ok(ActuatorBridgeDirective::Clean),
    }
}

/// The journal record that carries a piece of evidence.
#[derive(Debug, Clone, PartialEq, Eq)]
pub enum EvidenceProjection {
    External {
        ordinal: u32,
        observed_at: Timestamp,
        outcome: ExecutionOutcome,
        proof_ref: String,
    },
    Reconciliation {
        ordinal: u32,
        observed_at: Timestamp,
        outcome: ReconciliationOutcome,
        proof_ref: String,
    },
}

/// When evidence was observed.
pub open spec fn evidence_time(evidence: DurableActuatorEvidence) -> Timestamp {
    match evidence {
        DurableActuatorEvidence::Receipt { receipt, .. } => receipt.observed_at,
        DurableActuatorEvidence::Recovery { observation, .. } => observation.observed_at,
    }
}

/// The journal has a dispatch record for the attempt.
pub open spec fn locally_dispatched(journal: RecoveredRuntime, ordinal: u32) -> bool {
    exists|i: int|
        0 <= i < journal.ledger.spec_attempts().len() && (
        #[trigger] journal.ledger.spec_attempts()[i]).id.ordinal == ordinal
}

/// How evidence is carried into the journal: an applied receipt for an
/// attempt this journal dispatched confirms its success; any other
/// confirmation reconciles the attempt as succeeded; a rejection, an unknown
/// answer or an identity conflict reconciles it as still unknown.
pub open spec fn projection_of(
    evidence: DurableActuatorEvidence,
    journal: RecoveredRuntime,
    p: EvidenceProjection,
) -> bool {
    let ordinal = evidence_ordinal(evidence);
    let at = evidence_time(evidence);
    let proof = evidence_proof(evidence);
    let reconciled = match evidence {
        DurableActuatorEvidence::Receipt { receipt, .. } => match receipt.outcome {
            FencedActuatorOutcome::Applied => if locally_dispatched(journal, ordinal) {
                None
            } else {
                Some(ReconciliationOutcome::EffectSucceeded)
            },
            FencedActuatorOutcome::AlreadyApplied { .. } => Some(ReconciliationOutcome::EffectSucceeded),
            FencedActuatorOutcome::Rejected(_) => Some(ReconciliationOutcome::StillUnknown),
        },
        DurableActuatorEvidence::Recovery { observation, .. } => match observation.outcome {
            ActuatorRecoveryOutcome::EffectSucceeded { .. } => Some(ReconciliationOutcome::EffectSucceeded),
            _ => Some(ReconciliationOutcome::StillUnknown),
        },
    };
    match reconciled {
        None => p matches EvidenceProjection::External { ordinal: o, observed_at: t, outcome: c, proof_ref: q }
            && o == ordinal && t == at && c == ExecutionOutcome::Succeeded && q@ == proof,
        Some(outcome) => p matches EvidenceProjection::Reconciliation {
            ordinal: o,
            observed_at: t,
            outcome: c,
            proof_ref: q,
        } && o == ordinal && t == at && c == outcome && q@ == proof,
    }
}

/// Decides the journal record that carries a piece of evidence.
pub fn project_evidence(evidence: &DurableActuatorEvidence, journal_state: &RecoveredRuntime) -> (p:
    EvidenceProjection)
    ensures
        projection_of(*evidence, *journal_state, p),
{
    let ordinal = evidence.attempt_ordinal();
    let proof_ref = evidence.proof_ref().to_owned();
    match evidence {
        DurableActuatorEvidence::Receipt { receipt, .. } => match receipt.outcome {
            FencedActuatorOutcome::Applied => {
                if ledger_has_ordinal(journal_state, ordinal) {
                    EvidenceProjection::External {
                        ordinal,
                        observed_at: receipt.observed_at,
                        outcome: ExecutionOutcome::Succeeded,
                        proof_ref,
                    }
                } else {
                    EvidenceProjection::Reconciliation {
                        ordinal,
                        observed_at: receipt.observed_at,
                        outcome: ReconciliationOutcome::EffectSucceeded,
                        proof_ref,
                    }
                }
            },
            FencedActuatorOutcome::AlreadyApplied { .. } => EvidenceProjection::Reconciliation {
                ordinal,
                observed_at: receipt.observed_at,
                outcome: ReconciliationOutcome::EffectSucceeded,
                proof_ref,
            },
            FencedActuatorOutcome::Rejected(_) => EvidenceProjection::Reconciliation {
                ordinal,
                observed_at: receipt.observed_at,
                outcome: ReconciliationOutcome::StillUnknown,
                proof_ref,
            },
        },
        DurableActuatorEvidence::Recovery { observation, .. } => {
            let outcome = match observation.outcome {
                ActuatorRecoveryOutcome::EffectSucceeded { .. } => ReconciliationOutcome::EffectSucceeded,
                _ => ReconciliationOutcome::StillUnknown,
            };
            EvidenceProjection::Reconciliation {
                ordinal,
                observed_at: observation.observed_at,
                outcome,
                proof_ref,
            }
        },
    }
}

fn ledger_has_ordinal(journal_state: &RecoveredRuntime, ordinal: u32) -> (b: bool)
    ensures
        b == locally_dispatched(*journal_state, ordinal),
{
    let attempts = journal_state.ledger.attempts();
    let mut i: usize = 0;
    while i < attempts.len()
        invariant
            attempts@ == journal_state.ledger.spec_attempts(),
            i <= attempts@.len(),
            forall|k: int| 0 <= k < i ==> (#[trigger] attempts@[k]).id.ordinal != ordinal,
        decreases attempts@.len() - i,
    {
        if attempts[i].id.ordinal == ordinal {
            return true;
        }
        i = i + 1;
    }
    false
}

/// The evidence recorded under a sequence, if any: the first such.
pub fn evidence_with_sequence(state: &RecoveredActuatorBridge, sequence: u64) -> (r: Option<
    DurableActuatorEvidence,
>)
    ensures
        match r {
            Some(e) => exists|i: int|
                0 <= i < state.evidence@.len() && state.evidence@[i] == e && evidence_sequence(e)
                    == sequence && forall|k: int|
                    0 <= k < i ==> evidence_sequence(#[trigger] state.evidence@[k]) != sequence,
            None => forall|k: int|
                0 <= k < state.evidence@.len() ==> evidence_sequence(#[trigger] state.evidence@[k])
                    != sequence,
        },
{
    let mut i: usize = 0;
    while i < state.evidence.len()
        invariant
            i <= state.evidence@.len(),
            forall|k: int| 0 <= k < i ==> evidence_sequence(#[trigger] state.evidence@[k]) != sequence,
        decreases state.evidence@.len() - i,
    {
        if state.evidence[i].sequence() == sequence {
            return Some(state.evidence[i].clone());
        }
        i = i + 1;
    }
    None
}

} // verus!
