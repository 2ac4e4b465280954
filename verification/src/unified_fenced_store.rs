//! One transactional record per action holding the operation identity, the
//! lease, prepared attempts, external evidence and projection markers, replaced
//! as a whole by compare-and-swap on the record revision.
//!
//! Every runtime step is split in two: a verified plan that computes the
//! replacement record from the record the store returned, and the store calls
//! that load it and swap it in.
use std::sync::Arc;
use std::sync::Mutex;

use vstd::prelude::*;

use crate::bead::{EvidenceRef, EvidenceStatus};
use crate::execution_receipt::{ActionId, AuthorityTicket};
use crate::fenced_actuator::{FencedActuatorOutcome, FencedActuatorReceipt, FencedActuatorRejection};
use crate::keyed_table::KeyedTable;
use crate::primitives::Timestamp;
use crate::reconciliation::{IdempotencyBinding, ReconciliationOutcome, RetryDecision, RetryVerdict};
use crate::recovery_lease::{
    expiry_from, lease_expiry, FencedAttemptPermit, FencingToken, RecoveryWorkerId,
};
use crate::shared_state::{held_state, held_state_mut, lock_state, new_shared, LockFailure, LockedState};
use crate::text::{blank, contains_text, copy_texts, is_blank, same_text};

verus! {

/// Stable operation identity held in the same transactional record as lease,
/// preparation, external evidence, and projection state.
#[derive(Debug, PartialEq, Eq)]
pub struct UnifiedOperationBinding {
    pub action_id: ActionId,
    pub idempotency_key: String,
    pub operation_ref: String,
}

impl Clone for UnifiedOperationBinding {
    fn clone(&self) -> (r: Self)
        ensures
            r == *self,
    {
        UnifiedOperationBinding {
            action_id: self.action_id.clone(),
            idempotency_key: self.idempotency_key.clone(),
            operation_ref: self.operation_ref.clone(),
        }
    }
}

#[derive(Debug, PartialEq, Eq)]
pub struct UnifiedLeaseAuthority {
    pub owner: RecoveryWorkerId,
    pub epoch: u64,
    pub revision: u64,
    pub expires_at: Timestamp,
}

impl Clone for UnifiedLeaseAuthority {
    fn clone(&self) -> (r: Self)
        ensures
            r == *self,
    {
        UnifiedLeaseAuthority {
            owner: self.owner.clone(),
            epoch: self.epoch,
            revision: self.revision,
            expires_at: self.expires_at,
        }
    }
}

#[derive(Debug, PartialEq, Eq)]
pub struct UnifiedDispatchEvidence {
    pub dispatched_at: Timestamp,
    pub proof_ref: String,
}

impl Clone for UnifiedDispatchEvidence {
    fn clone(&self) -> (r: Self)
        ensures
            r == *self,
    {
        UnifiedDispatchEvidence { dispatched_at: self.dispatched_at, proof_ref: self.proof_ref.clone() }
    }
}

#[derive(Debug, PartialEq, Eq)]
pub struct UnifiedPreparedAttempt {
    pub permit: FencedAttemptPermit,
    pub prepared_at: Timestamp,
    pub authorization_proof_refs: Vec<String>,
    pub dispatch: Option<UnifiedDispatchEvidence>,
}

/// Two prepared attempts hold the same permit, time, proofs and dispatch.
pub open spec fn same_prepared_attempt(a: UnifiedPreparedAttempt, b: UnifiedPreparedAttempt) -> bool {
    &&& a.permit == b.permit
    &&& a.prepared_at == b.prepared_at
    &&& a.authorization_proof_refs@ == b.authorization_proof_refs@
    &&& a.dispatch == b.dispatch
}

impl Clone for UnifiedPreparedAttempt {
    fn clone(&self) -> (r: Self)
        ensures
            same_prepared_attempt(r, *self),
    {
        UnifiedPreparedAttempt {
            permit: self.permit.clone(),
            prepared_at: self.prepared_at,
            authorization_proof_refs: copy_texts(&self.authorization_proof_refs),
            dispatch: match &self.dispatch {
                Some(d) => Some(d.clone()),
                None => None,
            },
        }
    }
}

#[derive(Debug, Clone, Copy, PartialEq, Eq, Structural)]
pub enum UnifiedEffectOutcome {
    EffectSucceeded,
    EffectFailed,
    NoEffectConfirmed,
    StillUnknown,
    IdentityConflict,
}

#[derive(Debug, Clone, Copy, PartialEq, Eq, Structural)]
pub enum UnifiedEvidenceSource {
    ActuatorReceipt,
    Reconciliation,
}

#[derive(Debug, PartialEq, Eq)]
pub struct UnifiedEffectEvidence {
    pub attempt_ordinal: u32,
    pub observed_at: Timestamp,
    pub outcome: UnifiedEffectOutcome,
    pub proof_ref: String,
    pub source: UnifiedEvidenceSource,
}

impl Clone for UnifiedEffectEvidence {
    fn clone(&self) -> (r: Self)
        ensures
            r == *self,
    {
        UnifiedEffectEvidence {
            attempt_ordinal: self.attempt_ordinal,
            observed_at: self.observed_at,
            outcome: self.outcome,
            proof_ref: self.proof_ref.clone(),
            source: self.source,
        }
    }
}

/// Two pieces of evidence agree in every field.
pub open spec fn same_effect_evidence(a: UnifiedEffectEvidence, b: UnifiedEffectEvidence) -> bool {
    &&& a.attempt_ordinal == b.attempt_ordinal
    &&& a.observed_at == b.observed_at
    &&& a.outcome == b.outcome
    &&& a.proof_ref@ == b.proof_ref@
    &&& a.source == b.source
}

pub(crate) fn evidence_matches(a: &UnifiedEffectEvidence, b: &UnifiedEffectEvidence) -> (r: bool)
    ensures
        r == same_effect_evidence(*a, *b),
{
    a.attempt_ordinal == b.attempt_ordinal && a.observed_at == b.observed_at && a.outcome == b.outcome
        && same_text(&a.proof_ref, &b.proof_ref) && a.source == b.source
}

/// Marker committed atomically with positive effect evidence inside the unified
/// store. It means the proof is eligible to seed a later bead; it does not mutate
/// any already-committed historical bead.
#[derive(Debug, PartialEq, Eq)]
pub struct UnifiedProjectionMarker {
    pub attempt_ordinal: u32,
    pub proof_ref: String,
    pub projected_at: Timestamp,
}

impl Clone for UnifiedProjectionMarker {
    fn clone(&self) -> (r: Self)
        ensures
            r == *self,
    {
        UnifiedProjectionMarker {
            attempt_ordinal: self.attempt_ordinal,
            proof_ref: self.proof_ref.clone(),
            projected_at: self.projected_at,
        }
    }
}

/// One CAS-versioned action record.
///
/// All control/evidence fields below are replaced as one store transaction. This
/// reduces local cross-store gaps, but it does not make an arbitrary external side
/// effect part of the same transaction.
#[derive(Debug, PartialEq)]
pub struct UnifiedActionRecord {
    pub binding: UnifiedOperationBinding,
    pub revision: u64,
    pub lease: Option<UnifiedLeaseAuthority>,
    pub attempts: Vec<UnifiedPreparedAttempt>,
    pub evidence: Vec<UnifiedEffectEvidence>,
    pub projections: Vec<UnifiedProjectionMarker>,
}

/// Two records hold the same identity, revision, lease, attempts, evidence and
/// projections.
pub open spec fn same_unified_record(a: UnifiedActionRecord, b: UnifiedActionRecord) -> bool {
    &&& a.binding == b.binding
    &&& a.revision == b.revision
    &&& a.lease == b.lease
    &&& a.attempts@.len() == b.attempts@.len()
    &&& forall|i: int|
        0 <= i < a.attempts@.len() ==> same_prepared_attempt(
            #[trigger] a.attempts@[i],
            b.attempts@[i],
        )
    &&& a.evidence@ == b.evidence@
    &&& a.projections@ == b.projections@
}

impl Clone for UnifiedActionRecord {
    fn clone(&self) -> (r: Self)
        ensures
            same_unified_record(r, *self),
    {
        let attempts = self.attempts.clone();
        let evidence = self.evidence.clone();
        let projections = self.projections.clone();
        assert(evidence@ =~= self.evidence@);
        assert(projections@ =~= self.projections@);
        UnifiedActionRecord {
            binding: self.binding.clone(),
            revision: self.revision,
            lease: match &self.lease {
                Some(lease) => Some(lease.clone()),
                None => None,
            },
            attempts,
            evidence,
            projections,
        }
    }
}

/// Every outcome but `StillUnknown` settles what happened to an attempt.
pub open spec fn terminal_outcome(outcome: UnifiedEffectOutcome) -> bool {
    outcome != UnifiedEffectOutcome::StillUnknown
}

/// The evidence recorded last for `ordinal`.
pub open spec fn latest_evidence_for(evidence: Seq<UnifiedEffectEvidence>, ordinal: u32) -> Option<
    UnifiedEffectEvidence,
>
    decreases evidence.len(),
{
    if evidence.len() == 0 {
        None
    } else if evidence.last().attempt_ordinal == ordinal {
        Some(evidence.last())
    } else {
        latest_evidence_for(evidence.drop_last(), ordinal)
    }
}

/// The evidence recorded last with an identity-conflict outcome.
pub open spec fn latest_identity_conflict(evidence: Seq<UnifiedEffectEvidence>) -> Option<
    UnifiedEffectEvidence,
>
    decreases evidence.len(),
{
    if evidence.len() == 0 {
        None
    } else if evidence.last().outcome == UnifiedEffectOutcome::IdentityConflict {
        Some(evidence.last())
    } else {
        latest_identity_conflict(evidence.drop_last())
    }
}

/// Entries `i` and `j` are terminal evidence about one attempt that disagree.
pub open spec fn conflict_pair(evidence: Seq<UnifiedEffectEvidence>, i: int, j: int) -> bool {
    &&& 0 <= i < evidence.len()
    &&& 0 <= j < evidence.len()
    &&& terminal_outcome(evidence[i].outcome)
    &&& terminal_outcome(evidence[j].outcome)
    &&& evidence[i].attempt_ordinal == evidence[j].attempt_ordinal
    &&& evidence[i].outcome != evidence[j].outcome
}

/// Two terminal pieces of evidence about one attempt disagree.
pub open spec fn evidence_conflicts(evidence: Seq<UnifiedEffectEvidence>) -> bool {
    exists|i: int, j: int| #[trigger] conflict_pair(evidence, i, j)
}

/// Some projection marker names `proof_ref` for `ordinal`.
pub open spec fn projection_recorded(
    projections: Seq<UnifiedProjectionMarker>,
    proof_ref: Seq<char>,
    ordinal: u32,
) -> bool {
    exists|k: int|
        0 <= k < projections.len() && (#[trigger] projections[k]).proof_ref@ == proof_ref
            && projections[k].attempt_ordinal == ordinal
}

/// Successful evidence stands behind `marker`.
pub open spec fn supports_marker(evidence: UnifiedEffectEvidence, marker: UnifiedProjectionMarker) -> bool {
    &&& evidence.attempt_ordinal == marker.attempt_ordinal
    &&& evidence.proof_ref@ == marker.proof_ref@
    &&& evidence.outcome == UnifiedEffectOutcome::EffectSucceeded
}

/// The proof references of the projection markers, in order, that successful
/// evidence stands behind.
pub open spec fn projected_proofs(
    projections: Seq<UnifiedProjectionMarker>,
    evidence: Seq<UnifiedEffectEvidence>,
) -> Seq<Seq<char>>
    decreases projections.len(),
{
    if projections.len() == 0 {
        Seq::empty()
    } else {
        let rest = projected_proofs(projections.drop_last(), evidence);
        if exists|k: int| 0 <= k < evidence.len() && supports_marker(#[trigger] evidence[k], projections.last()) {
            rest.push(projections.last().proof_ref@)
        } else {
            rest
        }
    }
}

/// `k` is the first attempt prepared with `ordinal`.
pub open spec fn first_attempt_at(attempts: Seq<UnifiedPreparedAttempt>, ordinal: u32, k: int) -> bool {
    &&& 0 <= k < attempts.len()
    &&& attempts[k].permit.attempt_ordinal == ordinal
    &&& forall|j: int| 0 <= j < k ==> (#[trigger] attempts[j]).permit.attempt_ordinal != ordinal
}

/// The first attempt prepared with `ordinal`.
pub open spec fn first_attempt(attempts: Seq<UnifiedPreparedAttempt>, ordinal: u32) -> Option<
    UnifiedPreparedAttempt,
> {
    if exists|k: int| first_attempt_at(attempts, ordinal, k) {
        Some(attempts[choose|k: int| first_attempt_at(attempts, ordinal, k)])
    } else {
        None
    }
}

/// `k` is the first evidence carrying `proof_ref`.
pub open spec fn first_proof_at(evidence: Seq<UnifiedEffectEvidence>, proof_ref: Seq<char>, k: int) -> bool {
    &&& 0 <= k < evidence.len()
    &&& evidence[k].proof_ref@ == proof_ref
    &&& forall|j: int| 0 <= j < k ==> (#[trigger] evidence[j]).proof_ref@ != proof_ref
}

/// The first evidence carrying `proof_ref`.
pub open spec fn first_with_proof(evidence: Seq<UnifiedEffectEvidence>, proof_ref: Seq<char>) -> Option<
    UnifiedEffectEvidence,
> {
    if exists|k: int| first_proof_at(evidence, proof_ref, k) {
        Some(evidence[choose|k: int| first_proof_at(evidence, proof_ref, k)])
    } else {
        None
    }
}

/// Finds the first attempt prepared with `ordinal`.
fn find_attempt(attempts: &Vec<UnifiedPreparedAttempt>, ordinal: u32) -> (r: Option<usize>)
    ensures
        match r {
            Some(k) => first_attempt_at(attempts@, ordinal, k as int) && first_attempt(
                attempts@,
                ordinal,
            ) == Some(attempts@[k as int]),
            None => first_attempt(attempts@, ordinal) is None,
        },
{
    let mut i: usize = 0;
    while i < attempts.len()
        invariant
            i <= attempts@.len(),
            forall|j: int| 0 <= j < i ==> (#[trigger] attempts@[j]).permit.attempt_ordinal != ordinal,
        decreases attempts@.len() - i,
    {
        if attempts[i].permit.attempt_ordinal == ordinal {
            assert(first_attempt_at(attempts@, ordinal, i as int));
            let ghost k = choose|k: int| first_attempt_at(attempts@, ordinal, k);
            assert(k == i as int) by {
                if k < i as int {
                    assert(attempts@[k].permit.attempt_ordinal != ordinal);
                }
                if k > i as int {
                    assert(attempts@[i as int].permit.attempt_ordinal != ordinal);
                }
            }
            return Some(i);
        }
        i = i + 1;
    }
    assert(!exists|k: int| first_attempt_at(attempts@, ordinal, k)) by {
        if exists|k: int| first_attempt_at(attempts@, ordinal, k) {
            let k = choose|k: int| first_attempt_at(attempts@, ordinal, k);
            assert(attempts@[k].permit.attempt_ordinal != ordinal);
        }
    }
    None
}

/// Finds the first evidence carrying `proof_ref`.
fn find_proof(evidence: &Vec<UnifiedEffectEvidence>, proof_ref: &String) -> (r: Option<usize>)
    ensures
        match r {
            Some(k) => first_proof_at(evidence@, proof_ref@, k as int) && first_with_proof(
                evidence@,
                proof_ref@,
            ) == Some(evidence@[k as int]),
            None => first_with_proof(evidence@, proof_ref@) is None,
        },
{
    let mut i: usize = 0;
    while i < evidence.len()
        invariant
            i <= evidence@.len(),
            forall|j: int| 0 <= j < i ==> (#[trigger] evidence@[j]).proof_ref@ != proof_ref@,
        decreases evidence@.len() - i,
    {
        if same_text(&evidence[i].proof_ref, proof_ref) {
            assert(first_proof_at(evidence@, proof_ref@, i as int));
            let ghost k = choose|k: int| first_proof_at(evidence@, proof_ref@, k);
            assert(k == i as int) by {
                if k < i as int {
                    assert(evidence@[k].proof_ref@ != proof_ref@);
                }
                if k > i as int {
                    assert(evidence@[i as int].proof_ref@ != proof_ref@);
                }
            }
            return Some(i);
        }
        i = i + 1;
    }
    assert(!exists|k: int| first_proof_at(evidence@, proof_ref@, k)) by {
        if exists|k: int| first_proof_at(evidence@, proof_ref@, k) {
            let k = choose|k: int| first_proof_at(evidence@, proof_ref@, k);
            assert(evidence@[k].proof_ref@ != proof_ref@);
        }
    }
    None
}

fn is_terminal(outcome: UnifiedEffectOutcome) -> (b: bool)
    ensures
        b == terminal_outcome(outcome),
{
    !matches!(outcome, UnifiedEffectOutcome::StillUnknown)
}

impl UnifiedActionRecord {
    pub fn latest_attempt(&self) -> (r: Option<&UnifiedPreparedAttempt>)
        ensures
            match r {
                Some(a) => self.attempts@.len() > 0 && *a == self.attempts@.last(),
                None => self.attempts@.len() == 0,
            },
    {
        if self.attempts.len() == 0 {
            None
        } else {
            Some(&self.attempts[self.attempts.len() - 1])
        }
    }

    pub fn latest_evidence(&self, ordinal: u32) -> (r: Option<&UnifiedEffectEvidence>)
        ensures
            match r {
                Some(e) => latest_evidence_for(self.evidence@, ordinal) == Some(*e),
                None => latest_evidence_for(self.evidence@, ordinal) is None,
            },
    {
        let mut i = self.evidence.len();
        assert(self.evidence@.subrange(0, i as int) =~= self.evidence@);
        while i > 0
            invariant
                i <= self.evidence@.len(),
                latest_evidence_for(self.evidence@, ordinal) == latest_evidence_for(
                    self.evidence@.subrange(0, i as int),
                    ordinal,
                ),
            decreases i,
        {
            let ghost prefix = self.evidence@.subrange(0, i as int);
            assert(prefix.last() == self.evidence@[i - 1]);
            assert(prefix.drop_last() =~= self.evidence@.subrange(0, i - 1));
            if self.evidence[i - 1].attempt_ordinal == ordinal {
                return Some(&self.evidence[i - 1]);
            }
            i = i - 1;
        }
        None
    }

    fn latest_conflict(&self) -> (r: Option<&UnifiedEffectEvidence>)
        ensures
            match r {
                Some(e) => latest_identity_conflict(self.evidence@) == Some(*e),
                None => latest_identity_conflict(self.evidence@) is None,
            },
    {
        let mut i = self.evidence.len();
        assert(self.evidence@.subrange(0, i as int) =~= self.evidence@);
        while i > 0
            invariant
                i <= self.evidence@.len(),
                latest_identity_conflict(self.evidence@) == latest_identity_conflict(
                    self.evidence@.subrange(0, i as int),
                ),
            decreases i,
        {
            let ghost prefix = self.evidence@.subrange(0, i as int);
            assert(prefix.last() == self.evidence@[i - 1]);
            assert(prefix.drop_last() =~= self.evidence@.subrange(0, i - 1));
            if self.evidence[i - 1].outcome == UnifiedEffectOutcome::IdentityConflict {
                return Some(&self.evidence[i - 1]);
            }
            i = i - 1;
        }
        None
    }

    pub fn has_conflicting_evidence(&self) -> (b: bool)
        ensures
            b == evidence_conflicts(self.evidence@),
    {
        let ev = &self.evidence;
        let mut i: usize = 0;
        while i < ev.len()
            invariant
                ev@ == self.evidence@,
                i <= ev@.len(),
                forall|a: int, c: int|
                    0 <= a < i && 0 <= c < ev@.len() && terminal_outcome(#[trigger] ev@[a].outcome)
                        && terminal_outcome(#[trigger] ev@[c].outcome) && ev@[a].attempt_ordinal
                        == ev@[c].attempt_ordinal ==> ev@[a].outcome == ev@[c].outcome,
            decreases ev@.len() - i,
        {
            if is_terminal(ev[i].outcome) {
                let mut j: usize = 0;
                while j < ev.len()
                    invariant
                        ev@ == self.evidence@,
                        i < ev@.len(),
                        j <= ev@.len(),
                        terminal_outcome(ev@[i as int].outcome),
                        forall|c: int|
                            0 <= c < j && terminal_outcome(#[trigger] ev@[c].outcome)
                                && ev@[i as int].attempt_ordinal == ev@[c].attempt_ordinal
                                ==> ev@[i as int].outcome == ev@[c].outcome,
                    decreases ev@.len() - j,
                {
                    if ev[j].attempt_ordinal == ev[i].attempt_ordinal && is_terminal(ev[j].outcome)
                        && ev[j].outcome != ev[i].outcome {
                        assert(conflict_pair(self.evidence@, i as int, j as int));
                        return true;
                    }
                    j = j + 1;
                }
            }
            i = i + 1;
        }
        assert(!evidence_conflicts(self.evidence@)) by {
            assert forall|a: int, c: int| !#[trigger] conflict_pair(self.evidence@, a, c) by {
                if conflict_pair(self.evidence@, a, c) {
                    assert(terminal_outcome(ev@[a].outcome));
                    assert(terminal_outcome(ev@[c].outcome));
                }
            }
        }
        false
    }

    pub fn projected_supported_evidence(&self) -> (r: Vec<EvidenceRef>)
        ensures
            r@.len() == projected_proofs(self.projections@, self.evidence@).len(),
            forall|k: int|
                0 <= k < r@.len() ==> {
                    &&& (#[trigger] r@[k]).id@ == projected_proofs(
                        self.projections@,
                        self.evidence@,
                    )[k]
                    &&& r@[k].status == EvidenceStatus::Supported
                    &&& r@[k].note@ == "unified fenced store confirmed the external side effect"@
                },
    {
        let mut out: Vec<EvidenceRef> = Vec::new();
        let mut p: usize = 0;
        while p < self.projections.len()
            invariant
                p <= self.projections@.len(),
                out@.len() == projected_proofs(self.projections@.subrange(0, p as int), self.evidence@).len(),
                forall|k: int|
                    0 <= k < out@.len() ==> {
                        &&& (#[trigger] out@[k]).id@ == projected_proofs(
                            self.projections@.subrange(0, p as int),
                            self.evidence@,
                        )[k]
                        &&& out@[k].status == EvidenceStatus::Supported
                        &&& out@[k].note@ == "unified fenced store confirmed the external side effect"@
                    },
            decreases self.projections@.len() - p,
        {
            let marker = &self.projections[p];
            let ghost next = self.projections@.subrange(0, p + 1);
            assert(next.drop_last() =~= self.projections@.subrange(0, p as int));
            assert(next.last() == *marker);
            let mut found: Option<usize> = None;
            let mut e: usize = 0;
            while e < self.evidence.len()
                invariant
                    e <= self.evidence@.len(),
                    p < self.projections@.len(),
                    *marker == self.projections@[p as int],
                    found is None ==> forall|j: int|
                        0 <= j < e ==> !supports_marker(#[trigger] self.evidence@[j], *marker),
                    found matches Some(k) ==> k < self.evidence@.len() && supports_marker(
                        self.evidence@[k as int],
                        *marker,
                    ),
                ensures
                    found is None ==> forall|j: int|
                        0 <= j < self.evidence@.len() ==> !supports_marker(
                            #[trigger] self.evidence@[j],
                            *marker,
                        ),
                    found matches Some(k) ==> k < self.evidence@.len() && supports_marker(
                        self.evidence@[k as int],
                        *marker,
                    ),
                decreases self.evidence@.len() - e,
            {
                let candidate = &self.evidence[e];
                if candidate.attempt_ordinal == marker.attempt_ordinal && same_text(
                    &candidate.proof_ref,
                    &marker.proof_ref,
                ) && candidate.outcome == UnifiedEffectOutcome::EffectSucceeded {
                    found = Some(e);
                    break;
                }
                e = e + 1;
            }
            match found {
                Some(k) => {
                    assert(supports_marker(self.evidence@[k as int], next.last()));
                    let item = EvidenceRef::new(
                        self.evidence[k].proof_ref.as_str(),
                        EvidenceStatus::Supported,
                        "unified fenced store confirmed the external side effect",
                    );
                    out.push(item);
                },
                None => {
                    assert(!exists|k: int|
                        0 <= k < self.evidence@.len() && supports_marker(
                            #[trigger] self.evidence@[k],
                            next.last(),
                        ));
                },
            }
            p = p + 1;
        }
        assert(self.projections@.subrange(0, self.projections@.len() as int) =~= self.projections@);
        out
    }
}


#[derive(Debug, PartialEq, Eq)]
pub struct UnifiedFencingToken {
    pub action_id: ActionId,
    pub owner: RecoveryWorkerId,
    pub epoch: u64,
}

impl Clone for UnifiedFencingToken {
    fn clone(&self) -> (r: Self)
        ensures
            r == *self,
    {
        UnifiedFencingToken { action_id: self.action_id.clone(), owner: self.owner.clone(), epoch: self.epoch }
    }
}

impl From<UnifiedFencingToken> for FencingToken {
    fn from(value: UnifiedFencingToken) -> (r: Self) {
        FencingToken { action_id: value.action_id, owner: value.owner, epoch: value.epoch }
    }
}

impl vstd::std_specs::convert::FromSpecImpl<UnifiedFencingToken> for FencingToken {
    open spec fn obeys_from_spec() -> bool {
        true
    }

    open spec fn from_spec(v: UnifiedFencingToken) -> Self {
        FencingToken { action_id: v.action_id, owner: v.owner, epoch: v.epoch }
    }
}

#[derive(Debug, PartialEq, Eq)]
pub struct UnifiedReconciliationObservation {
    pub action_id: ActionId,
    pub idempotency_key: String,
    pub operation_ref: String,
    pub attempt_ordinal: u32,
    pub observed_at: Timestamp,
    pub outcome: ReconciliationOutcome,
    pub proof_ref: String,
}

impl Clone for UnifiedReconciliationObservation {
    fn clone(&self) -> (r: Self)
        ensures
            r == *self,
    {
        UnifiedReconciliationObservation {
            action_id: self.action_id.clone(),
            idempotency_key: self.idempotency_key.clone(),
            operation_ref: self.operation_ref.clone(),
            attempt_ordinal: self.attempt_ordinal,
            observed_at: self.observed_at,
            outcome: self.outcome,
            proof_ref: self.proof_ref.clone(),
        }
    }
}

#[derive(Debug, PartialEq, Eq)]
pub struct UnifiedEvidenceCommit {
    pub proof_ref: String,
    pub outcome: UnifiedEffectOutcome,
    pub projected: bool,
    pub record_revision: u64,
    pub duplicate: bool,
}

impl Clone for UnifiedEvidenceCommit {
    fn clone(&self) -> (r: Self)
        ensures
            r == *self,
    {
        UnifiedEvidenceCommit {
            proof_ref: self.proof_ref.clone(),
            outcome: self.outcome,
            projected: self.projected,
            record_revision: self.record_revision,
            duplicate: self.duplicate,
        }
    }
}

#[derive(Debug, Clone, PartialEq, Eq)]
pub enum UnifiedRuntimeDirective {
    ReadyForPreparation,
    Reconcile { ordinal: u32 },
    EvaluateRetry { ordinal: u32, proof_ref: String },
    CloseSucceeded { ordinal: u32, proof_ref: String },
    BlockIdentityConflict { proof_ref: String },
    BlockConflictingEvidence,
}

#[derive(Debug, Clone, Copy, PartialEq, Eq, Structural)]
pub enum UnifiedConfigBlock {
    EmptyIdempotencyKey,
    EmptyOperationRef,
    InvalidTtl,
}

#[derive(Debug, Clone, PartialEq, Eq)]
pub enum UnifiedFencedBlock<E> {
    Config(UnifiedConfigBlock),
    Store(E),
    ActionAlreadyExists,
    ActionMissing,
    Contended,
    ActionMismatch,
    IdempotencyMismatch,
    LeaseHeld { owner: RecoveryWorkerId, epoch: u64, expires_at: Timestamp },
    LeaseMissing,
    LeaseExpired { epoch: u64 },
    StaleFence { presented_epoch: u64, current_epoch: u64 },
    WrongOwner,
    EpochOverflow,
    LeaseRevisionOverflow,
    RecordRevisionOverflow,
    DecisionDoesNotAuthorizePreparation,
    UnexpectedAttemptOrdinal { expected: u32, received: u32 },
    PreviousAttemptNotRetrySafe,
    RetryProofLineageMissing,
    AttemptMissing { ordinal: u32 },
    PermitMismatch,
    DispatchAlreadyRecorded { ordinal: u32 },
    EmptyProof,
    ObservationBeforePreparation,
    ReceiptIdentityMismatch,
    ReconciliationIdentityMismatch,
    ConflictingProofIdentity,
}

impl<E> From<UnifiedConfigBlock> for UnifiedFencedBlock<E> {
    fn from(value: UnifiedConfigBlock) -> (r: Self) {
        UnifiedFencedBlock::Config(value)
    }
}

impl<E> vstd::std_specs::convert::FromSpecImpl<UnifiedConfigBlock> for UnifiedFencedBlock<E> {
    open spec fn obeys_from_spec() -> bool {
        true
    }

    open spec fn from_spec(v: UnifiedConfigBlock) -> Self {
        UnifiedFencedBlock::Config(v)
    }
}

/// Whether `token` names the current, unexpired lease of the record.
pub open spec fn lease_check<E>(
    record: UnifiedActionRecord,
    token: UnifiedFencingToken,
    now: Timestamp,
) -> Result<UnifiedLeaseAuthority, UnifiedFencedBlock<E>> {
    if record.binding.action_id@ != token.action_id@ {
        Err(UnifiedFencedBlock::ActionMismatch)
    } else {
        match record.lease {
            None => Err(UnifiedFencedBlock::LeaseMissing),
            Some(lease) => if lease.epoch != token.epoch {
                Err(
                    UnifiedFencedBlock::StaleFence {
                        presented_epoch: token.epoch,
                        current_epoch: lease.epoch,
                    },
                )
            } else if lease.owner@ != token.owner@ {
                Err(UnifiedFencedBlock::WrongOwner)
            } else if lease.expires_at@ <= now@ {
                Err(UnifiedFencedBlock::LeaseExpired { epoch: lease.epoch })
            } else {
                Ok(lease)
            },
        }
    }
}

/// Checks a token against the lease held in the record.
pub fn check_lease<E>(record: &UnifiedActionRecord, token: &UnifiedFencingToken, now: Timestamp) -> (r:
    Result<UnifiedLeaseAuthority, UnifiedFencedBlock<E>>)
    ensures
        r == lease_check::<E>(*record, *token, now),
{
    if record.binding.action_id != token.action_id {
        return Err(UnifiedFencedBlock::ActionMismatch);
    }
    let lease = match &record.lease {
        Some(lease) => lease,
        None => return Err(UnifiedFencedBlock::LeaseMissing),
    };
    if lease.epoch != token.epoch {
        return Err(
            UnifiedFencedBlock::StaleFence { presented_epoch: token.epoch, current_epoch: lease.epoch },
        );
    }
    if lease.owner != token.owner {
        return Err(UnifiedFencedBlock::WrongOwner);
    }
    if lease.expires_at.epoch_seconds() <= now.epoch_seconds() {
        return Err(UnifiedFencedBlock::LeaseExpired { epoch: lease.epoch });
    }
    Ok(lease.clone())
}

/// The epoch an acquisition at `now` installs: 1 on a fresh record, the next
/// epoch after an expired lease; refused while the lease is live.
pub open spec fn acquisition_epoch<E>(record: UnifiedActionRecord, now: Timestamp) -> Result<
    u64,
    UnifiedFencedBlock<E>,
> {
    match record.lease {
        None => Ok(1u64),
        Some(lease) => if lease.expires_at@ > now@ {
            Err(
                UnifiedFencedBlock::LeaseHeld {
                    owner: lease.owner,
                    epoch: lease.epoch,
                    expires_at: lease.expires_at,
                },
            )
        } else if lease.epoch == u64::MAX {
            Err(UnifiedFencedBlock::EpochOverflow)
        } else {
            Ok((lease.epoch + 1) as u64)
        },
    }
}

/// The record after `owner` acquires its lease at `now` until `expires_at`,
/// with the epoch installed.
pub open spec fn acquire_transition<E>(
    record: UnifiedActionRecord,
    owner: RecoveryWorkerId,
    now: Timestamp,
    expires_at: Timestamp,
) -> Result<(UnifiedActionRecord, u64), UnifiedFencedBlock<E>> {
    match acquisition_outcome::<E>(record, now) {
        Err(e) => Err(e),
        Ok(epoch) => {
            Ok(
                (
                    UnifiedActionRecord {
                        lease: Some(UnifiedLeaseAuthority { owner, epoch, revision: 0, expires_at }),
                        revision: (record.revision + 1) as u64,
                        ..record
                    },
                    epoch,
                ),
            )
        },
    }
}

/// The epoch an acquisition installs, once the record revision can advance.
pub open spec fn acquisition_outcome<E>(record: UnifiedActionRecord, now: Timestamp) -> Result<
    u64,
    UnifiedFencedBlock<E>,
> {
    match acquisition_epoch::<E>(record, now) {
        Err(e) => Err(e),
        Ok(epoch) => if record.revision == u64::MAX {
            Err(UnifiedFencedBlock::RecordRevisionOverflow)
        } else {
            Ok(epoch)
        },
    }
}

/// Computes the record that acquiring the lease installs.
pub fn plan_acquire<E>(
    record: UnifiedActionRecord,
    owner: RecoveryWorkerId,
    now: Timestamp,
    expires_at: Timestamp,
) -> (r: Result<(UnifiedActionRecord, u64), UnifiedFencedBlock<E>>)
    ensures
        r == acquire_transition::<E>(record, owner, now, expires_at),
{
    let epoch: u64 = match &record.lease {
        None => 1,
        Some(lease) => {
            if lease.expires_at.epoch_seconds() > now.epoch_seconds() {
                return Err(
                    UnifiedFencedBlock::LeaseHeld {
                        owner: lease.owner.clone(),
                        epoch: lease.epoch,
                        expires_at: lease.expires_at,
                    },
                );
            }
            match lease.epoch.checked_add(1) {
                Some(epoch) => epoch,
                None => return Err(UnifiedFencedBlock::EpochOverflow),
            }
        },
    };
    let revision = match record.revision.checked_add(1) {
        Some(revision) => revision,
        None => return Err(UnifiedFencedBlock::RecordRevisionOverflow),
    };
    let mut record = record;
    record.lease = Some(UnifiedLeaseAuthority { owner, epoch, revision: 0, expires_at });
    record.revision = revision;
    Ok((record, epoch))
}

/// The record after the current owner renews its lease until `expires_at`,
/// with the renewed lease: same owner and epoch, next lease revision.
pub open spec fn renew_transition<E>(
    record: UnifiedActionRecord,
    token: UnifiedFencingToken,
    now: Timestamp,
    expires_at: Timestamp,
) -> Result<(UnifiedActionRecord, UnifiedLeaseAuthority), UnifiedFencedBlock<E>> {
    match lease_check::<E>(record, token, now) {
        Err(e) => Err(e),
        Ok(current) => if current.revision == u64::MAX {
            Err(UnifiedFencedBlock::LeaseRevisionOverflow)
        } else if record.revision == u64::MAX {
            Err(UnifiedFencedBlock::RecordRevisionOverflow)
        } else {
            let renewed = UnifiedLeaseAuthority {
                owner: current.owner,
                epoch: current.epoch,
                revision: (current.revision + 1) as u64,
                expires_at,
            };
            Ok(
                (
                    UnifiedActionRecord {
                        lease: Some(renewed),
                        revision: (record.revision + 1) as u64,
                        ..record
                    },
                    renewed,
                ),
            )
        },
    }
}

/// Computes the record that renewing the lease installs.
pub fn plan_renew<E>(
    record: UnifiedActionRecord,
    token: &UnifiedFencingToken,
    now: Timestamp,
    expires_at: Timestamp,
) -> (r: Result<(UnifiedActionRecord, UnifiedLeaseAuthority), UnifiedFencedBlock<E>>)
    ensures
        r == renew_transition::<E>(record, *token, now, expires_at),
{
    let current = check_lease::<E>(&record, token, now)?;
    let lease_revision = match current.revision.checked_add(1) {
        Some(revision) => revision,
        None => return Err(UnifiedFencedBlock::LeaseRevisionOverflow),
    };
    let revision = match record.revision.checked_add(1) {
        Some(revision) => revision,
        None => return Err(UnifiedFencedBlock::RecordRevisionOverflow),
    };
    let renewed = UnifiedLeaseAuthority {
        owner: current.owner,
        epoch: current.epoch,
        revision: lease_revision,
        expires_at,
    };
    let mut record = record;
    record.lease = Some(renewed.clone());
    record.revision = revision;
    Ok((record, renewed))
}

/// The ordinal the next prepared attempt must carry: one past the last
/// prepared ordinal (saturating), or zero.
pub open spec fn next_ordinal(attempts: Seq<UnifiedPreparedAttempt>) -> u32 {
    if attempts.len() == 0 {
        0u32
    } else if attempts.last().permit.attempt_ordinal == u32::MAX {
        u32::MAX
    } else {
        (attempts.last().permit.attempt_ordinal + 1) as u32
    }
}

/// The ordinal a retry verdict authorizes preparing.
pub open spec fn authorized_ordinal(verdict: RetryVerdict) -> Option<u32> {
    match verdict {
        RetryVerdict::InitialDispatchAllowed => Some(0u32),
        RetryVerdict::RedispatchAllowed { ordinal } => Some(ordinal),
        _ => None,
    }
}

/// Some proof reference of the list has exactly the characters of `proof`.
pub open spec fn lists_proof(proofs: Seq<String>, proof: Seq<char>) -> bool {
    exists|k: int| 0 <= k < proofs.len() && (#[trigger] proofs[k])@ == proof
}

/// Whether a retry decision may prepare the next attempt under `token`, and
/// the ordinal it prepares. A retry needs settled retry-safe evidence about the
/// previous attempt, and the decision must carry that evidence's proof.
pub open spec fn preparation_check<E>(
    record: UnifiedActionRecord,
    token: UnifiedFencingToken,
    decision: RetryDecision,
    now: Timestamp,
) -> Result<u32, UnifiedFencedBlock<E>> {
    match lease_check::<E>(record, token, now) {
        Err(e) => Err(e),
        Ok(_) => if decision.action_id@ != record.binding.action_id@ {
            Err(UnifiedFencedBlock::ActionMismatch)
        } else if decision.idempotency_key@ != record.binding.idempotency_key@ {
            Err(UnifiedFencedBlock::IdempotencyMismatch)
        } else {
            match authorized_ordinal(decision.verdict) {
                None => Err(UnifiedFencedBlock::DecisionDoesNotAuthorizePreparation),
                Some(ordinal) => if ordinal != next_ordinal(record.attempts@) {
                    Err(
                        UnifiedFencedBlock::UnexpectedAttemptOrdinal {
                            expected: next_ordinal(record.attempts@),
                            received: ordinal,
                        },
                    )
                } else if ordinal == 0 {
                    Ok(0u32)
                } else {
                    match latest_evidence_for(record.evidence@, (ordinal - 1) as u32) {
                        None => Err(UnifiedFencedBlock::PreviousAttemptNotRetrySafe),
                        Some(previous) => if previous.outcome != UnifiedEffectOutcome::EffectFailed
                            && previous.outcome != UnifiedEffectOutcome::NoEffectConfirmed {
                            Err(UnifiedFencedBlock::PreviousAttemptNotRetrySafe)
                        } else if !lists_proof(decision.proof_refs@, previous.proof_ref@) {
                            Err(UnifiedFencedBlock::RetryProofLineageMissing)
                        } else {
                            Ok(ordinal)
                        },
                    }
                },
            }
        }
    }
}

/// The permit a prepared attempt carries.
pub open spec fn prepared_permit(
    record: UnifiedActionRecord,
    token: UnifiedFencingToken,
    ordinal: u32,
) -> FencedAttemptPermit {
    FencedAttemptPermit {
        action_id: token.action_id,
        owner: token.owner,
        fencing_epoch: token.epoch,
        attempt_ordinal: ordinal,
        idempotency_key: record.binding.idempotency_key,
    }
}

/// `new` is `old` with one more prepared attempt carrying `permit`, prepared at
/// `prepared_at` on the authority of `proofs`, and the next record revision.
pub open spec fn attempt_appended(
    old: UnifiedActionRecord,
    new: UnifiedActionRecord,
    permit: FencedAttemptPermit,
    prepared_at: Timestamp,
    proofs: Seq<String>,
) -> bool {
    &&& new.binding == old.binding
    &&& new.revision == old.revision + 1
    &&& new.lease == old.lease
    &&& new.evidence == old.evidence
    &&& new.projections == old.projections
    &&& new.attempts@.len() == old.attempts@.len() + 1
    &&& new.attempts@.drop_last() == old.attempts@
    &&& new.attempts@.last().permit == permit
    &&& new.attempts@.last().prepared_at == prepared_at
    &&& new.attempts@.last().authorization_proof_refs@ == proofs
    &&& new.attempts@.last().dispatch is None
}

/// Computes the record that preparing the next attempt installs, with its permit.
pub fn plan_prepare<E>(
    record: UnifiedActionRecord,
    token: &UnifiedFencingToken,
    decision: &RetryDecision,
    prepared_at: Timestamp,
    now: Timestamp,
) -> (r: Result<(UnifiedActionRecord, FencedAttemptPermit), UnifiedFencedBlock<E>>)
    ensures
        match preparation_check::<E>(record, *token, *decision, now) {
            Err(e) => r == Err::<(UnifiedActionRecord, FencedAttemptPermit), UnifiedFencedBlock<E>>(e),
            Ok(ordinal) => if record.revision == u64::MAX {
                r == Err::<(UnifiedActionRecord, FencedAttemptPermit), UnifiedFencedBlock<E>>(
                    UnifiedFencedBlock::RecordRevisionOverflow,
                )
            } else {
                r matches Ok((new, permit)) && permit == prepared_permit(record, *token, ordinal)
                    && attempt_appended(record, new, permit, prepared_at, decision.proof_refs@)
            },
        },
{
    check_lease::<E>(&record, token, now)?;
    if decision.action_id != record.binding.action_id {
        return Err(UnifiedFencedBlock::ActionMismatch);
    }
    if !same_text(&decision.idempotency_key, &record.binding.idempotency_key) {
        return Err(UnifiedFencedBlock::IdempotencyMismatch);
    }
    let ordinal: u32 = match decision.verdict {
        RetryVerdict::InitialDispatchAllowed => 0,
        RetryVerdict::RedispatchAllowed { ordinal } => ordinal,
        _ => return Err(UnifiedFencedBlock::DecisionDoesNotAuthorizePreparation),
    };
    let expected: u32 = match record.latest_attempt() {
        Some(attempt) => attempt.permit.attempt_ordinal.saturating_add(1),
        None => 0,
    };
    if ordinal != expected {
        return Err(UnifiedFencedBlock::UnexpectedAttemptOrdinal { expected, received: ordinal });
    }
    if ordinal > 0 {
        let previous = match record.latest_evidence(ordinal - 1) {
            Some(previous) => previous,
            None => return Err(UnifiedFencedBlock::PreviousAttemptNotRetrySafe),
        };
        if previous.outcome != UnifiedEffectOutcome::EffectFailed && previous.outcome
            != UnifiedEffectOutcome::NoEffectConfirmed {
            return Err(UnifiedFencedBlock::PreviousAttemptNotRetrySafe);
        }
        if !contains_text(&decision.proof_refs, &previous.proof_ref) {
            return Err(UnifiedFencedBlock::RetryProofLineageMissing);
        }
    }
    let revision = match record.revision.checked_add(1) {
        Some(revision) => revision,
        None => return Err(UnifiedFencedBlock::RecordRevisionOverflow),
    };
    let permit = FencedAttemptPermit {
        action_id: token.action_id.clone(),
        owner: token.owner.clone(),
        fencing_epoch: token.epoch,
        attempt_ordinal: ordinal,
        idempotency_key: record.binding.idempotency_key.clone(),
    };
    let mut record = record;
    let ghost before = record.attempts@;
    record.attempts.push(
        UnifiedPreparedAttempt {
            permit: permit.clone(),
            prepared_at,
            authorization_proof_refs: copy_texts(&decision.proof_refs),
            dispatch: None,
        },
    );
    assert(record.attempts@.drop_last() =~= before);
    record.revision = revision;
    Ok((record, permit))
}


/// Two permits name the same action, owner, epoch, ordinal and key.
pub open spec fn same_permit(a: FencedAttemptPermit, b: FencedAttemptPermit) -> bool {
    &&& a.action_id@ == b.action_id@
    &&& a.owner@ == b.owner@
    &&& a.fencing_epoch == b.fencing_epoch
    &&& a.attempt_ordinal == b.attempt_ordinal
    &&& a.idempotency_key@ == b.idempotency_key@
}

pub(crate) fn permits_match(a: &FencedAttemptPermit, b: &FencedAttemptPermit) -> (r: bool)
    ensures
        r == same_permit(*a, *b),
{
    a.action_id == b.action_id && a.owner == b.owner && a.fencing_epoch == b.fencing_epoch
        && a.attempt_ordinal == b.attempt_ordinal && same_text(&a.idempotency_key, &b.idempotency_key)
}

/// The index of the first attempt prepared with `ordinal`.
pub open spec fn first_attempt_index(attempts: Seq<UnifiedPreparedAttempt>, ordinal: u32) -> int {
    choose|k: int| first_attempt_at(attempts, ordinal, k)
}

/// Whether dispatch of `permit` may be recorded under `token` at
/// `dispatched_at`, and the index of the attempt it closes over.
pub open spec fn dispatch_check<E>(
    record: UnifiedActionRecord,
    token: UnifiedFencingToken,
    permit: FencedAttemptPermit,
    dispatched_at: Timestamp,
    now: Timestamp,
) -> Result<int, UnifiedFencedBlock<E>> {
    match lease_check::<E>(record, token, now) {
        Err(e) => Err(e),
        Ok(_) => if permit.action_id@ != token.action_id@ || permit.owner@ != token.owner@
            || permit.fencing_epoch != token.epoch || permit.idempotency_key@
            != record.binding.idempotency_key@ {
            Err(UnifiedFencedBlock::PermitMismatch)
        } else {
            match first_attempt(record.attempts@, permit.attempt_ordinal) {
                None => Err(UnifiedFencedBlock::AttemptMissing { ordinal: permit.attempt_ordinal }),
                Some(attempt) => if !same_permit(attempt.permit, permit) {
                    Err(UnifiedFencedBlock::PermitMismatch)
                } else if attempt.dispatch is Some {
                    Err(UnifiedFencedBlock::DispatchAlreadyRecorded { ordinal: permit.attempt_ordinal })
                } else if dispatched_at@ < attempt.prepared_at@ {
                    Err(UnifiedFencedBlock::ObservationBeforePreparation)
                } else {
                    Ok(first_attempt_index(record.attempts@, permit.attempt_ordinal))
                },
            }
        }
    }
}

/// Computes the record that records dispatch evidence on a prepared attempt.
pub fn plan_dispatch<E>(
    record: UnifiedActionRecord,
    token: &UnifiedFencingToken,
    permit: &FencedAttemptPermit,
    dispatched_at: Timestamp,
    proof_ref: String,
    now: Timestamp,
) -> (r: Result<UnifiedActionRecord, UnifiedFencedBlock<E>>)
    ensures
        match dispatch_check::<E>(record, *token, *permit, dispatched_at, now) {
            Err(e) => r == Err::<UnifiedActionRecord, UnifiedFencedBlock<E>>(e),
            Ok(k) => if record.revision == u64::MAX {
                r == Err::<UnifiedActionRecord, UnifiedFencedBlock<E>>(
                    UnifiedFencedBlock::RecordRevisionOverflow,
                )
            } else {
                r matches Ok(new) && {
                    &&& new.binding == record.binding
                    &&& new.revision == record.revision + 1
                    &&& new.lease == record.lease
                    &&& new.evidence == record.evidence
                    &&& new.projections == record.projections
                    &&& new.attempts@ == record.attempts@.update(
                        k,
                        UnifiedPreparedAttempt {
                            dispatch: Some(UnifiedDispatchEvidence { dispatched_at, proof_ref }),
                            ..record.attempts@[k]
                        },
                    )
                }
            },
        },
{
    check_lease::<E>(&record, token, now)?;
    if permit.action_id != token.action_id || permit.owner != token.owner || permit.fencing_epoch
        != token.epoch || !same_text(&permit.idempotency_key, &record.binding.idempotency_key) {
        return Err(UnifiedFencedBlock::PermitMismatch);
    }
    let k = match find_attempt(&record.attempts, permit.attempt_ordinal) {
        Some(k) => k,
        None => return Err(UnifiedFencedBlock::AttemptMissing { ordinal: permit.attempt_ordinal }),
    };
    if !permits_match(&record.attempts[k].permit, permit) {
        return Err(UnifiedFencedBlock::PermitMismatch);
    }
    if record.attempts[k].dispatch.is_some() {
        return Err(UnifiedFencedBlock::DispatchAlreadyRecorded { ordinal: permit.attempt_ordinal });
    }
    if dispatched_at.epoch_seconds() < record.attempts[k].prepared_at.epoch_seconds() {
        return Err(UnifiedFencedBlock::ObservationBeforePreparation);
    }
    let revision = match record.revision.checked_add(1) {
        Some(revision) => revision,
        None => return Err(UnifiedFencedBlock::RecordRevisionOverflow),
    };
    let mut record = record;
    let ghost before = record.attempts@;
    let mut attempt = record.attempts.remove(k);
    attempt.dispatch = Some(UnifiedDispatchEvidence { dispatched_at, proof_ref });
    record.attempts.insert(k, attempt);
    assert(record.attempts@ =~= before.update(
        k as int,
        UnifiedPreparedAttempt {
            dispatch: Some(UnifiedDispatchEvidence { dispatched_at, proof_ref }),
            ..before[k as int]
        },
    ));
    record.revision = revision;
    Ok(record)
}

/// Whether committing `evidence` may proceed: `Some(projected)` when the same
/// evidence is already recorded (nothing to write; `projected` says whether a
/// marker names it), `None` when it is new.
pub open spec fn evidence_admission<E>(
    record: UnifiedActionRecord,
    evidence: UnifiedEffectEvidence,
) -> Result<Option<bool>, UnifiedFencedBlock<E>> {
    match first_attempt(record.attempts@, evidence.attempt_ordinal) {
        None => Err(UnifiedFencedBlock::AttemptMissing { ordinal: evidence.attempt_ordinal }),
        Some(attempt) => if evidence.observed_at@ < attempt.prepared_at@ {
            Err(UnifiedFencedBlock::ObservationBeforePreparation)
        } else {
            match first_with_proof(record.evidence@, evidence.proof_ref@) {
                None => Ok(None),
                Some(existing) => if same_effect_evidence(existing, evidence) {
                    Ok(
                        Some(
                            projection_recorded(
                                record.projections@,
                                evidence.proof_ref@,
                                evidence.attempt_ordinal,
                            ),
                        ),
                    )
                } else {
                    Err(UnifiedFencedBlock::ConflictingProofIdentity)
                },
            }
        },
    }
}

/// What committing `evidence` reports: a duplicate keeps the record revision;
/// new evidence takes the next revision and is projected exactly when it
/// confirms the effect succeeded.
pub open spec fn evidence_commit<E>(
    record: UnifiedActionRecord,
    evidence: UnifiedEffectEvidence,
) -> Result<UnifiedEvidenceCommit, UnifiedFencedBlock<E>> {
    match evidence_admission::<E>(record, evidence) {
        Err(e) => Err(e),
        Ok(Some(projected)) => Ok(
            UnifiedEvidenceCommit {
                proof_ref: evidence.proof_ref,
                outcome: evidence.outcome,
                projected,
                record_revision: record.revision,
                duplicate: true,
            },
        ),
        Ok(None) => if record.revision == u64::MAX {
            Err(UnifiedFencedBlock::RecordRevisionOverflow)
        } else {
            Ok(
                UnifiedEvidenceCommit {
                    proof_ref: evidence.proof_ref,
                    outcome: evidence.outcome,
                    projected: evidence.outcome == UnifiedEffectOutcome::EffectSucceeded,
                    record_revision: (record.revision + 1) as u64,
                    duplicate: false,
                },
            )
        },
    }
}

/// `new` is `old` with `evidence` appended, a projection marker appended when
/// the evidence confirms success, and the next record revision.
pub open spec fn evidence_appended(
    old: UnifiedActionRecord,
    new: UnifiedActionRecord,
    evidence: UnifiedEffectEvidence,
) -> bool {
    &&& new.binding == old.binding
    &&& new.revision == old.revision + 1
    &&& new.lease == old.lease
    &&& new.attempts == old.attempts
    &&& new.evidence@ == old.evidence@.push(evidence)
    &&& new.projections@ == if evidence.outcome == UnifiedEffectOutcome::EffectSucceeded {
        old.projections@.push(
            UnifiedProjectionMarker {
                attempt_ordinal: evidence.attempt_ordinal,
                proof_ref: evidence.proof_ref,
                projected_at: evidence.observed_at,
            },
        )
    } else {
        old.projections@
    }
}

/// A plan's result agrees with `outcome`: on success it reports that commit
/// and, for new evidence, a replacement record with `evidence` appended.
pub open spec fn commit_plan_agrees<E>(
    record: UnifiedActionRecord,
    evidence: UnifiedEffectEvidence,
    outcome: Result<UnifiedEvidenceCommit, UnifiedFencedBlock<E>>,
    r: Result<(Option<UnifiedActionRecord>, UnifiedEvidenceCommit), UnifiedFencedBlock<E>>,
) -> bool {
    match outcome {
        Err(e) => r == Err::<(Option<UnifiedActionRecord>, UnifiedEvidenceCommit), UnifiedFencedBlock<E>>(e),
        Ok(c) => r matches Ok((next, commit)) && commit == c && (c.duplicate <==> next is None) && (
        next matches Some(new) ==> evidence_appended(record, new, evidence)),
    }
}

fn projection_exists(projections: &Vec<UnifiedProjectionMarker>, proof_ref: &String, ordinal: u32) -> (r:
    bool)
    ensures
        r == projection_recorded(projections@, proof_ref@, ordinal),
{
    let mut i: usize = 0;
    while i < projections.len()
        invariant
            i <= projections@.len(),
            forall|j: int|
                0 <= j < i ==> !((#[trigger] projections@[j]).proof_ref@ == proof_ref@
                    && projections@[j].attempt_ordinal == ordinal),
        decreases projections@.len() - i,
    {
        if same_text(&projections[i].proof_ref, proof_ref) && projections[i].attempt_ordinal == ordinal {
            return true;
        }
        i = i + 1;
    }
    false
}

/// Computes how committing `evidence` changes the record: `None` when the
/// same evidence is already recorded.
pub fn plan_evidence<E>(record: UnifiedActionRecord, evidence: UnifiedEffectEvidence) -> (r: Result<
    (Option<UnifiedActionRecord>, UnifiedEvidenceCommit),
    UnifiedFencedBlock<E>,
>)
    ensures
        commit_plan_agrees(record, evidence, evidence_commit::<E>(record, evidence), r),
{
    let k = match find_attempt(&record.attempts, evidence.attempt_ordinal) {
        Some(k) => k,
        None => return Err(UnifiedFencedBlock::AttemptMissing { ordinal: evidence.attempt_ordinal }),
    };
    if evidence.observed_at.epoch_seconds() < record.attempts[k].prepared_at.epoch_seconds() {
        return Err(UnifiedFencedBlock::ObservationBeforePreparation);
    }
    if let Some(existing) = find_proof(&record.evidence, &evidence.proof_ref) {
        if evidence_matches(&record.evidence[existing], &evidence) {
            let projected = projection_exists(
                &record.projections,
                &evidence.proof_ref,
                evidence.attempt_ordinal,
            );
            let revision = record.revision;
            return Ok(
                (
                    None,
                    UnifiedEvidenceCommit {
                        proof_ref: evidence.proof_ref,
                        outcome: evidence.outcome,
                        projected,
                        record_revision: revision,
                        duplicate: true,
                    },
                ),
            );
        }
        return Err(UnifiedFencedBlock::ConflictingProofIdentity);
    }
    let revision = match record.revision.checked_add(1) {
        Some(revision) => revision,
        None => return Err(UnifiedFencedBlock::RecordRevisionOverflow),
    };
    let projected = evidence.outcome == UnifiedEffectOutcome::EffectSucceeded;
    let mut record = record;
    let ghost old_projections = record.projections@;
    let ghost old_evidence = record.evidence@;
    if projected {
        record.projections.push(
            UnifiedProjectionMarker {
                attempt_ordinal: evidence.attempt_ordinal,
                proof_ref: evidence.proof_ref.clone(),
                projected_at: evidence.observed_at,
            },
        );
    }
    let commit = UnifiedEvidenceCommit {
        proof_ref: evidence.proof_ref.clone(),
        outcome: evidence.outcome,
        projected,
        record_revision: revision,
        duplicate: false,
    };
    record.evidence.push(evidence);
    record.revision = revision;
    Ok((Some(record), commit))
}

/// The unified outcome an actuator receipt establishes: an applied or already
/// applied effect succeeded, an identity conflict blocks, any other rejection
/// leaves the effect unknown.
pub open spec fn receipt_effect(outcome: FencedActuatorOutcome) -> UnifiedEffectOutcome {
    match outcome {
        FencedActuatorOutcome::Applied => UnifiedEffectOutcome::EffectSucceeded,
        FencedActuatorOutcome::AlreadyApplied { .. } => UnifiedEffectOutcome::EffectSucceeded,
        FencedActuatorOutcome::Rejected(FencedActuatorRejection::IdentityConflict) => {
            UnifiedEffectOutcome::IdentityConflict
        },
        FencedActuatorOutcome::Rejected(_) => UnifiedEffectOutcome::StillUnknown,
    }
}

/// The evidence an actuator receipt contributes.
pub open spec fn receipt_evidence(receipt: FencedActuatorReceipt) -> UnifiedEffectEvidence {
    UnifiedEffectEvidence {
        attempt_ordinal: receipt.request.attempt_ordinal,
        observed_at: receipt.observed_at,
        outcome: receipt_effect(receipt.outcome),
        proof_ref: receipt.proof_ref,
        source: UnifiedEvidenceSource::ActuatorReceipt,
    }
}

/// Whether an actuator receipt belongs to the record's operation and to the
/// permit of the attempt it reports on, and was observed after preparation.
pub open spec fn receipt_identity_check<E>(
    record: UnifiedActionRecord,
    receipt: FencedActuatorReceipt,
) -> Result<(), UnifiedFencedBlock<E>> {
    if receipt.request.action_id@ != record.binding.action_id@ || receipt.request.idempotency_key@
        != record.binding.idempotency_key@ || receipt.request.operation_ref@
        != record.binding.operation_ref@ {
        Err(UnifiedFencedBlock::ReceiptIdentityMismatch)
    } else {
        match first_attempt(record.attempts@, receipt.request.attempt_ordinal) {
            None => Err(UnifiedFencedBlock::AttemptMissing { ordinal: receipt.request.attempt_ordinal }),
            Some(attempt) => if attempt.permit.action_id@ != receipt.request.action_id@
                || attempt.permit.owner@ != receipt.request.owner@ || attempt.permit.fencing_epoch
                != receipt.request.fencing_epoch || attempt.permit.idempotency_key@
                != receipt.request.idempotency_key@ {
                Err(UnifiedFencedBlock::ReceiptIdentityMismatch)
            } else if receipt.observed_at@ < attempt.prepared_at@ {
                Err(UnifiedFencedBlock::ObservationBeforePreparation)
            } else {
                Ok(())
            },
        }
    }
}

/// What recording an actuator receipt reports for the loaded record.
pub open spec fn receipt_commit<E>(
    record: UnifiedActionRecord,
    receipt: FencedActuatorReceipt,
) -> Result<UnifiedEvidenceCommit, UnifiedFencedBlock<E>> {
    match receipt_identity_check::<E>(record, receipt) {
        Err(e) => Err(e),
        Ok(_) => evidence_commit::<E>(record, receipt_evidence(receipt)),
    }
}

/// Checks that an actuator receipt belongs to the record.
pub fn check_receipt_identity<E>(record: &UnifiedActionRecord, receipt: &FencedActuatorReceipt) -> (r:
    Result<(), UnifiedFencedBlock<E>>)
    ensures
        r == receipt_identity_check::<E>(*record, *receipt),
{
    let request = &receipt.request;
    if request.action_id != record.binding.action_id || !same_text(
        &request.idempotency_key,
        &record.binding.idempotency_key,
    ) || !same_text(&request.operation_ref, &record.binding.operation_ref) {
        return Err(UnifiedFencedBlock::ReceiptIdentityMismatch);
    }
    let k = match find_attempt(&record.attempts, request.attempt_ordinal) {
        Some(k) => k,
        None => return Err(UnifiedFencedBlock::AttemptMissing { ordinal: request.attempt_ordinal }),
    };
    let permit = &record.attempts[k].permit;
    if permit.action_id != request.action_id || permit.owner != request.owner || permit.fencing_epoch
        != request.fencing_epoch || !same_text(&permit.idempotency_key, &request.idempotency_key) {
        return Err(UnifiedFencedBlock::ReceiptIdentityMismatch);
    }
    if receipt.observed_at.epoch_seconds() < record.attempts[k].prepared_at.epoch_seconds() {
        return Err(UnifiedFencedBlock::ObservationBeforePreparation);
    }
    Ok(())
}

/// Computes how recording an actuator receipt changes the record.
pub fn plan_receipt<E>(record: UnifiedActionRecord, receipt: &FencedActuatorReceipt) -> (r: Result<
    (Option<UnifiedActionRecord>, UnifiedEvidenceCommit),
    UnifiedFencedBlock<E>,
>)
    ensures
        commit_plan_agrees(record, receipt_evidence(*receipt), receipt_commit::<E>(record, *receipt), r),
{
    check_receipt_identity::<E>(&record, receipt)?;
    let outcome = match receipt.outcome {
        FencedActuatorOutcome::Applied => UnifiedEffectOutcome::EffectSucceeded,
        FencedActuatorOutcome::AlreadyApplied { .. } => UnifiedEffectOutcome::EffectSucceeded,
        FencedActuatorOutcome::Rejected(FencedActuatorRejection::IdentityConflict) => {
            UnifiedEffectOutcome::IdentityConflict
        },
        FencedActuatorOutcome::Rejected(_) => UnifiedEffectOutcome::StillUnknown,
    };
    let evidence = UnifiedEffectEvidence {
        attempt_ordinal: receipt.request.attempt_ordinal,
        observed_at: receipt.observed_at,
        outcome,
        proof_ref: receipt.proof_ref.clone(),
        source: UnifiedEvidenceSource::ActuatorReceipt,
    };
    plan_evidence::<E>(record, evidence)
}

/// The unified outcome a reconciliation observation establishes.
pub open spec fn reconciliation_effect(outcome: ReconciliationOutcome) -> UnifiedEffectOutcome {
    match outcome {
        ReconciliationOutcome::EffectSucceeded => UnifiedEffectOutcome::EffectSucceeded,
        ReconciliationOutcome::EffectFailed => UnifiedEffectOutcome::EffectFailed,
        ReconciliationOutcome::NoEffectConfirmed => UnifiedEffectOutcome::NoEffectConfirmed,
        ReconciliationOutcome::StillUnknown => UnifiedEffectOutcome::StillUnknown,
    }
}

/// The evidence a reconciliation observation contributes.
pub open spec fn observation_evidence(observation: UnifiedReconciliationObservation) -> UnifiedEffectEvidence {
    UnifiedEffectEvidence {
        attempt_ordinal: observation.attempt_ordinal,
        observed_at: observation.observed_at,
        outcome: reconciliation_effect(observation.outcome),
        proof_ref: observation.proof_ref,
        source: UnifiedEvidenceSource::Reconciliation,
    }
}

/// Whether an observation belongs to the record's operation and reports on a
/// prepared attempt after its preparation.
pub open spec fn observation_identity_check<E>(
    record: UnifiedActionRecord,
    observation: UnifiedReconciliationObservation,
) -> Result<(), UnifiedFencedBlock<E>> {
    if observation.action_id@ != record.binding.action_id@ || observation.idempotency_key@
        != record.binding.idempotency_key@ || observation.operation_ref@
        != record.binding.operation_ref@ {
        Err(UnifiedFencedBlock::ReconciliationIdentityMismatch)
    } else {
        match first_attempt(record.attempts@, observation.attempt_ordinal) {
            None => Err(UnifiedFencedBlock::AttemptMissing { ordinal: observation.attempt_ordinal }),
            Some(attempt) => if observation.observed_at@ < attempt.prepared_at@ {
                Err(UnifiedFencedBlock::ObservationBeforePreparation)
            } else {
                Ok(())
            },
        }
    }
}

/// What recording a reconciliation observation reports for the loaded record.
pub open spec fn observation_commit<E>(
    record: UnifiedActionRecord,
    observation: UnifiedReconciliationObservation,
) -> Result<UnifiedEvidenceCommit, UnifiedFencedBlock<E>> {
    match observation_identity_check::<E>(record, observation) {
        Err(e) => Err(e),
        Ok(_) => evidence_commit::<E>(record, observation_evidence(observation)),
    }
}

/// Checks that a reconciliation observation belongs to the record.
pub fn check_observation_identity<E>(
    record: &UnifiedActionRecord,
    observation: &UnifiedReconciliationObservation,
) -> (r: Result<(), UnifiedFencedBlock<E>>)
    ensures
        r == observation_identity_check::<E>(*record, *observation),
{
    if observation.action_id != record.binding.action_id || !same_text(
        &observation.idempotency_key,
        &record.binding.idempotency_key,
    ) || !same_text(&observation.operation_ref, &record.binding.operation_ref) {
        return Err(UnifiedFencedBlock::ReconciliationIdentityMismatch);
    }
    let k = match find_attempt(&record.attempts, observation.attempt_ordinal) {
        Some(k) => k,
        None => return Err(UnifiedFencedBlock::AttemptMissing { ordinal: observation.attempt_ordinal }),
    };
    if observation.observed_at.epoch_seconds() < record.attempts[k].prepared_at.epoch_seconds() {
        return Err(UnifiedFencedBlock::ObservationBeforePreparation);
    }
    Ok(())
}

/// Computes how recording a reconciliation observation changes the record.
pub fn plan_reconciliation<E>(
    record: UnifiedActionRecord,
    observation: &UnifiedReconciliationObservation,
) -> (r: Result<(Option<UnifiedActionRecord>, UnifiedEvidenceCommit), UnifiedFencedBlock<E>>)
    ensures
        commit_plan_agrees(
            record,
            observation_evidence(*observation),
            observation_commit::<E>(record, *observation),
            r,
        ),
{
    check_observation_identity::<E>(&record, observation)?;
    let outcome = match observation.outcome {
        ReconciliationOutcome::EffectSucceeded => UnifiedEffectOutcome::EffectSucceeded,
        ReconciliationOutcome::EffectFailed => UnifiedEffectOutcome::EffectFailed,
        ReconciliationOutcome::NoEffectConfirmed => UnifiedEffectOutcome::NoEffectConfirmed,
        ReconciliationOutcome::StillUnknown => UnifiedEffectOutcome::StillUnknown,
    };
    let evidence = UnifiedEffectEvidence {
        attempt_ordinal: observation.attempt_ordinal,
        observed_at: observation.observed_at,
        outcome,
        proof_ref: observation.proof_ref.clone(),
        source: UnifiedEvidenceSource::Reconciliation,
    };
    plan_evidence::<E>(record, evidence)
}

/// What the runtime should do next with the action the record describes: any
/// identity conflict or disagreeing terminal evidence blocks; otherwise the
/// latest evidence about the latest attempt decides, and an attempt without
/// settled evidence is reconciled first.
pub open spec fn runtime_directive(record: UnifiedActionRecord) -> UnifiedRuntimeDirective {
    match latest_identity_conflict(record.evidence@) {
        Some(conflict) => UnifiedRuntimeDirective::BlockIdentityConflict { proof_ref: conflict.proof_ref },
        None => if evidence_conflicts(record.evidence@) {
            UnifiedRuntimeDirective::BlockConflictingEvidence
        } else if record.attempts@.len() == 0 {
            UnifiedRuntimeDirective::ReadyForPreparation
        } else {
            let ordinal = record.attempts@.last().permit.attempt_ordinal;
            match latest_evidence_for(record.evidence@, ordinal) {
                None => UnifiedRuntimeDirective::Reconcile { ordinal },
                Some(evidence) => match evidence.outcome {
                    UnifiedEffectOutcome::EffectSucceeded => UnifiedRuntimeDirective::CloseSucceeded {
                        ordinal,
                        proof_ref: evidence.proof_ref,
                    },
                    UnifiedEffectOutcome::EffectFailed => UnifiedRuntimeDirective::EvaluateRetry {
                        ordinal,
                        proof_ref: evidence.proof_ref,
                    },
                    UnifiedEffectOutcome::NoEffectConfirmed => UnifiedRuntimeDirective::EvaluateRetry {
                        ordinal,
                        proof_ref: evidence.proof_ref,
                    },
                    UnifiedEffectOutcome::StillUnknown => UnifiedRuntimeDirective::Reconcile { ordinal },
                    UnifiedEffectOutcome::IdentityConflict => {
                        UnifiedRuntimeDirective::BlockIdentityConflict { proof_ref: evidence.proof_ref }
                    },
                },
            }
        }
    }
}

/// Decides what the runtime should do next with the action the record describes.
pub fn plan_directive(record: &UnifiedActionRecord) -> (d: UnifiedRuntimeDirective)
    ensures
        d == runtime_directive(*record),
{
    if let Some(conflict) = record.latest_conflict() {
        return UnifiedRuntimeDirective::BlockIdentityConflict { proof_ref: conflict.proof_ref.clone() };
    }
    if record.has_conflicting_evidence() {
        return UnifiedRuntimeDirective::BlockConflictingEvidence;
    }
    let latest = match record.latest_attempt() {
        Some(latest) => latest,
        None => return UnifiedRuntimeDirective::ReadyForPreparation,
    };
    let ordinal = latest.permit.attempt_ordinal;
    let evidence = match record.latest_evidence(ordinal) {
        Some(evidence) => evidence,
        None => return UnifiedRuntimeDirective::Reconcile { ordinal },
    };
    match evidence.outcome {
        UnifiedEffectOutcome::EffectSucceeded => UnifiedRuntimeDirective::CloseSucceeded {
            ordinal,
            proof_ref: evidence.proof_ref.clone(),
        },
        UnifiedEffectOutcome::EffectFailed | UnifiedEffectOutcome::NoEffectConfirmed => {
            UnifiedRuntimeDirective::EvaluateRetry { ordinal, proof_ref: evidence.proof_ref.clone() }
        },
        UnifiedEffectOutcome::StillUnknown => UnifiedRuntimeDirective::Reconcile { ordinal },
        UnifiedEffectOutcome::IdentityConflict => UnifiedRuntimeDirective::BlockIdentityConflict {
            proof_ref: evidence.proof_ref.clone(),
        },
    }
}


/// The ordinal preparation installs, once the record revision can advance.
pub open spec fn preparation_outcome<E>(
    record: UnifiedActionRecord,
    token: UnifiedFencingToken,
    decision: RetryDecision,
    now: Timestamp,
) -> Result<u32, UnifiedFencedBlock<E>> {
    match preparation_check::<E>(record, token, decision, now) {
        Err(e) => Err(e),
        Ok(ordinal) => if record.revision == u64::MAX {
            Err(UnifiedFencedBlock::RecordRevisionOverflow)
        } else {
            Ok(ordinal)
        },
    }
}

/// Whether recording dispatch succeeds, once the record revision can advance.
pub open spec fn dispatch_outcome<E>(
    record: UnifiedActionRecord,
    token: UnifiedFencingToken,
    permit: FencedAttemptPermit,
    dispatched_at: Timestamp,
    now: Timestamp,
) -> Result<(), UnifiedFencedBlock<E>> {
    match dispatch_check::<E>(record, token, permit, dispatched_at, now) {
        Err(e) => Err(e),
        Ok(_) => if record.revision == u64::MAX {
            Err(UnifiedFencedBlock::RecordRevisionOverflow)
        } else {
            Ok(())
        },
    }
}

/// Whether an action record may be created for `ticket` under `binding` and
/// the operation reference `operation_ref`.
pub open spec fn creation_check<E>(
    ticket: AuthorityTicket,
    binding: IdempotencyBinding,
    operation_ref: Seq<char>,
) -> Result<(), UnifiedFencedBlock<E>> {
    if binding.action_id@ != ticket.action_id@ {
        Err(UnifiedFencedBlock::ActionMismatch)
    } else if blank(binding.key@) {
        Err(UnifiedFencedBlock::Config(UnifiedConfigBlock::EmptyIdempotencyKey))
    } else if blank(operation_ref) {
        Err(UnifiedFencedBlock::Config(UnifiedConfigBlock::EmptyOperationRef))
    } else {
        Ok(())
    }
}

/// `record` is the fresh record of `ticket`'s action: the binding's key, the
/// operation reference, revision zero, no lease and nothing recorded.
pub open spec fn fresh_record(
    record: UnifiedActionRecord,
    ticket: AuthorityTicket,
    binding: IdempotencyBinding,
    operation_ref: Seq<char>,
) -> bool {
    &&& record.binding.action_id == ticket.action_id
    &&& record.binding.idempotency_key == binding.key
    &&& record.binding.operation_ref@ == operation_ref
    &&& record.revision == 0
    &&& record.lease is None
    &&& record.attempts@.len() == 0
    &&& record.evidence@.len() == 0
    &&& record.projections@.len() == 0
}

/// Builds the record a new action starts from: its binding, revision 0, no
/// lease, no attempts, evidence or projections.
pub fn plan_fresh_record(ticket: &AuthorityTicket, binding: &IdempotencyBinding, operation_ref: &str) -> (r:
    UnifiedActionRecord)
    ensures
        fresh_record(r, *ticket, *binding, operation_ref@),
{
    UnifiedActionRecord {
        binding: UnifiedOperationBinding {
            action_id: ticket.action_id.clone(),
            idempotency_key: binding.key.clone(),
            operation_ref: operation_ref.to_owned(),
        },
        revision: 0,
        lease: None,
        attempts: Vec::new(),
        evidence: Vec::new(),
        projections: Vec::new(),
    }
}

/// The evidence references carry, in order, exactly the given proof ids as
/// supported evidence confirmed by the unified store.
pub open spec fn supported_refs(refs: Seq<EvidenceRef>, ids: Seq<Seq<char>>) -> bool {
    &&& refs.len() == ids.len()
    &&& forall|k: int|
        0 <= k < refs.len() ==> {
            &&& (#[trigger] refs[k]).id@ == ids[k]
            &&& refs[k].status == EvidenceStatus::Supported
            &&& refs[k].note@ == "unified fenced store confirmed the external side effect"@
        }
}

/// Storage contract for one action-wide transactional record.
///
/// `compare_and_swap` MUST replace the complete record atomically. Production
/// implementations should use an authoritative store-time or bounded-time
/// mechanism when validating lease expiry; a read-then-write implementation is
/// not sufficient for multi-worker safety.
pub trait UnifiedFencedStore {
    type Error;

    fn load(&self, action_id: &ActionId) -> Result<Option<UnifiedActionRecord>, Self::Error>;

    fn compare_and_swap(
        &self,
        action_id: &ActionId,
        expected_revision: Option<u64>,
        replacement: UnifiedActionRecord,
    ) -> Result<bool, Self::Error>;
}

#[derive(Debug, Clone)]
pub struct UnifiedFencedRuntime<S> {
    store: S,
}

impl<S: UnifiedFencedStore> UnifiedFencedRuntime<S> {
    pub closed spec fn spec_store(&self) -> S {
        self.store
    }

    pub fn new(store: S) -> (runtime: Self)
        ensures
            runtime.spec_store() == store,
    {
        UnifiedFencedRuntime { store }
    }

    pub fn store(&self) -> (s: &S)
        ensures
            *s == self.spec_store(),
    {
        &self.store
    }

    /// Creates the record binding the ticket's action to one idempotency key
    /// and one operation reference, once. What it hands to the store is a
    /// copy of the record `plan_fresh_record` builds, the one it returns.
    pub fn create_action(
        &self,
        ticket: &AuthorityTicket,
        binding: &IdempotencyBinding,
        operation_ref: &str,
    ) -> (r: Result<UnifiedActionRecord, UnifiedFencedBlock<S::Error>>)
        ensures
            match creation_check::<S::Error>(*ticket, *binding, operation_ref@) {
                Err(e) => r == Err::<UnifiedActionRecord, UnifiedFencedBlock<S::Error>>(e),
                Ok(_) => match r {
                    Ok(record) => fresh_record(record, *ticket, *binding, operation_ref@),
                    Err(UnifiedFencedBlock::Store(_)) => true,
                    Err(UnifiedFencedBlock::ActionAlreadyExists) => true,
                    Err(_) => false,
                },
            },
    {
        if binding.action_id != ticket.action_id {
            return Err(UnifiedFencedBlock::ActionMismatch);
        }
        if is_blank(binding.key.as_str()) {
            return Err(UnifiedFencedBlock::Config(UnifiedConfigBlock::EmptyIdempotencyKey));
        }
        if is_blank(operation_ref) {
            return Err(UnifiedFencedBlock::Config(UnifiedConfigBlock::EmptyOperationRef));
        }
        let record = plan_fresh_record(ticket, binding, operation_ref);
        let swapped = match self.store.compare_and_swap(&ticket.action_id, None, record.clone()) {
            Ok(swapped) => swapped,
            Err(e) => return Err(UnifiedFencedBlock::Store(e)),
        };
        if !swapped {
            return Err(UnifiedFencedBlock::ActionAlreadyExists);
        }
        Ok(record)
    }

    /// Loads the record of an action that exists.
    pub fn load(&self, action_id: &ActionId) -> (r: Result<UnifiedActionRecord, UnifiedFencedBlock<S::Error>>)
        ensures
            r matches Err(e) ==> e is Store || e is ActionMissing,
    {
        match self.store.load(action_id) {
            Ok(Some(record)) => Ok(record),
            Ok(None) => Err(UnifiedFencedBlock::ActionMissing),
            Err(e) => Err(UnifiedFencedBlock::Store(e)),
        }
    }

    /// Acquires the action's lease for `owner`: epoch 1 on a fresh record, the
    /// next epoch after an expired lease, refused while the lease is live.
    pub fn acquire(
        &self,
        action_id: &ActionId,
        owner: RecoveryWorkerId,
        now: Timestamp,
        ttl_seconds: i64,
    ) -> (r: Result<UnifiedFencingToken, UnifiedFencedBlock<S::Error>>)
        ensures
            (r matches Err(UnifiedFencedBlock::Config(_))) <==> lease_expiry(now, ttl_seconds) is None,
            r matches Err(UnifiedFencedBlock::Config(c)) ==> c == UnifiedConfigBlock::InvalidTtl,
            match r {
                Ok(token) => {
                    &&& token.action_id == *action_id
                    &&& token.owner == owner
                    &&& exists|loaded: UnifiedActionRecord|
                        acquisition_outcome::<S::Error>(loaded, now) == Ok::<
                            u64,
                            UnifiedFencedBlock<S::Error>,
                        >(token.epoch)
                },
                Err(UnifiedFencedBlock::Store(_)) => true,
                Err(UnifiedFencedBlock::Config(_)) => true,
                Err(UnifiedFencedBlock::ActionMissing) => true,
                Err(UnifiedFencedBlock::Contended) => true,
                Err(e) => exists|loaded: UnifiedActionRecord|
                    acquisition_outcome::<S::Error>(loaded, now) == Err::<
                        u64,
                        UnifiedFencedBlock<S::Error>,
                    >(e),
            },
    {
        let expires_at = match expiry_from(now, ttl_seconds) {
            Ok(t) => t,
            Err(_) => return Err(UnifiedFencedBlock::Config(UnifiedConfigBlock::InvalidTtl)),
        };
        let record = self.load(action_id)?;
        let expected_revision = record.revision;
        let ghost loaded = record;
        let (replacement, epoch) = plan_acquire::<S::Error>(record, owner.clone(), now, expires_at)?;
        assert(acquisition_outcome::<S::Error>(loaded, now) == Ok::<u64, UnifiedFencedBlock<S::Error>>(
            epoch,
        ));
        self.swap(action_id, expected_revision, replacement)?;
        Ok(UnifiedFencingToken { action_id: action_id.clone(), owner, epoch })
    }

    /// Extends the current owner's lease: same epoch, next lease revision.
    pub fn renew(&self, token: &UnifiedFencingToken, now: Timestamp, ttl_seconds: i64) -> (r: Result<
        UnifiedLeaseAuthority,
        UnifiedFencedBlock<S::Error>,
    >)
        ensures
            (r matches Err(UnifiedFencedBlock::Config(_))) <==> lease_expiry(now, ttl_seconds) is None,
            r matches Err(UnifiedFencedBlock::Config(c)) ==> c == UnifiedConfigBlock::InvalidTtl,
            match r {
                Ok(lease) => {
                    &&& lease_expiry(now, ttl_seconds) == Some(lease.expires_at@)
                    &&& exists|loaded: UnifiedActionRecord|
                        #[trigger] renew_transition::<S::Error>(loaded, *token, now, lease.expires_at) matches Ok(
                            (_, renewed),
                        ) && renewed == lease
                },
                Err(UnifiedFencedBlock::Store(_)) => true,
                Err(UnifiedFencedBlock::Config(_)) => true,
                Err(UnifiedFencedBlock::ActionMissing) => true,
                Err(UnifiedFencedBlock::Contended) => true,
                Err(e) => exists|loaded: UnifiedActionRecord, expires_at: Timestamp|
                    renew_transition::<S::Error>(loaded, *token, now, expires_at) == Err::<
                        (UnifiedActionRecord, UnifiedLeaseAuthority),
                        UnifiedFencedBlock<S::Error>,
                    >(e),
            },
    {
        let expires_at = match expiry_from(now, ttl_seconds) {
            Ok(t) => t,
            Err(_) => return Err(UnifiedFencedBlock::Config(UnifiedConfigBlock::InvalidTtl)),
        };
        let record = self.load(&token.action_id)?;
        let expected_revision = record.revision;
        let (replacement, renewed) = plan_renew::<S::Error>(record, token, now, expires_at)?;
        self.swap(&token.action_id, expected_revision, replacement)?;
        Ok(renewed)
    }

    /// Prepares the next attempt under a current token on the authority of a
    /// retry decision, and returns its permit.
    pub fn prepare_attempt(
        &self,
        token: &UnifiedFencingToken,
        decision: &RetryDecision,
        prepared_at: Timestamp,
        now: Timestamp,
    ) -> (r: Result<FencedAttemptPermit, UnifiedFencedBlock<S::Error>>)
        ensures
            match r {
                Ok(permit) => exists|loaded: UnifiedActionRecord|
                    #[trigger] preparation_outcome::<S::Error>(loaded, *token, *decision, now) == Ok::<
                        u32,
                        UnifiedFencedBlock<S::Error>,
                    >(permit.attempt_ordinal) && permit == prepared_permit(
                        loaded,
                        *token,
                        permit.attempt_ordinal,
                    ),
                Err(UnifiedFencedBlock::Store(_)) => true,
                Err(UnifiedFencedBlock::ActionMissing) => true,
                Err(UnifiedFencedBlock::Contended) => true,
                Err(e) => exists|loaded: UnifiedActionRecord|
                    preparation_outcome::<S::Error>(loaded, *token, *decision, now) == Err::<
                        u32,
                        UnifiedFencedBlock<S::Error>,
                    >(e),
            },
    {
        let record = self.load(&token.action_id)?;
        let expected_revision = record.revision;
        let ghost loaded = record;
        let (replacement, permit) = plan_prepare::<S::Error>(record, token, decision, prepared_at, now)?;
        assert(preparation_outcome::<S::Error>(loaded, *token, *decision, now) == Ok::<
            u32,
            UnifiedFencedBlock<S::Error>,
        >(permit.attempt_ordinal));
        assert(permit == prepared_permit(loaded, *token, permit.attempt_ordinal));
        self.swap(&token.action_id, expected_revision, replacement)?;
        Ok(permit)
    }

    /// Records that the prepared attempt of `permit` was dispatched.
    pub fn record_dispatch(
        &self,
        token: &UnifiedFencingToken,
        permit: &FencedAttemptPermit,
        dispatched_at: Timestamp,
        proof_ref: &str,
        now: Timestamp,
    ) -> (r: Result<(), UnifiedFencedBlock<S::Error>>)
        ensures
            (r matches Err(UnifiedFencedBlock::EmptyProof)) <==> blank(proof_ref@),
            match r {
                Ok(_) => exists|loaded: UnifiedActionRecord|
                    dispatch_outcome::<S::Error>(loaded, *token, *permit, dispatched_at, now) is Ok,
                Err(UnifiedFencedBlock::Store(_)) => true,
                Err(UnifiedFencedBlock::ActionMissing) => true,
                Err(UnifiedFencedBlock::Contended) => true,
                Err(UnifiedFencedBlock::EmptyProof) => true,
                Err(e) => exists|loaded: UnifiedActionRecord|
                    dispatch_outcome::<S::Error>(loaded, *token, *permit, dispatched_at, now) == Err::<
                        (),
                        UnifiedFencedBlock<S::Error>,
                    >(e),
            },
    {
        if is_blank(proof_ref) {
            return Err(UnifiedFencedBlock::EmptyProof);
        }
        let record = self.load(&token.action_id)?;
        let expected_revision = record.revision;
        let ghost loaded = record;
        let replacement = plan_dispatch::<S::Error>(
            record,
            token,
            permit,
            dispatched_at,
            proof_ref.to_owned(),
            now,
        )?;
        assert(dispatch_outcome::<S::Error>(loaded, *token, *permit, dispatched_at, now) is Ok);
        self.swap(&token.action_id, expected_revision, replacement)
    }

    /// Admits externally produced evidence without requiring the producing worker
    /// to still own the current lease. Evidence about a past valid epoch is not
    /// execution authority for a future action.
    pub fn record_actuator_receipt(&self, receipt: &FencedActuatorReceipt) -> (r: Result<
        UnifiedEvidenceCommit,
        UnifiedFencedBlock<S::Error>,
    >)
        ensures
            (r matches Err(UnifiedFencedBlock::EmptyProof)) <==> blank(receipt.proof_ref@),
            match r {
                Ok(commit) => exists|loaded: UnifiedActionRecord|
                    receipt_commit::<S::Error>(loaded, *receipt) == Ok::<
                        UnifiedEvidenceCommit,
                        UnifiedFencedBlock<S::Error>,
                    >(commit),
                Err(UnifiedFencedBlock::Store(_)) => true,
                Err(UnifiedFencedBlock::ActionMissing) => true,
                Err(UnifiedFencedBlock::Contended) => true,
                Err(UnifiedFencedBlock::EmptyProof) => true,
                Err(e) => exists|loaded: UnifiedActionRecord|
                    receipt_commit::<S::Error>(loaded, *receipt) == Err::<
                        UnifiedEvidenceCommit,
                        UnifiedFencedBlock<S::Error>,
                    >(e),
            },
    {
        if is_blank(receipt.proof_ref.as_str()) {
            return Err(UnifiedFencedBlock::EmptyProof);
        }
        let record = self.load(&receipt.request.action_id)?;
        let expected_revision = record.revision;
        let (replacement, commit) = plan_receipt::<S::Error>(record, receipt)?;
        if let Some(replacement) = replacement {
            self.swap(&receipt.request.action_id, expected_revision, replacement)?;
        }
        Ok(commit)
    }

    /// Admits reconciliation evidence about a prepared attempt.
    pub fn record_reconciliation(&self, observation: &UnifiedReconciliationObservation) -> (r: Result<
        UnifiedEvidenceCommit,
        UnifiedFencedBlock<S::Error>,
    >)
        ensures
            (r matches Err(UnifiedFencedBlock::EmptyProof)) <==> blank(observation.proof_ref@),
            match r {
                Ok(commit) => exists|loaded: UnifiedActionRecord|
                    observation_commit::<S::Error>(loaded, *observation) == Ok::<
                        UnifiedEvidenceCommit,
                        UnifiedFencedBlock<S::Error>,
                    >(commit),
                Err(UnifiedFencedBlock::Store(_)) => true,
                Err(UnifiedFencedBlock::ActionMissing) => true,
                Err(UnifiedFencedBlock::Contended) => true,
                Err(UnifiedFencedBlock::EmptyProof) => true,
                Err(e) => exists|loaded: UnifiedActionRecord|
                    observation_commit::<S::Error>(loaded, *observation) == Err::<
                        UnifiedEvidenceCommit,
                        UnifiedFencedBlock<S::Error>,
                    >(e),
            },
    {
        if is_blank(observation.proof_ref.as_str()) {
            return Err(UnifiedFencedBlock::EmptyProof);
        }
        let record = self.load(&observation.action_id)?;
        let expected_revision = record.revision;
        let (replacement, commit) = plan_reconciliation::<S::Error>(record, observation)?;
        if let Some(replacement) = replacement {
            self.swap(&observation.action_id, expected_revision, replacement)?;
        }
        Ok(commit)
    }

    /// What the runtime should do next with the action.
    pub fn directive(&self, action_id: &ActionId) -> (r: Result<
        UnifiedRuntimeDirective,
        UnifiedFencedBlock<S::Error>,
    >)
        ensures
            match r {
                Ok(d) => exists|loaded: UnifiedActionRecord| runtime_directive(loaded) == d,
                Err(e) => e is Store || e is ActionMissing,
            },
    {
        let record = self.load(action_id)?;
        Ok(plan_directive(&record))
    }

    /// The supported evidence that projected success markers stand for.
    pub fn projected_supported_evidence(&self, action_id: &ActionId) -> (r: Result<
        Vec<EvidenceRef>,
        UnifiedFencedBlock<S::Error>,
    >)
        ensures
            match r {
                Ok(refs) => exists|loaded: UnifiedActionRecord|
                    supported_refs(refs@, projected_proofs(loaded.projections@, loaded.evidence@)),
                Err(e) => e is Store || e is ActionMissing,
            },
    {
        let record = self.load(action_id)?;
        Ok(record.projected_supported_evidence())
    }

    fn swap(&self, action_id: &ActionId, expected_revision: u64, replacement: UnifiedActionRecord) -> (r:
        Result<(), UnifiedFencedBlock<S::Error>>)
        ensures
            r matches Err(e) ==> e is Store || e is Contended,
    {
        let swapped = match self.store.compare_and_swap(action_id, Some(expected_revision), replacement) {
            Ok(swapped) => swapped,
            Err(e) => return Err(UnifiedFencedBlock::Store(e)),
        };
        if !swapped {
            return Err(UnifiedFencedBlock::Contended);
        }
        Ok(())
    }
}

/// Two optional records are both absent or hold the same record.
pub open spec fn same_optional_record(a: Option<UnifiedActionRecord>, b: Option<UnifiedActionRecord>) -> bool {
    match (a, b) {
        (Some(x), Some(y)) => same_unified_record(x, y),
        (None, None) => true,
        _ => false,
    }
}

/// The revision of the record a table holds for `key`, if any.
pub open spec fn held_revision(table: KeyedTable<UnifiedActionRecord>, key: Seq<char>) -> Option<u64> {
    match table.lookup(key) {
        Some(record) => Some(record.revision),
        None => None,
    }
}

/// Reads a copy of the record a table holds for `action_id`.
pub fn record_lookup(table: &KeyedTable<UnifiedActionRecord>, action_id: &ActionId) -> (r: Option<
    UnifiedActionRecord,
>)
    ensures
        same_optional_record(r, table.lookup(action_id@)),
{
    match table.get(action_id) {
        Some(record) => Some(record.clone()),
        None => None,
    }
}

/// Atomic compare-and-swap on a record table: installs `replacement` for
/// `action_id` exactly when the held revision equals `expected_revision`.
pub fn record_compare_and_swap(
    table: KeyedTable<UnifiedActionRecord>,
    action_id: &ActionId,
    expected_revision: Option<u64>,
    replacement: UnifiedActionRecord,
) -> (r: (KeyedTable<UnifiedActionRecord>, bool))
    ensures
        r.1 == (held_revision(table, action_id@) == expected_revision),
        r.1 ==> r.0.lookup(action_id@) == Some(replacement) && forall|q: Seq<char>|
            q != action_id@ ==> r.0.lookup(q) == table.lookup(q),
        !r.1 ==> r.0 == table,
{
    let current = match table.get(action_id) {
        Some(record) => Some(record.revision),
        None => None,
    };
    if current != expected_revision {
        return (table, false);
    }
    let mut table = table;
    table.insert(action_id.clone(), replacement);
    (table, true)
}

/// How a compare-and-swap of `action_id` against `expected_revision` leaves a
/// record table: it answers whether the held revision equals
/// `expected_revision`, and exactly then installs `replacement` for
/// `action_id`, leaving every other action as it was.
pub open spec fn record_swap_outcome(
    before: KeyedTable<UnifiedActionRecord>,
    after: KeyedTable<UnifiedActionRecord>,
    action_id: Seq<char>,
    expected_revision: Option<u64>,
    replacement: UnifiedActionRecord,
    swapped: bool,
) -> bool {
    &&& swapped == (held_revision(before, action_id) == expected_revision)
    &&& forall|q: Seq<char>| #[trigger] after.lookup(q) == if swapped && q == action_id {
        Some(replacement)
    } else {
        before.lookup(q)
    }
}

/// Some table, swapped as `record_swap_outcome` says, gave the answer
/// `swapped`.
pub open spec fn record_swap_happened(
    action_id: Seq<char>,
    expected_revision: Option<u64>,
    replacement: UnifiedActionRecord,
    swapped: bool,
) -> bool {
    exists|before: KeyedTable<UnifiedActionRecord>, after: KeyedTable<UnifiedActionRecord>|
        #[trigger] record_swap_outcome(before, after, action_id, expected_revision, replacement, swapped)
}

/// Reads a copy of the record the locked table holds for `action_id`,
/// leaving the table as it is.
pub fn load_locked<'a>(locked: &LockedState<'a, KeyedTable<UnifiedActionRecord>>, action_id: &ActionId) -> (r:
    Option<UnifiedActionRecord>)
    ensures
        same_optional_record(r, locked.held().lookup(action_id@)),
{
    record_lookup(held_state(locked), action_id)
}

/// Compares and swaps the record of `action_id` in the locked table.
pub fn swap_locked<'a>(
    locked: &mut LockedState<'a, KeyedTable<UnifiedActionRecord>>,
    action_id: &ActionId,
    expected_revision: Option<u64>,
    replacement: UnifiedActionRecord,
) -> (swapped: bool)
    ensures
        record_swap_outcome(
            old(locked).held(),
            final(locked).held(),
            action_id@,
            expected_revision,
            replacement,
            swapped,
        ),
{
    let ghost replaced = replacement;
    let mut table = KeyedTable::new();
    std::mem::swap(held_state_mut(locked), &mut table);
    let (mut next, swapped) = record_compare_and_swap(table, action_id, expected_revision, replacement);
    assert forall|q: Seq<char>| #[trigger] next.lookup(q) == if swapped && q == action_id@ {
        Some(replaced)
    } else {
        table.lookup(q)
    } by {}
    std::mem::swap(held_state_mut(locked), &mut next);
    swapped
}

/// Process-local atomic reference implementation.
///
/// All fields for one action are compared and replaced under one mutex. This is
/// intentionally a test/example store, not a distributed production backend.
#[derive(Debug, Clone)]
pub struct InMemoryUnifiedFencedStore {
    inner: Arc<Mutex<KeyedTable<UnifiedActionRecord>>>,
}

impl Default for InMemoryUnifiedFencedStore {
    fn default() -> Self {
        InMemoryUnifiedFencedStore { inner: new_shared(KeyedTable::new()) }
    }
}

#[derive(Debug, Clone, Copy, PartialEq, Eq, Structural)]
pub enum InMemoryUnifiedStoreError {
    Poisoned,
    LockBusy,
}

impl UnifiedFencedStore for InMemoryUnifiedFencedStore {
    type Error = InMemoryUnifiedStoreError;

    fn load(&self, action_id: &ActionId) -> (r: Result<Option<UnifiedActionRecord>, InMemoryUnifiedStoreError>)
        ensures
            r matches Ok(v) ==> exists|t: KeyedTable<UnifiedActionRecord>|
                same_optional_record(v, t.lookup(action_id@)),
    {
        let locked = match lock_state(&self.inner) {
            Ok(locked) => locked,
            Err(LockFailure::Poisoned) => return Err(InMemoryUnifiedStoreError::Poisoned),
            Err(LockFailure::Busy) => return Err(InMemoryUnifiedStoreError::LockBusy),
        };
        Ok(load_locked(&locked, action_id))
    }

    fn compare_and_swap(
        &self,
        action_id: &ActionId,
        expected_revision: Option<u64>,
        replacement: UnifiedActionRecord,
    ) -> (r: Result<bool, InMemoryUnifiedStoreError>)
        ensures
            r matches Ok(swapped) ==> record_swap_happened(action_id@, expected_revision, replacement, swapped),
    {
        let mut locked = match lock_state(&self.inner) {
            Ok(locked) => locked,
            Err(LockFailure::Poisoned) => return Err(InMemoryUnifiedStoreError::Poisoned),
            Err(LockFailure::Busy) => return Err(InMemoryUnifiedStoreError::LockBusy),
        };
        let ghost before = locked.held();
        let ghost replaced = replacement;
        let swapped = swap_locked(&mut locked, action_id, expected_revision, replacement);
        assert(record_swap_outcome(before, locked.held(), action_id@, expected_revision, replaced, swapped));
        Ok(swapped)
    }
}

/// A takeover installs the epoch after the expired lease it replaces, and the
/// replaced worker's token is then refused as stale.
pub proof fn law_takeover_stales_previous_token<E>(
    record: UnifiedActionRecord,
    owner: RecoveryWorkerId,
    now: Timestamp,
    expires_at: Timestamp,
    token: UnifiedFencingToken,
    later: Timestamp,
)
    requires
        acquire_transition::<E>(record, owner, now, expires_at) is Ok,
        record.lease is Some,
        token.action_id@ == record.binding.action_id@,
        token.epoch == record.lease->0.epoch,
    ensures
        ({
            let (next, epoch) = acquire_transition::<E>(record, owner, now, expires_at)->Ok_0;
            &&& record.lease->0.expires_at@ <= now@
            &&& epoch == record.lease->0.epoch + 1
            &&& next.revision == record.revision + 1
            &&& lease_check::<E>(next, token, later) == Err::<
                UnifiedLeaseAuthority,
                UnifiedFencedBlock<E>,
            >(UnifiedFencedBlock::StaleFence { presented_epoch: token.epoch, current_epoch: epoch })
        }),
{
}

/// Whether a receipt is admitted as evidence does not depend on who holds
/// the lease now: a late receipt from a fenced-off worker is still evidence.
pub proof fn law_receipt_identity_ignores_lease<E>(
    record: UnifiedActionRecord,
    receipt: FencedActuatorReceipt,
    lease: Option<UnifiedLeaseAuthority>,
)
    ensures
        receipt_identity_check::<E>(record, receipt) == receipt_identity_check::<E>(
            UnifiedActionRecord { lease, ..record },
            receipt,
        ),
{
}

/// Recording evidence that is already held, with the same proof and content,
/// is a duplicate: the record's revision stays where it is.
pub proof fn law_repeated_evidence_is_idempotent<E>(
    record: UnifiedActionRecord,
    evidence: UnifiedEffectEvidence,
)
    requires
        evidence_admission::<E>(record, evidence) is Ok,
        first_with_proof(record.evidence@, evidence.proof_ref@) is Some,
    ensures
        evidence_commit::<E>(record, evidence) matches Ok(commit) && commit.duplicate
            && commit.record_revision == record.revision,
{
}

/// Any identity-conflict evidence blocks the action, whatever else was
/// observed.
pub proof fn law_identity_conflict_blocks(record: UnifiedActionRecord)
    requires
        latest_identity_conflict(record.evidence@) is Some,
    ensures
        runtime_directive(record) is BlockIdentityConflict,
{
}

/// A retry is only ever considered for the latest attempt when its latest
/// evidence confirms failure or absence of the effect; an attempt without
/// evidence, or whose latest evidence is still unknown, is reconciled.
pub proof fn law_retry_needs_terminal_failure(record: UnifiedActionRecord)
    ensures
        runtime_directive(record) is EvaluateRetry ==> ({
            &&& record.attempts@.len() > 0
            &&& latest_evidence_for(record.evidence@, record.attempts@.last().permit.attempt_ordinal)
                matches Some(evidence)
            &&& (evidence.outcome == UnifiedEffectOutcome::EffectFailed || evidence.outcome
                == UnifiedEffectOutcome::NoEffectConfirmed)
        }),
        record.attempts@.len() > 0 && latest_identity_conflict(record.evidence@) is None
            && !evidence_conflicts(record.evidence@) && (latest_evidence_for(
            record.evidence@,
            record.attempts@.last().permit.attempt_ordinal,
        ) is None || latest_evidence_for(
            record.evidence@,
            record.attempts@.last().permit.attempt_ordinal,
        )->0.outcome == UnifiedEffectOutcome::StillUnknown) ==> runtime_directive(record) is Reconcile,
{
}

/// The evidence a reconciliation observation contributes carries the outcome
/// the observation reports, no more and no less certain: still unknown stays
/// still unknown, and success, failure and absence of effect are each kept as
/// such; it is never an identity conflict, and it keeps the observation's
/// attempt, time and proof.
pub proof fn law_observation_evidence_reports_its_outcome(observation: UnifiedReconciliationObservation)
    ensures
        (observation_evidence(observation).outcome == UnifiedEffectOutcome::StillUnknown) <==> (
        observation.outcome == ReconciliationOutcome::StillUnknown),
        (observation_evidence(observation).outcome == UnifiedEffectOutcome::EffectSucceeded) <==> (
        observation.outcome == ReconciliationOutcome::EffectSucceeded),
        (observation_evidence(observation).outcome == UnifiedEffectOutcome::EffectFailed) <==> (
        observation.outcome == ReconciliationOutcome::EffectFailed),
        (observation_evidence(observation).outcome == UnifiedEffectOutcome::NoEffectConfirmed) <==> (
        observation.outcome == ReconciliationOutcome::NoEffectConfirmed),
        observation_evidence(observation).outcome != UnifiedEffectOutcome::IdentityConflict,
        observation_evidence(observation).attempt_ordinal == observation.attempt_ordinal,
        observation_evidence(observation).observed_at == observation.observed_at,
        observation_evidence(observation).proof_ref == observation.proof_ref,
        observation_evidence(observation).source == UnifiedEvidenceSource::Reconciliation,
{
}

/// When the latest evidence about the latest attempt is what a still-unknown
/// reconciliation contributed (and no conflict blocks the action), the
/// runtime is directed to reconcile that attempt again, never to retry it.
pub proof fn law_unknown_reconciliation_keeps_reconciling(
    record: UnifiedActionRecord,
    observation: UnifiedReconciliationObservation,
)
    requires
        latest_identity_conflict(record.evidence@) is None,
        !evidence_conflicts(record.evidence@),
        record.attempts@.len() > 0,
        latest_evidence_for(record.evidence@, record.attempts@.last().permit.attempt_ordinal) == Some(
            observation_evidence(observation),
        ),
        observation.outcome == ReconciliationOutcome::StillUnknown,
    ensures
        runtime_directive(record) == (UnifiedRuntimeDirective::Reconcile {
            ordinal: record.attempts@.last().permit.attempt_ordinal,
        }),
{
}

/// The runtime is directed to evaluate a retry only when the latest evidence
/// about the latest attempt confirms failure or absence of the effect, and
/// the retry carries that evidence's proof; it closes as succeeded only on
/// evidence that confirms the effect.
pub proof fn law_retry_and_close_follow_settled_evidence(record: UnifiedActionRecord)
    ensures
        runtime_directive(record) matches UnifiedRuntimeDirective::EvaluateRetry { ordinal, proof_ref }
            ==> {
            &&& record.attempts@.len() > 0
            &&& ordinal == record.attempts@.last().permit.attempt_ordinal
            &&& latest_evidence_for(record.evidence@, ordinal) is Some
            &&& (latest_evidence_for(record.evidence@, ordinal)->0.outcome
                == UnifiedEffectOutcome::EffectFailed || latest_evidence_for(record.evidence@, ordinal)->0.outcome
                == UnifiedEffectOutcome::NoEffectConfirmed)
            &&& latest_evidence_for(record.evidence@, ordinal)->0.proof_ref == proof_ref
        },
        runtime_directive(record) matches UnifiedRuntimeDirective::CloseSucceeded { ordinal, proof_ref }
            ==> {
            &&& record.attempts@.len() > 0
            &&& ordinal == record.attempts@.last().permit.attempt_ordinal
            &&& latest_evidence_for(record.evidence@, ordinal) is Some
            &&& latest_evidence_for(record.evidence@, ordinal)->0.outcome
                == UnifiedEffectOutcome::EffectSucceeded
            &&& latest_evidence_for(record.evidence@, ordinal)->0.proof_ref == proof_ref
        },
{
}

} // verus!
