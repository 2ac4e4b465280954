//! Fenced side effects: a provider-facing request carries the fencing epoch
//! and a stable operation identity, the downstream authority compares the
//! epoch and applies the effect in one step, and the controller only accepts a
//! receipt that echoes exactly the request it sent.
use std::sync::Arc;
use std::sync::Mutex;

use vstd::prelude::*;
use vstd::string::StringExecFns;

use crate::execution_receipt::ActionId;
use crate::keyed_table::KeyedTable;
use crate::primitives::Timestamp;
use crate::recovery_lease::{FencedAttemptPermit, RecoveryWorkerId};
use crate::shared_state::{held_state, lock_state, new_shared, put_held, take_held, LockFailure, LockedState};
use crate::text::{blank, decimal, decimal_text, is_blank, same_text};

verus! {

/// Provider-facing request for one side effect under a fencing epoch.
///
/// `operation_ref` must remain stable for the lifetime of the logical action.
/// It can be a digest, immutable command ID, canonical payload reference, or
/// another provider-specific identity that prevents a newer worker from changing
/// the meaning of an existing `ActionId`.
#[derive(Debug, PartialEq, Eq)]
pub struct FencedActuatorRequest {
    pub action_id: ActionId,
    pub owner: RecoveryWorkerId,
    pub fencing_epoch: u64,
    pub attempt_ordinal: u32,
    pub idempotency_key: String,
    pub operation_ref: String,
}

impl Clone for FencedActuatorRequest {
    fn clone(&self) -> (r: Self)
        ensures
            r == *self,
    {
        FencedActuatorRequest {
            action_id: self.action_id.clone(),
            owner: self.owner.clone(),
            fencing_epoch: self.fencing_epoch,
            attempt_ordinal: self.attempt_ordinal,
            idempotency_key: self.idempotency_key.clone(),
            operation_ref: self.operation_ref.clone(),
        }
    }
}

/// Two requests carry the same identity, epoch, ordinal and operation.
pub open spec fn same_actuator_request(a: FencedActuatorRequest, b: FencedActuatorRequest) -> bool {
    &&& a.action_id@ == b.action_id@
    &&& a.owner@ == b.owner@
    &&& a.fencing_epoch == b.fencing_epoch
    &&& a.attempt_ordinal == b.attempt_ordinal
    &&& a.idempotency_key@ == b.idempotency_key@
    &&& a.operation_ref@ == b.operation_ref@
}

/// Whether two requests carry the same identity, epoch, ordinal and operation.
pub fn actuator_requests_match(a: &FencedActuatorRequest, b: &FencedActuatorRequest) -> (r: bool)
    ensures
        r == same_actuator_request(*a, *b),
{
    a.action_id == b.action_id && a.owner == b.owner && a.fencing_epoch == b.fencing_epoch
        && a.attempt_ordinal == b.attempt_ordinal && same_text(
        &a.idempotency_key,
        &b.idempotency_key,
    ) && same_text(&a.operation_ref, &b.operation_ref)
}

impl FencedActuatorRequest {
    pub fn from_permit(permit: &FencedAttemptPermit, operation_ref: &str) -> (r: Result<
        Self,
        FencedActuatorConfigBlock,
    >)
        ensures
            match r {
                Ok(request) => {
                    &&& !blank(operation_ref@)
                    &&& request.action_id == permit.action_id
                    &&& request.owner == permit.owner
                    &&& request.fencing_epoch == permit.fencing_epoch
                    &&& request.attempt_ordinal == permit.attempt_ordinal
                    &&& request.idempotency_key == permit.idempotency_key
                    &&& request.operation_ref@ == operation_ref@
                },
                Err(e) => blank(operation_ref@) && e == FencedActuatorConfigBlock::EmptyOperationRef,
            },
    {
        if is_blank(operation_ref) {
            return Err(FencedActuatorConfigBlock::EmptyOperationRef);
        }
        Ok(
            FencedActuatorRequest {
                action_id: permit.action_id.clone(),
                owner: permit.owner.clone(),
                fencing_epoch: permit.fencing_epoch,
                attempt_ordinal: permit.attempt_ordinal,
                idempotency_key: permit.idempotency_key.clone(),
                operation_ref: operation_ref.to_owned(),
            },
        )
    }
}

#[derive(Debug, Clone, Copy, PartialEq, Eq, Structural)]
pub enum FencedActuatorRejection {
    StaleEpoch { current_epoch: u64 },
    FutureEpoch { current_epoch: u64 },
    WrongOwner,
    LeaseExpired { current_epoch: u64 },
    IdentityConflict,
}

#[derive(Debug, Clone, Copy, PartialEq, Eq, Structural)]
pub enum FencedActuatorOutcome {
    /// This request atomically passed the downstream fence and applied the effect.
    Applied,
    /// The same logical effect was already applied; this request did not apply it again.
    AlreadyApplied { applied_epoch: u64, applied_attempt_ordinal: u32 },
    /// The downstream authority rejected this request before applying the effect.
    Rejected(FencedActuatorRejection),
}

/// Inspectable downstream evidence returned by a fenced actuator.
#[derive(Debug, PartialEq, Eq)]
pub struct FencedActuatorReceipt {
    pub request: FencedActuatorRequest,
    pub observed_at: Timestamp,
    pub outcome: FencedActuatorOutcome,
    pub proof_ref: String,
}

impl Clone for FencedActuatorReceipt {
    fn clone(&self) -> (r: Self)
        ensures
            r == *self,
    {
        FencedActuatorReceipt {
            request: self.request.clone(),
            observed_at: self.observed_at,
            outcome: self.outcome,
            proof_ref: self.proof_ref.clone(),
        }
    }
}

#[derive(Debug, Clone, Copy, PartialEq, Eq, Structural)]
pub enum FencedActuatorConfigBlock {
    EmptyOperationRef,
}

#[derive(Debug, Clone, PartialEq, Eq)]
pub enum FencedActuatorError<E> {
    Config(FencedActuatorConfigBlock),
    Adapter(E),
    ReceiptIdentityMismatch,
    EmptyProof,
}

impl<E> From<FencedActuatorConfigBlock> for FencedActuatorError<E> {
    fn from(value: FencedActuatorConfigBlock) -> (r: Self) {
        FencedActuatorError::Config(value)
    }
}

impl<E> vstd::std_specs::convert::FromSpecImpl<FencedActuatorConfigBlock> for FencedActuatorError<E> {
    open spec fn obeys_from_spec() -> bool {
        true
    }

    open spec fn from_spec(v: FencedActuatorConfigBlock) -> Self {
        FencedActuatorError::Config(v)
    }
}

/// Downstream side-effect boundary that enforces fencing.
///
/// Implementations MUST make the authoritative fence comparison and the side
/// effect one atomic operation (or use an external primitive with equivalent
/// semantics). A read-current-epoch call followed by a separate side effect is
/// still vulnerable to TOCTOU races and does not satisfy this contract.
pub trait FencedActuatorAdapter {
    type Error;

    fn execute(&self, request: &FencedActuatorRequest) -> Result<FencedActuatorReceipt, Self::Error>;
}

/// Accepts an actuator receipt only when it echoes exactly the request sent and
/// carries a non-blank proof reference.
pub fn check_actuator_receipt<E>(
    request: &FencedActuatorRequest,
    receipt: FencedActuatorReceipt,
) -> (r: Result<FencedActuatorReceipt, FencedActuatorError<E>>)
    ensures
        r == if !same_actuator_request(receipt.request, *request) {
            Err(FencedActuatorError::<E>::ReceiptIdentityMismatch)
        } else if blank(receipt.proof_ref@) {
            Err(FencedActuatorError::<E>::EmptyProof)
        } else {
            Ok(receipt)
        },
{
    if !actuator_requests_match(&receipt.request, request) {
        return Err(FencedActuatorError::ReceiptIdentityMismatch);
    }
    if is_blank(receipt.proof_ref.as_str()) {
        return Err(FencedActuatorError::EmptyProof);
    }
    Ok(receipt)
}

/// Provider-neutral controller that binds a local fenced permit to a stable
/// operation identity and validates the returned receipt.
///
/// It deliberately does not turn an actuator receipt into a local
/// `DispatchReceipt`. Network dispatch evidence and downstream effect evidence
/// remain separate proof boundaries.
#[derive(Debug, Clone, Copy, Default, PartialEq, Eq)]
pub struct FencedActuatorController;

impl FencedActuatorController {
    pub fn execute<A: FencedActuatorAdapter>(
        &self,
        permit: &FencedAttemptPermit,
        operation_ref: &str,
        actuator: &A,
    ) -> (r: Result<FencedActuatorReceipt, FencedActuatorError<A::Error>>)
        ensures
            (r matches Err(FencedActuatorError::Config(c))) <==> blank(operation_ref@),
            r matches Err(FencedActuatorError::Config(c)) ==> c
                == FencedActuatorConfigBlock::EmptyOperationRef,
            r matches Ok(receipt) ==> {
                &&& receipt.request.action_id@ == permit.action_id@
                &&& receipt.request.owner@ == permit.owner@
                &&& receipt.request.fencing_epoch == permit.fencing_epoch
                &&& receipt.request.attempt_ordinal == permit.attempt_ordinal
                &&& receipt.request.idempotency_key@ == permit.idempotency_key@
                &&& receipt.request.operation_ref@ == operation_ref@
                &&& !blank(receipt.proof_ref@)
            },
    {
        let request = match FencedActuatorRequest::from_permit(permit, operation_ref) {
            Ok(request) => request,
            Err(c) => return Err(FencedActuatorError::Config(c)),
        };
        let receipt = match actuator.execute(&request) {
            Ok(receipt) => receipt,
            Err(e) => return Err(FencedActuatorError::Adapter(e)),
        };
        check_actuator_receipt(&request, receipt)
    }
}

/// Authoritative fencing state used by the process-local actuator below.
#[derive(Debug, PartialEq, Eq)]
pub struct InMemoryActuatorAuthority {
    pub action_id: ActionId,
    pub owner: RecoveryWorkerId,
    pub epoch: u64,
    pub expires_at: Timestamp,
}

impl Clone for InMemoryActuatorAuthority {
    fn clone(&self) -> (r: Self)
        ensures
            r == *self,
    {
        InMemoryActuatorAuthority {
            action_id: self.action_id.clone(),
            owner: self.owner.clone(),
            epoch: self.epoch,
            expires_at: self.expires_at,
        }
    }
}

#[derive(Debug, PartialEq, Eq)]
pub struct InMemoryAppliedEffect {
    pub action_id: ActionId,
    pub idempotency_key: String,
    pub operation_ref: String,
    pub applied_epoch: u64,
    pub applied_attempt_ordinal: u32,
}

impl Clone for InMemoryAppliedEffect {
    fn clone(&self) -> (r: Self)
        ensures
            r == *self,
    {
        InMemoryAppliedEffect {
            action_id: self.action_id.clone(),
            idempotency_key: self.idempotency_key.clone(),
            operation_ref: self.operation_ref.clone(),
            applied_epoch: self.applied_epoch,
            applied_attempt_ordinal: self.applied_attempt_ordinal,
        }
    }
}

#[derive(Debug, Clone, Copy, PartialEq, Eq, Structural)]
pub enum InMemoryFencedActuatorError {
    Poisoned,
    LockBusy,
    AuthorityMissing,
    AuthorityRegression,
    ConflictingOwnerAtSameEpoch,
}

/// What the downstream fence answers a request: stale, future, foreign-owner
/// and expired requests are rejected; an existing effect is reported (or a
/// changed operation identity rejected) instead of applied again; otherwise
/// the effect is applied.
pub open spec fn fence_outcome(
    authority: InMemoryActuatorAuthority,
    now: Timestamp,
    existing: Option<InMemoryAppliedEffect>,
    request: FencedActuatorRequest,
) -> FencedActuatorOutcome {
    if request.fencing_epoch < authority.epoch {
        FencedActuatorOutcome::Rejected(
            FencedActuatorRejection::StaleEpoch { current_epoch: authority.epoch },
        )
    } else if request.fencing_epoch > authority.epoch {
        FencedActuatorOutcome::Rejected(
            FencedActuatorRejection::FutureEpoch { current_epoch: authority.epoch },
        )
    } else if request.owner@ != authority.owner@ {
        FencedActuatorOutcome::Rejected(FencedActuatorRejection::WrongOwner)
    } else if authority.expires_at@ <= now@ {
        FencedActuatorOutcome::Rejected(
            FencedActuatorRejection::LeaseExpired { current_epoch: authority.epoch },
        )
    } else {
        match existing {
            Some(effect) => if effect.idempotency_key@ != request.idempotency_key@
                || effect.operation_ref@ != request.operation_ref@ {
                FencedActuatorOutcome::Rejected(FencedActuatorRejection::IdentityConflict)
            } else {
                FencedActuatorOutcome::AlreadyApplied {
                    applied_epoch: effect.applied_epoch,
                    applied_attempt_ordinal: effect.applied_attempt_ordinal,
                }
            },
            None => FencedActuatorOutcome::Applied,
        }
    }
}

/// The proof reference the in-memory actuator writes for its `sequence`-th answer.
pub open spec fn actuator_proof_text(action: Seq<char>, sequence: u64) -> Seq<char> {
    "proof:in-memory-fenced-actuator:"@ + action + ":"@ + decimal(sequence as nat)
}

/// The effect a request that passed the fence records.
pub open spec fn effect_of(request: FencedActuatorRequest, effect: InMemoryAppliedEffect) -> bool {
    &&& effect.action_id == request.action_id
    &&& effect.idempotency_key == request.idempotency_key
    &&& effect.operation_ref == request.operation_ref
    &&& effect.applied_epoch == request.fencing_epoch
    &&& effect.applied_attempt_ordinal == request.attempt_ordinal
}

/// Complete state of the in-memory fenced actuator.
#[derive(Debug, Clone)]
pub struct InMemoryFencedActuatorState {
    pub now: Timestamp,
    pub authorities: KeyedTable<InMemoryActuatorAuthority>,
    pub effects: KeyedTable<InMemoryAppliedEffect>,
    pub proof_sequence: u64,
}

/// Whether installing `authority` is refused: an older epoch than the one held,
/// or another owner at the same epoch.
pub open spec fn installation_refusal(
    current: Option<InMemoryActuatorAuthority>,
    authority: InMemoryActuatorAuthority,
) -> Option<InMemoryFencedActuatorError> {
    match current {
        Some(held) => if authority.epoch < held.epoch {
            Some(InMemoryFencedActuatorError::AuthorityRegression)
        } else if authority.epoch == held.epoch && authority.owner@ != held.owner@ {
            Some(InMemoryFencedActuatorError::ConflictingOwnerAtSameEpoch)
        } else {
            None
        },
        None => None,
    }
}

/// One installation of `authority`, from `before` to `after`, answering
/// `result`: a refused installation leaves the state as it was; an accepted
/// one makes `authority` the installed authority of its action and changes
/// nothing else.
pub open spec fn installation_step(
    before: InMemoryFencedActuatorState,
    authority: InMemoryActuatorAuthority,
    after: InMemoryFencedActuatorState,
    result: Result<(), InMemoryFencedActuatorError>,
) -> bool {
    match installation_refusal(before.authorities.lookup(authority.action_id@), authority) {
        Some(e) => after == before && result == Err::<(), InMemoryFencedActuatorError>(e),
        None => {
            &&& result == Ok::<(), InMemoryFencedActuatorError>(())
            &&& after.now == before.now
            &&& after.effects == before.effects
            &&& after.proof_sequence == before.proof_sequence
            &&& after.authorities.lookup(authority.action_id@) == Some(authority)
            &&& forall|q: Seq<char>|
                q != authority.action_id@ ==> after.authorities.lookup(q) == before.authorities.lookup(q)
        },
    }
}

/// The state after the clock is set to `now`: only the time changes.
pub open spec fn clock_step(before: InMemoryFencedActuatorState, now: Timestamp, after: InMemoryFencedActuatorState) -> bool {
    &&& after.now == now
    &&& after.authorities == before.authorities
    &&& after.effects == before.effects
    &&& after.proof_sequence == before.proof_sequence
}

/// One `execute` step of the in-memory actuator, from `before` to `after`,
/// answering `request` with `result`.
pub open spec fn execution_step(
    before: InMemoryFencedActuatorState,
    request: FencedActuatorRequest,
    after: InMemoryFencedActuatorState,
    result: Result<FencedActuatorReceipt, InMemoryFencedActuatorError>,
) -> bool {
    let key = request.action_id@;
    match before.authorities.lookup(key) {
        None => after == before && result == Err::<
            FencedActuatorReceipt,
            InMemoryFencedActuatorError,
        >(InMemoryFencedActuatorError::AuthorityMissing),
        Some(authority) => {
            let outcome = fence_outcome(authority, before.now, before.effects.lookup(key), request);
            let sequence = if before.proof_sequence == u64::MAX {
                u64::MAX
            } else {
                (before.proof_sequence + 1) as u64
            };
            &&& after.now == before.now
            &&& after.authorities == before.authorities
            &&& after.proof_sequence == sequence
            &&& if outcome == FencedActuatorOutcome::Applied {
                &&& after.effects.lookup(key) matches Some(effect)
                &&& effect_of(request, effect)
                &&& forall|q: Seq<char>|
                    q != key ==> after.effects.lookup(q) == before.effects.lookup(q)
                &&& after.effects.keys() == before.effects.keys().insert(key)
            } else {
                after.effects == before.effects
            }
            &&& result matches Ok(receipt)
            &&& receipt.request == request
            &&& receipt.observed_at == before.now
            &&& receipt.outcome == outcome
            &&& receipt.proof_ref@ == actuator_proof_text(key, sequence)
        },
    }
}

impl InMemoryFencedActuatorState {
    pub fn new() -> (s: Self)
        ensures
            s.now@ == 0,
            s.proof_sequence == 0,
            forall|key: Seq<char>| s.authorities.lookup(key) is None,
            forall|key: Seq<char>| s.effects.lookup(key) is None,
            s.effects.keys().len() == 0,
            s.effects.keys().finite(),
    {
        InMemoryFencedActuatorState {
            now: Timestamp::new(0),
            authorities: KeyedTable::new(),
            effects: KeyedTable::new(),
            proof_sequence: 0,
        }
    }

    /// The state with its clock set to `now`.
    pub fn with_time(self, now: Timestamp) -> (r: Self)
        ensures
            clock_step(self, now, r),
    {
        let mut state = self;
        state.now = now;
        state
    }

    /// Installs a newer (or same-owner) fencing authority for its action.
    pub fn install(self, authority: InMemoryActuatorAuthority) -> (r: (
        Self,
        Result<(), InMemoryFencedActuatorError>,
    ))
        ensures
            installation_step(self, authority, r.0, r.1),
    {
        let refusal = match self.authorities.get(&authority.action_id) {
            Some(current) => {
                if authority.epoch < current.epoch {
                    Some(InMemoryFencedActuatorError::AuthorityRegression)
                } else if authority.epoch == current.epoch && authority.owner != current.owner {
                    Some(InMemoryFencedActuatorError::ConflictingOwnerAtSameEpoch)
                } else {
                    None
                }
            },
            None => None,
        };
        if let Some(e) = refusal {
            return (self, Err(e));
        }
        let mut state = self;
        let key = authority.action_id.clone();
        state.authorities.insert(key, authority);
        (state, Ok(()))
    }

    /// Compares the fence and applies the effect in one step.
    pub fn execute(self, request: &FencedActuatorRequest) -> (r: (
        Self,
        Result<FencedActuatorReceipt, InMemoryFencedActuatorError>,
    ))
        ensures
            execution_step(self, *request, r.0, r.1),
    {
        let authority = match self.authorities.get(&request.action_id) {
            Some(authority) => authority.clone(),
            None => return (self, Err(InMemoryFencedActuatorError::AuthorityMissing)),
        };
        let ghost existing = self.effects.lookup(request.action_id@);
        let outcome = if request.fencing_epoch < authority.epoch {
            FencedActuatorOutcome::Rejected(
                FencedActuatorRejection::StaleEpoch { current_epoch: authority.epoch },
            )
        } else if request.fencing_epoch > authority.epoch {
            FencedActuatorOutcome::Rejected(
                FencedActuatorRejection::FutureEpoch { current_epoch: authority.epoch },
            )
        } else if request.owner != authority.owner {
            FencedActuatorOutcome::Rejected(FencedActuatorRejection::WrongOwner)
        } else if authority.expires_at.epoch_seconds() <= self.now.epoch_seconds() {
            FencedActuatorOutcome::Rejected(
                FencedActuatorRejection::LeaseExpired { current_epoch: authority.epoch },
            )
        } else {
            match self.effects.get(&request.action_id) {
                Some(existing) => {
                    if !same_text(&existing.idempotency_key, &request.idempotency_key)
                        || !same_text(&existing.operation_ref, &request.operation_ref) {
                        FencedActuatorOutcome::Rejected(FencedActuatorRejection::IdentityConflict)
                    } else {
                        FencedActuatorOutcome::AlreadyApplied {
                            applied_epoch: existing.applied_epoch,
                            applied_attempt_ordinal: existing.applied_attempt_ordinal,
                        }
                    }
                },
                None => FencedActuatorOutcome::Applied,
            }
        };
        assert(outcome == fence_outcome(authority, self.now, existing, *request));
        let mut state = self;
        if outcome == FencedActuatorOutcome::Applied {
            let effect = InMemoryAppliedEffect {
                action_id: request.action_id.clone(),
                idempotency_key: request.idempotency_key.clone(),
                operation_ref: request.operation_ref.clone(),
                applied_epoch: request.fencing_epoch,
                applied_attempt_ordinal: request.attempt_ordinal,
            };
            state.effects.insert(request.action_id.clone(), effect);
        }
        state.proof_sequence = state.proof_sequence.saturating_add(1);
        let mut proof_ref = String::from_str("proof:in-memory-fenced-actuator:");
        proof_ref.append(request.action_id.as_str());
        proof_ref.append(":");
        proof_ref.append(decimal_text(state.proof_sequence).as_str());
        let receipt = FencedActuatorReceipt {
            request: request.clone(),
            observed_at: state.now,
            outcome,
            proof_ref,
        };
        (state, Ok(receipt))
    }
}

/// Process-local reference implementation of the downstream fencing contract.
///
/// Authority comparison and effect insertion share one critical section, so
/// the test implementation has an atomic compare+apply boundary inside one
/// process. It is NOT a production distributed actuator.
#[derive(Debug, Clone)]
pub struct InMemoryFencedActuator {
    inner: Arc<Mutex<InMemoryFencedActuatorState>>,
}

impl Default for InMemoryFencedActuator {
    fn default() -> Self {
        InMemoryFencedActuator { inner: new_shared(InMemoryFencedActuatorState::new()) }
    }
}

/// Sets the clock of the locked actuator state.
pub fn set_time_locked<'a>(locked: &mut LockedState<'a, InMemoryFencedActuatorState>, now: Timestamp)
    ensures
        clock_step(old(locked).held(), now, final(locked).held()),
{
    let state = take_held(locked, InMemoryFencedActuatorState::new());
    put_held(locked, state.with_time(now));
}

/// Installs `authority` in the locked actuator state.
pub fn install_locked<'a>(
    locked: &mut LockedState<'a, InMemoryFencedActuatorState>,
    authority: InMemoryActuatorAuthority,
) -> (r: Result<(), InMemoryFencedActuatorError>)
    ensures
        installation_step(old(locked).held(), authority, final(locked).held(), r),
{
    let state = take_held(locked, InMemoryFencedActuatorState::new());
    let (next, result) = state.install(authority);
    put_held(locked, next);
    result
}

/// The effect the locked actuator state records for `action_id`.
pub fn applied_effect_locked<'a>(
    locked: &LockedState<'a, InMemoryFencedActuatorState>,
    action_id: &ActionId,
) -> (r: Option<InMemoryAppliedEffect>)
    ensures
        r == locked.held().effects.lookup(action_id@),
{
    match held_state(locked).effects.get(action_id) {
        Some(effect) => Some(effect.clone()),
        None => None,
    }
}

/// The number of actions the locked actuator state records an effect for.
pub fn applied_count_locked<'a>(locked: &LockedState<'a, InMemoryFencedActuatorState>) -> (r: usize)
    ensures
        r == locked.held().effects.keys().len(),
{
    held_state(locked).effects.len()
}

/// Executes `request` against the locked actuator state.
pub fn execute_locked<'a>(
    locked: &mut LockedState<'a, InMemoryFencedActuatorState>,
    request: &FencedActuatorRequest,
) -> (r: Result<FencedActuatorReceipt, InMemoryFencedActuatorError>)
    ensures
        execution_step(old(locked).held(), *request, final(locked).held(), r),
{
    let state = take_held(locked, InMemoryFencedActuatorState::new());
    let (next, result) = state.execute(request);
    put_held(locked, next);
    result
}

impl InMemoryFencedActuator {
    pub fn set_time(&self, now: Timestamp) -> (r: Result<(), InMemoryFencedActuatorError>)
        ensures
            r matches Err(e) ==> e == InMemoryFencedActuatorError::Poisoned || e == InMemoryFencedActuatorError::LockBusy,
    {
        let mut locked = match lock_state(&self.inner) {
            Ok(locked) => locked,
            Err(LockFailure::Poisoned) => return Err(InMemoryFencedActuatorError::Poisoned),
            Err(LockFailure::Busy) => return Err(InMemoryFencedActuatorError::LockBusy),
        };
        set_time_locked(&mut locked, now);
        Ok(())
    }

    pub fn install_authority(&self, authority: InMemoryActuatorAuthority) -> (r: Result<
        (),
        InMemoryFencedActuatorError,
    >)
        ensures
            match r {
                Err(InMemoryFencedActuatorError::Poisoned) => true,
                Err(InMemoryFencedActuatorError::LockBusy) => true,
                _ => exists|before: InMemoryFencedActuatorState, after: InMemoryFencedActuatorState|
                    installation_step(before, authority, after, r),
            },
    {
        let mut locked = match lock_state(&self.inner) {
            Ok(locked) => locked,
            Err(LockFailure::Poisoned) => return Err(InMemoryFencedActuatorError::Poisoned),
            Err(LockFailure::Busy) => return Err(InMemoryFencedActuatorError::LockBusy),
        };
        install_locked(&mut locked, authority)
    }

    pub fn applied_effect(&self, action_id: &ActionId) -> (r: Result<
        Option<InMemoryAppliedEffect>,
        InMemoryFencedActuatorError,
    >)
        ensures
            match r {
                Ok(effect) => exists|s: InMemoryFencedActuatorState|
                    effect == s.effects.lookup(action_id@),
                Err(e) => e == InMemoryFencedActuatorError::Poisoned || e == InMemoryFencedActuatorError::LockBusy,
            },
    {
        let locked = match lock_state(&self.inner) {
            Ok(locked) => locked,
            Err(LockFailure::Poisoned) => return Err(InMemoryFencedActuatorError::Poisoned),
            Err(LockFailure::Busy) => return Err(InMemoryFencedActuatorError::LockBusy),
        };
        Ok(applied_effect_locked(&locked, action_id))
    }

    /// Number of effects applied so far, one per action.
    pub fn applied_count(&self) -> (r: Result<usize, InMemoryFencedActuatorError>)
        ensures
            match r {
                Ok(count) => exists|s: InMemoryFencedActuatorState|
                    count == s.effects.keys().len(),
                Err(e) => e == InMemoryFencedActuatorError::Poisoned || e == InMemoryFencedActuatorError::LockBusy,
            },
    {
        let locked = match lock_state(&self.inner) {
            Ok(locked) => locked,
            Err(LockFailure::Poisoned) => return Err(InMemoryFencedActuatorError::Poisoned),
            Err(LockFailure::Busy) => return Err(InMemoryFencedActuatorError::LockBusy),
        };
        Ok(applied_count_locked(&locked))
    }
}

impl FencedActuatorAdapter for InMemoryFencedActuator {
    type Error = InMemoryFencedActuatorError;

    fn execute(&self, request: &FencedActuatorRequest) -> (r: Result<
        FencedActuatorReceipt,
        InMemoryFencedActuatorError,
    >)
        ensures
            match r {
                Err(InMemoryFencedActuatorError::Poisoned) => true,
                Err(InMemoryFencedActuatorError::LockBusy) => true,
                _ => exists|before: InMemoryFencedActuatorState, after: InMemoryFencedActuatorState|
                    execution_step(before, *request, after, r),
            },
    {
        let mut locked = match lock_state(&self.inner) {
            Ok(locked) => locked,
            Err(LockFailure::Poisoned) => return Err(InMemoryFencedActuatorError::Poisoned),
            Err(LockFailure::Busy) => return Err(InMemoryFencedActuatorError::LockBusy),
        };
        execute_locked(&mut locked, request)
    }
}

/// The fence applies an effect only for a request at the current epoch, by
/// the current owner, before expiry, and only when no effect was applied for
/// the action before.
pub proof fn law_fence_applies_only_fresh_current_requests(
    authority: InMemoryActuatorAuthority,
    now: Timestamp,
    existing: Option<InMemoryAppliedEffect>,
    request: FencedActuatorRequest,
)
    ensures
        fence_outcome(authority, now, existing, request) == FencedActuatorOutcome::Applied ==> {
            &&& request.fencing_epoch == authority.epoch
            &&& request.owner@ == authority.owner@
            &&& now@ < authority.expires_at@
            &&& existing is None
        },
        request.fencing_epoch < authority.epoch ==> fence_outcome(authority, now, existing, request)
            == FencedActuatorOutcome::Rejected(
            FencedActuatorRejection::StaleEpoch { current_epoch: authority.epoch },
        ),
{
}

/// Once an action's effect is applied, executing any request for it leaves
/// the applied effects as they are.
pub proof fn law_applied_effect_is_never_reapplied(
    before: InMemoryFencedActuatorState,
    request: FencedActuatorRequest,
    after: InMemoryFencedActuatorState,
    result: Result<FencedActuatorReceipt, InMemoryFencedActuatorError>,
)
    requires
        execution_step(before, request, after, result),
        before.effects.lookup(request.action_id@) is Some,
    ensures
        after.effects == before.effects,
        !(result matches Ok(receipt) && receipt.outcome == FencedActuatorOutcome::Applied),
{
}

/// Executing the same request twice applies its effect at most once: the
/// second execution changes no effect and does not report an application.
pub proof fn law_repeated_request_applies_at_most_once(
    s0: InMemoryFencedActuatorState,
    request: FencedActuatorRequest,
    s1: InMemoryFencedActuatorState,
    r1: Result<FencedActuatorReceipt, InMemoryFencedActuatorError>,
    s2: InMemoryFencedActuatorState,
    r2: Result<FencedActuatorReceipt, InMemoryFencedActuatorError>,
)
    requires
        execution_step(s0, request, s1, r1),
        execution_step(s1, request, s2, r2),
    ensures
        s2.effects == s1.effects,
        !(r2 matches Ok(receipt) && receipt.outcome == FencedActuatorOutcome::Applied),
{
    let key = request.action_id@;
    match s0.authorities.lookup(key) {
        None => {},
        Some(authority) => {
            if fence_outcome(authority, s0.now, s0.effects.lookup(key), request)
                == FencedActuatorOutcome::Applied {
                assert(s1.effects.lookup(key) is Some);
            } else {
                assert(s1.effects == s0.effects);
            }
        },
    }
}

/// An installed authority never moves back: it keeps or raises the epoch,
/// and at the same epoch keeps the owner.
pub proof fn law_authority_never_regresses(
    held: InMemoryActuatorAuthority,
    authority: InMemoryActuatorAuthority,
)
    ensures
        installation_refusal(Some(held), authority) is None ==> authority.epoch >= held.epoch && (
        authority.epoch == held.epoch ==> authority.owner@ == held.owner@),
{
}

/// Installations never move an action's authority back: an older epoch is
/// refused as a regression, another owner at the same epoch as a conflict, and
/// anything else is accepted; a refused installation leaves every installed
/// authority as it was, and an accepted
/// one installs the new authority for its action, whose epoch is at least the
/// one it replaces (and whose owner is the same at the same epoch); every other
/// action keeps its authority.
pub proof fn law_installation_keeps_epochs_monotone(
    before: InMemoryFencedActuatorState,
    authority: InMemoryActuatorAuthority,
    after: InMemoryFencedActuatorState,
    result: Result<(), InMemoryFencedActuatorError>,
)
    requires
        installation_step(before, authority, after, result),
    ensures
        match before.authorities.lookup(authority.action_id@) {
            Some(held) => if authority.epoch < held.epoch {
                result == Err::<(), InMemoryFencedActuatorError>(
                    InMemoryFencedActuatorError::AuthorityRegression,
                )
            } else if authority.epoch == held.epoch && authority.owner@ != held.owner@ {
                result == Err::<(), InMemoryFencedActuatorError>(
                    InMemoryFencedActuatorError::ConflictingOwnerAtSameEpoch,
                )
            } else {
                result == Ok::<(), InMemoryFencedActuatorError>(())
            },
            None => result == Ok::<(), InMemoryFencedActuatorError>(()),
        },
        result is Err ==> after.authorities == before.authorities,
        result is Ok ==> after.authorities.lookup(authority.action_id@) == Some(authority),
        forall|q: Seq<char>| #![trigger after.authorities.lookup(q)]
            before.authorities.lookup(q) matches Some(held) ==> {
                &&& after.authorities.lookup(q) matches Some(now_held)
                &&& now_held.epoch >= held.epoch
                &&& (now_held.epoch == held.epoch ==> now_held.owner@ == held.owner@)
            },
{
}

} // verus!
