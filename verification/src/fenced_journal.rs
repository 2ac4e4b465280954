//! The durable journal under a recovery lease: every record a worker plans is
//! checked against the lease it holds, so a worker fenced off by a takeover
//! cannot prepare, dispatch or record evidence.
use vstd::prelude::*;

use crate::attempt_ledger::AttemptId;
use crate::durable_journal::JournalError;
use crate::execution_receipt::ExecutionOutcome;
use crate::journal_core::{
    attempt_prepared, dispatch_planned, external_planned, reconciliation_planned, JournalAppend,
    JournalCore, PreparedInProcess,
};
use crate::primitives::Timestamp;
use crate::reconciliation::{ReconciliationOutcome, RetryDecision};
use crate::recovery_lease::{
    FencedAttemptPermit, FencingToken, RecoveryLease, RecoveryLeaseBlock, RecoveryLeaseManager,
    RecoveryLeaseStore, RecoveryWorkerId,
};

verus! {

#[derive(Debug, Clone, PartialEq, Eq)]
pub enum FencedJournalError<E> {
    Lease(RecoveryLeaseBlock<E>),
    Journal(JournalError),
    PermitActionMismatch,
    PermitOwnerMismatch,
    PermitEpochMismatch,
}

impl<E> From<RecoveryLeaseBlock<E>> for FencedJournalError<E> {
    fn from(value: RecoveryLeaseBlock<E>) -> (r: Self) {
        FencedJournalError::Lease(value)
    }
}

impl<E> vstd::std_specs::convert::FromSpecImpl<RecoveryLeaseBlock<E>> for FencedJournalError<E> {
    open spec fn obeys_from_spec() -> bool {
        true
    }

    open spec fn from_spec(v: RecoveryLeaseBlock<E>) -> Self {
        FencedJournalError::Lease(v)
    }
}

impl<E> From<JournalError> for FencedJournalError<E> {
    fn from(value: JournalError) -> (r: Self) {
        FencedJournalError::Journal(value)
    }
}

impl<E> vstd::std_specs::convert::FromSpecImpl<JournalError> for FencedJournalError<E> {
    open spec fn obeys_from_spec() -> bool {
        true
    }

    open spec fn from_spec(v: JournalError) -> Self {
        FencedJournalError::Journal(v)
    }
}

/// Why a permit presented for dispatch does not belong to the held lease.
pub open spec fn permit_mismatch<E>(token: FencingToken, permit: FencedAttemptPermit) -> Option<
    FencedJournalError<E>,
> {
    if permit.action_id@ != token.action_id@ {
        Some(FencedJournalError::PermitActionMismatch)
    } else if permit.owner@ != token.owner@ {
        Some(FencedJournalError::PermitOwnerMismatch)
    } else if permit.fencing_epoch != token.epoch {
        Some(FencedJournalError::PermitEpochMismatch)
    } else {
        None
    }
}

/// Checks that a permit belongs to the held lease.
pub fn check_permit<E>(token: &FencingToken, permit: &FencedAttemptPermit) -> (r: Result<
    (),
    FencedJournalError<E>,
>)
    ensures
        match permit_mismatch::<E>(*token, *permit) {
            Some(e) => r == Err::<(), FencedJournalError<E>>(e),
            None => r is Ok,
        },
{
    if permit.action_id != token.action_id {
        return Err(FencedJournalError::PermitActionMismatch);
    }
    if permit.owner != token.owner {
        return Err(FencedJournalError::PermitOwnerMismatch);
    }
    if permit.fencing_epoch != token.epoch {
        return Err(FencedJournalError::PermitEpochMismatch);
    }
    Ok(())
}

/// The durable journal of one action under the recovery lease its worker holds.
pub struct FencedDurableJournal<S> {
    journal: JournalCore,
    leases: RecoveryLeaseManager<S>,
    token: FencingToken,
}

impl<S: RecoveryLeaseStore> FencedDurableJournal<S> {
    pub closed spec fn spec_journal(&self) -> JournalCore {
        self.journal
    }

    pub closed spec fn spec_token(&self) -> FencingToken {
        self.token
    }

    /// Acquires the lease of the journal's action for `owner` and holds it.
    pub fn acquire(
        journal: JournalCore,
        store: S,
        owner: RecoveryWorkerId,
        now: Timestamp,
        ttl_seconds: i64,
    ) -> (r: Result<Self, FencedJournalError<S::Error>>)
        ensures
            match r {
                Ok(fenced) => fenced.spec_journal() == journal && fenced.spec_token().action_id
                    == journal.ticket.action_id && fenced.spec_token().owner == owner,
                Err(e) => e is Lease,
            },
    {
        let leases = RecoveryLeaseManager::new(store);
        let token = match leases.acquire(&journal.ticket.action_id, owner, now, ttl_seconds) {
            Ok(token) => token,
            Err(e) => {
                return Err(FencedJournalError::Lease(e));
            },
        };
        Ok(FencedDurableJournal { journal, leases, token })
    }

    pub fn token(&self) -> (t: &FencingToken)
        ensures
            *t == self.spec_token(),
    {
        &self.token
    }

    pub fn journal(&self) -> (j: &JournalCore)
        ensures
            *j == self.spec_journal(),
    {
        &self.journal
    }

    /// Extends the held lease.
    pub fn renew(&self, now: Timestamp, ttl_seconds: i64) -> (r: Result<
        RecoveryLease,
        FencedJournalError<S::Error>,
    >)
        ensures
            r is Err ==> r->Err_0 is Lease,
            r matches Ok(lease) ==> lease.version.epoch == self.spec_token().epoch && lease.owner@
                == self.spec_token().owner@,
    {
        match self.leases.renew(&self.token, now, ttl_seconds) {
            Ok(lease) => Ok(lease),
            Err(e) => Err(FencedJournalError::Lease(e)),
        }
    }

    /// Confirms that the held lease is still current.
    pub fn assert_current(&self, now: Timestamp) -> (r: Result<
        RecoveryLease,
        FencedJournalError<S::Error>,
    >)
        ensures
            r is Err ==> r->Err_0 is Lease,
            r matches Ok(lease) ==> lease.version.epoch == self.spec_token().epoch && lease.owner@
                == self.spec_token().owner@ && lease.expires_at@ > now@,
    {
        match self.leases.assert_current(&self.token, now) {
            Ok(lease) => Ok(lease),
            Err(e) => Err(FencedJournalError::Lease(e)),
        }
    }

    /// Plans the write-ahead record of the next attempt under the held lease
    /// and gives the permit for it.
    pub fn prepare_attempt(
        &self,
        bytes: &[u8],
        decision: &RetryDecision,
        prepared_at: Timestamp,
        now: Timestamp,
    ) -> (r: Result<(FencedAttemptPermit, JournalAppend), FencedJournalError<S::Error>>)
        ensures
            match r {
                Ok((permit, append)) => {
                    &&& permit.action_id == self.spec_token().action_id
                    &&& permit.owner == self.spec_token().owner
                    &&& permit.fencing_epoch == self.spec_token().epoch
                    &&& exists|id: AttemptId|
                        #[trigger] attempt_prepared(
                            self.spec_journal(),
                            bytes@,
                            *decision,
                            prepared_at,
                            Ok((id, append)),
                        ) && id.ordinal == permit.attempt_ordinal
                },
                Err(FencedJournalError::Journal(e)) => attempt_prepared(
                    self.spec_journal(),
                    bytes@,
                    *decision,
                    prepared_at,
                    Err(e),
                ),
                Err(FencedJournalError::PermitOwnerMismatch) => false,
                Err(FencedJournalError::PermitEpochMismatch) => false,
                Err(_) => true,
            },
    {
        let permit = match self.leases.authorize_attempt(&self.token, decision, now) {
            Ok(permit) => permit,
            Err(e) => {
                return Err(FencedJournalError::Lease(e));
            },
        };
        let (id, append) = match self.journal.prepare_attempt(bytes, decision, prepared_at) {
            Ok(planned) => planned,
            Err(e) => {
                return Err(FencedJournalError::Journal(e));
            },
        };
        if id.action_id != permit.action_id || id.ordinal != permit.attempt_ordinal {
            return Err(FencedJournalError::PermitActionMismatch);
        }
        Ok((permit, append))
    }

    /// Plans the dispatch record of a permit issued under the held lease.
    pub fn record_dispatch(
        &self,
        bytes: &[u8],
        permit: &FencedAttemptPermit,
        dispatched_at: Timestamp,
        proof_ref: &str,
        now: Timestamp,
    ) -> (r: Result<JournalAppend, FencedJournalError<S::Error>>)
        ensures
            match r {
                Ok(append) => permit_mismatch::<S::Error>(self.spec_token(), *permit) is None
                    && dispatch_planned(
                    self.spec_journal(),
                    bytes@,
                    permit.attempt_ordinal,
                    dispatched_at,
                    proof_ref@,
                    Ok(append),
                ),
                Err(FencedJournalError::Journal(e)) => permit_mismatch::<S::Error>(
                    self.spec_token(),
                    *permit,
                ) is None && dispatch_planned(
                    self.spec_journal(),
                    bytes@,
                    permit.attempt_ordinal,
                    dispatched_at,
                    proof_ref@,
                    Err(e),
                ),
                Err(FencedJournalError::Lease(_)) => true,
                Err(e) => permit_mismatch::<S::Error>(self.spec_token(), *permit) == Some(e),
            },
    {
        match self.leases.assert_current(&self.token, now) {
            Ok(_) => {},
            Err(e) => {
                return Err(FencedJournalError::Lease(e));
            },
        }
        check_permit(&self.token, permit)?;
        match self.journal.record_dispatch(bytes, permit.attempt_ordinal, dispatched_at, proof_ref) {
            Ok(append) => Ok(append),
            Err(e) => Err(FencedJournalError::Journal(e)),
        }
    }

    /// Plans a reconciliation record while the held lease is current.
    pub fn record_reconciliation(
        &self,
        bytes: &[u8],
        ordinal: u32,
        observed_at: Timestamp,
        outcome: ReconciliationOutcome,
        proof_ref: &str,
        now: Timestamp,
    ) -> (r: Result<JournalAppend, FencedJournalError<S::Error>>)
        ensures
            match r {
                Ok(append) => reconciliation_planned(
                    self.spec_journal(),
                    bytes@,
                    ordinal,
                    observed_at,
                    outcome,
                    proof_ref@,
                    Ok(append),
                ),
                Err(FencedJournalError::Journal(e)) => reconciliation_planned(
                    self.spec_journal(),
                    bytes@,
                    ordinal,
                    observed_at,
                    outcome,
                    proof_ref@,
                    Err(e),
                ),
                Err(e) => e is Lease,
            },
    {
        match self.leases.assert_current(&self.token, now) {
            Ok(_) => {},
            Err(e) => {
                return Err(FencedJournalError::Lease(e));
            },
        }
        match self.journal.record_reconciliation(bytes, ordinal, observed_at, outcome, proof_ref) {
            Ok(append) => Ok(append),
            Err(e) => Err(FencedJournalError::Journal(e)),
        }
    }

    /// Plans an external-outcome record while the held lease is current.
    pub fn record_external_outcome(
        &self,
        bytes: &[u8],
        ordinal: u32,
        observed_at: Timestamp,
        outcome: ExecutionOutcome,
        proof_ref: &str,
        now: Timestamp,
    ) -> (r: Result<JournalAppend, FencedJournalError<S::Error>>)
        ensures
            match r {
                Ok(append) => external_planned(
                    self.spec_journal(),
                    bytes@,
                    ordinal,
                    observed_at,
                    outcome,
                    proof_ref@,
                    Ok(append),
                ),
                Err(FencedJournalError::Journal(e)) => external_planned(
                    self.spec_journal(),
                    bytes@,
                    ordinal,
                    observed_at,
                    outcome,
                    proof_ref@,
                    Err(e),
                ),
                Err(e) => e is Lease,
            },
    {
        match self.leases.assert_current(&self.token, now) {
            Ok(_) => {},
            Err(e) => {
                return Err(FencedJournalError::Lease(e));
            },
        }
        match self.journal.record_external_outcome(bytes, ordinal, observed_at, outcome, proof_ref) {
            Ok(append) => Ok(append),
            Err(e) => Err(FencedJournalError::Journal(e)),
        }
    }

    /// Records that an append planned here is durable.
    pub fn commit(&mut self, append: &JournalAppend)
        requires
            old(self).spec_journal().next_sequence < u64::MAX,
        ensures
            final(self).spec_token() == old(self).spec_token(),
            final(self).spec_journal().ticket == old(self).spec_journal().ticket,
            final(self).spec_journal().binding == old(self).spec_journal().binding,
            final(self).spec_journal().next_sequence == old(self).spec_journal().next_sequence + 1,
            final(self).spec_journal().prepared_in_process == match append.prepared_in_process {
                PreparedInProcess::Keep => old(self).spec_journal().prepared_in_process,
                PreparedInProcess::Hold(ordinal) => Some(ordinal),
                PreparedInProcess::Clear => None,
            },
    {
        self.journal.commit(append);
    }
}

} // verus!
