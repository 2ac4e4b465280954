//! Recovery leases with monotonic fencing epochs.
//!
//! A worker acquires execution authority for one action through an atomic
//! compare-and-swap on a lease store. Reacquisition after expiry advances the
//! fencing epoch; renewal by the current owner keeps the epoch and advances the
//! revision. A token is current only while its epoch, owner and expiry match.
use std::sync::Arc;
use std::sync::Mutex;

use vstd::prelude::*;

use crate::execution_receipt::ActionId;
use crate::keyed_table::KeyedTable;
use crate::primitives::Timestamp;
use crate::reconciliation::{RetryDecision, RetryVerdict};
use crate::shared_state::{held_state, held_state_mut, lock_state, new_shared, LockFailure, LockedState};
use crate::text::{blank, is_blank};

verus! {

/// Stable identity for one recovery worker competing for execution authority.
#[derive(Debug, Hash)]
pub struct RecoveryWorkerId(String);

impl View for RecoveryWorkerId {
    type V = Seq<char>;

    closed spec fn view(&self) -> Seq<char> {
        self.0@
    }
}

impl RecoveryWorkerId {
    /// A worker identity is never blank.
    #[verifier::type_invariant]
    pub open spec fn named(self) -> bool {
        !blank(self@)
    }

    pub fn new(value: &str) -> (r: Result<Self, LeaseConfigBlock>)
        ensures
            match r {
                Ok(id) => !blank(value@) && id@ == value@,
                Err(e) => blank(value@) && e == LeaseConfigBlock::EmptyWorkerId,
            },
    {
        if is_blank(value) {
            return Err(LeaseConfigBlock::EmptyWorkerId);
        }
        Ok(RecoveryWorkerId(value.to_owned()))
    }

    pub fn as_str(&self) -> (s: &str)
        ensures
            s@ == self@,
    {
        self.0.as_str()
    }
}

impl Clone for RecoveryWorkerId {
    fn clone(&self) -> (r: Self)
        ensures
            r == *self,
    {
        proof {
            use_type_invariant(self);
        }
        RecoveryWorkerId(self.0.clone())
    }
}

impl PartialEq for RecoveryWorkerId {
    fn eq(&self, other: &Self) -> (r: bool) {
        self.0.eq(&other.0)
    }
}

impl Eq for RecoveryWorkerId {}

impl vstd::std_specs::cmp::PartialEqSpecImpl for RecoveryWorkerId {
    open spec fn obeys_eq_spec() -> bool {
        true
    }

    open spec fn eq_spec(&self, other: &Self) -> bool {
        self@ == other@
    }
}

/// Version used by an atomic lease compare-and-swap operation.
///
/// `epoch` changes whenever ownership is reacquired after expiry. `revision`
/// changes when the current owner renews the same epoch.
#[derive(Debug, Clone, Copy, PartialEq, Eq, Structural, Hash)]
pub struct LeaseVersion {
    pub epoch: u64,
    pub revision: u64,
}

/// Current authoritative lease record held by the lease store.
#[derive(Debug, PartialEq, Eq)]
pub struct RecoveryLease {
    pub action_id: ActionId,
    pub owner: RecoveryWorkerId,
    pub version: LeaseVersion,
    pub expires_at: Timestamp,
}

impl Clone for RecoveryLease {
    fn clone(&self) -> (r: Self)
        ensures
            r == *self,
    {
        RecoveryLease {
            action_id: self.action_id.clone(),
            owner: self.owner.clone(),
            version: self.version,
            expires_at: self.expires_at,
        }
    }
}

/// Monotonic execution authority carried by a worker.
///
/// The epoch, not wall-clock recency, is the fencing identity. A worker holding
/// epoch N must be rejected after another worker acquires epoch N+1.
#[derive(Debug, PartialEq, Eq, Hash)]
pub struct FencingToken {
    pub action_id: ActionId,
    pub owner: RecoveryWorkerId,
    pub epoch: u64,
}

impl Clone for FencingToken {
    fn clone(&self) -> (r: Self)
        ensures
            r == *self,
    {
        FencingToken { action_id: self.action_id.clone(), owner: self.owner.clone(), epoch: self.epoch }
    }
}

/// Permit for one physical dispatch under a currently valid fencing epoch.
///
/// The permit is not evidence that dispatch happened. A downstream actuator or
/// provider should propagate/enforce `fencing_epoch` when it has a compatible
/// conditional-write or fencing mechanism.
#[derive(Debug, PartialEq, Eq)]
pub struct FencedAttemptPermit {
    pub action_id: ActionId,
    pub owner: RecoveryWorkerId,
    pub fencing_epoch: u64,
    pub attempt_ordinal: u32,
    pub idempotency_key: String,
}

impl Clone for FencedAttemptPermit {
    fn clone(&self) -> (r: Self)
        ensures
            r == *self,
    {
        FencedAttemptPermit {
            action_id: self.action_id.clone(),
            owner: self.owner.clone(),
            fencing_epoch: self.fencing_epoch,
            attempt_ordinal: self.attempt_ordinal,
            idempotency_key: self.idempotency_key.clone(),
        }
    }
}

#[derive(Debug, Clone, Copy, PartialEq, Eq, Structural)]
pub enum LeaseConfigBlock {
    EmptyWorkerId,
    InvalidTtl,
}

#[derive(Debug, Clone, PartialEq, Eq)]
pub enum RecoveryLeaseBlock<E> {
    Config(LeaseConfigBlock),
    Store(E),
    LeaseHeld { owner: RecoveryWorkerId, epoch: u64, expires_at: Timestamp },
    LeaseMissing,
    LeaseExpired { epoch: u64 },
    StaleFence { presented_epoch: u64, current_epoch: u64 },
    WrongOwner,
    ActionMismatch,
    LeaseContended,
    EpochOverflow,
    RevisionOverflow,
    DecisionDoesNotAuthorizeDispatch,
}

impl<E> From<LeaseConfigBlock> for RecoveryLeaseBlock<E> {
    fn from(value: LeaseConfigBlock) -> (r: Self) {
        RecoveryLeaseBlock::Config(value)
    }
}

impl<E> vstd::std_specs::convert::FromSpecImpl<LeaseConfigBlock> for RecoveryLeaseBlock<E> {
    open spec fn obeys_from_spec() -> bool {
        true
    }

    open spec fn from_spec(v: LeaseConfigBlock) -> Self {
        RecoveryLeaseBlock::Config(v)
    }
}

/// The expiry of a lease granted at `now` for `ttl_seconds`: absent when the
/// TTL is not positive or the sum leaves the timestamp range.
pub open spec fn lease_expiry(now: Timestamp, ttl_seconds: i64) -> Option<int> {
    if ttl_seconds <= 0 || now@ + ttl_seconds > i64::MAX {
        None
    } else {
        Some(now@ + ttl_seconds)
    }
}

pub fn expiry_from(now: Timestamp, ttl_seconds: i64) -> (r: Result<Timestamp, LeaseConfigBlock>)
    ensures
        match r {
            Ok(t) => lease_expiry(now, ttl_seconds) == Some(t@),
            Err(e) => lease_expiry(now, ttl_seconds) is None && e == LeaseConfigBlock::InvalidTtl,
        },
{
    if ttl_seconds <= 0 {
        return Err(LeaseConfigBlock::InvalidTtl);
    }
    match now.epoch_seconds().checked_add(ttl_seconds) {
        Some(expires_at) => Ok(Timestamp::new(expires_at)),
        None => Err(LeaseConfigBlock::InvalidTtl),
    }
}

/// How acquiring the lease of `action_id` at `now` proceeds from the lease the
/// store holds: the version to compare against and the epoch to install.
pub open spec fn acquisition<E>(
    action_id: ActionId,
    current: Option<RecoveryLease>,
    now: Timestamp,
) -> Result<(Option<LeaseVersion>, u64), RecoveryLeaseBlock<E>> {
    match current {
        None => Ok((None, 1)),
        Some(lease) => if lease.action_id@ != action_id@ {
            Err(RecoveryLeaseBlock::ActionMismatch)
        } else if lease.expires_at@ > now@ {
            Err(
                RecoveryLeaseBlock::LeaseHeld {
                    owner: lease.owner,
                    epoch: lease.version.epoch,
                    expires_at: lease.expires_at,
                },
            )
        } else if lease.version.epoch == u64::MAX {
            Err(RecoveryLeaseBlock::EpochOverflow)
        } else {
            Ok((Some(lease.version), (lease.version.epoch + 1) as u64))
        },
    }
}

/// The epoch an acquisition installs, when it may proceed.
pub open spec fn acquired_epoch<E>(action_id: ActionId, current: Option<RecoveryLease>, now: Timestamp) -> Option<u64> {
    match acquisition::<E>(action_id, current, now) {
        Ok((_, epoch)) => Some(epoch),
        Err(_) => None,
    }
}

/// Whether `token` names the current, unexpired lease the store holds.
pub open spec fn token_check<E>(
    token: FencingToken,
    current: Option<RecoveryLease>,
    now: Timestamp,
) -> Result<RecoveryLease, RecoveryLeaseBlock<E>> {
    match current {
        None => Err(RecoveryLeaseBlock::LeaseMissing),
        Some(lease) => if lease.action_id@ != token.action_id@ {
            Err(RecoveryLeaseBlock::ActionMismatch)
        } else if lease.version.epoch != token.epoch {
            Err(
                RecoveryLeaseBlock::StaleFence {
                    presented_epoch: token.epoch,
                    current_epoch: lease.version.epoch,
                },
            )
        } else if lease.owner@ != token.owner@ {
            Err(RecoveryLeaseBlock::WrongOwner)
        } else if lease.expires_at@ <= now@ {
            Err(RecoveryLeaseBlock::LeaseExpired { epoch: lease.version.epoch })
        } else {
            Ok(lease)
        },
    }
}

/// The attempt ordinal a retry decision authorizes under `token`.
pub open spec fn attempt_authorization<E>(token: FencingToken, decision: RetryDecision) -> Result<
    u32,
    RecoveryLeaseBlock<E>,
> {
    if decision.action_id@ != token.action_id@ {
        Err(RecoveryLeaseBlock::ActionMismatch)
    } else {
        match decision.verdict {
            RetryVerdict::InitialDispatchAllowed => Ok(0u32),
            RetryVerdict::RedispatchAllowed { ordinal } => Ok(ordinal),
            _ => Err(RecoveryLeaseBlock::DecisionDoesNotAuthorizeDispatch),
        }
    }
}

/// Decides how to acquire the lease of `action_id` given the lease the store
/// currently holds.
pub fn plan_acquisition<E>(
    action_id: &ActionId,
    current: Option<RecoveryLease>,
    now: Timestamp,
) -> (r: Result<(Option<LeaseVersion>, u64), RecoveryLeaseBlock<E>>)
    ensures
        r == acquisition::<E>(*action_id, current, now),
{
    match current {
        None => Ok((None, 1)),
        Some(lease) => {
            if lease.action_id != *action_id {
                return Err(RecoveryLeaseBlock::ActionMismatch);
            }
            if lease.expires_at.epoch_seconds() > now.epoch_seconds() {
                return Err(
                    RecoveryLeaseBlock::LeaseHeld {
                        owner: lease.owner,
                        epoch: lease.version.epoch,
                        expires_at: lease.expires_at,
                    },
                );
            }
            match lease.version.epoch.checked_add(1) {
                Some(next_epoch) => Ok((Some(lease.version), next_epoch)),
                None => Err(RecoveryLeaseBlock::EpochOverflow),
            }
        },
    }
}

/// Whether `lease` is the lease that acquiring `action_id` for `owner` at epoch
/// `epoch` writes at `now` with a time to live of `ttl_seconds`: the
/// acquirer's, at that epoch, first revision, expiring `ttl_seconds` after
/// `now`.
pub open spec fn is_acquired_lease(
    lease: RecoveryLease,
    action_id: ActionId,
    owner: RecoveryWorkerId,
    epoch: u64,
    now: Timestamp,
    ttl_seconds: i64,
) -> bool {
    &&& lease.action_id == action_id
    &&& lease.owner == owner
    &&& lease.version == LeaseVersion { epoch, revision: 0 }
    &&& lease_expiry(now, ttl_seconds) == Some(lease.expires_at@)
}

/// Builds the lease an acquisition writes, or refuses a time to live that
/// gives no expiry.
pub fn plan_acquired_lease(
    action_id: &ActionId,
    owner: &RecoveryWorkerId,
    epoch: u64,
    now: Timestamp,
    ttl_seconds: i64,
) -> (r: Result<RecoveryLease, LeaseConfigBlock>)
    ensures
        match r {
            Ok(lease) => is_acquired_lease(lease, *action_id, *owner, epoch, now, ttl_seconds),
            Err(e) => lease_expiry(now, ttl_seconds) is None && e == LeaseConfigBlock::InvalidTtl,
        },
{
    let expires_at = expiry_from(now, ttl_seconds)?;
    Ok(
        RecoveryLease {
            action_id: action_id.clone(),
            owner: owner.clone(),
            version: LeaseVersion { epoch, revision: 0 },
            expires_at,
        },
    )
}

/// Whether `lease` is what renewing `held` at `now` with a time to live of
/// `ttl_seconds` writes: same action, owner and epoch, the next revision,
/// expiring `ttl_seconds` after `now`.
pub open spec fn is_renewed_lease(lease: RecoveryLease, held: RecoveryLease, now: Timestamp, ttl_seconds: i64) -> bool {
    &&& held.version.revision < u64::MAX
    &&& lease.action_id == held.action_id
    &&& lease.owner == held.owner
    &&& lease.version == LeaseVersion {
        epoch: held.version.epoch,
        revision: (held.version.revision + 1) as u64,
    }
    &&& lease_expiry(now, ttl_seconds) == Some(lease.expires_at@)
}

/// Builds the lease a renewal of `held` writes until `expires_at`, or refuses
/// when the revision has no successor.
pub fn plan_renewed_lease<E>(held: &RecoveryLease, now: Timestamp, ttl_seconds: i64, expires_at: Timestamp) -> (r:
    Result<RecoveryLease, RecoveryLeaseBlock<E>>)
    requires
        lease_expiry(now, ttl_seconds) == Some(expires_at@),
    ensures
        match r {
            Ok(lease) => is_renewed_lease(lease, *held, now, ttl_seconds),
            Err(e) => held.version.revision == u64::MAX && e == RecoveryLeaseBlock::<E>::RevisionOverflow,
        },
{
    let revision = match held.version.revision.checked_add(1) {
        Some(revision) => revision,
        None => return Err(RecoveryLeaseBlock::RevisionOverflow),
    };
    Ok(
        RecoveryLease {
            action_id: held.action_id.clone(),
            owner: held.owner.clone(),
            version: LeaseVersion { epoch: held.version.epoch, revision },
            expires_at,
        },
    )
}

/// Checks a fencing token against the lease the store currently holds.
pub fn check_token<E>(token: &FencingToken, current: Option<RecoveryLease>, now: Timestamp) -> (r:
    Result<RecoveryLease, RecoveryLeaseBlock<E>>)
    ensures
        r == token_check::<E>(*token, current, now),
{
    let current = match current {
        Some(lease) => lease,
        None => return Err(RecoveryLeaseBlock::LeaseMissing),
    };
    if current.action_id != token.action_id {
        return Err(RecoveryLeaseBlock::ActionMismatch);
    }
    if current.version.epoch != token.epoch {
        return Err(
            RecoveryLeaseBlock::StaleFence {
                presented_epoch: token.epoch,
                current_epoch: current.version.epoch,
            },
        );
    }
    if current.owner != token.owner {
        return Err(RecoveryLeaseBlock::WrongOwner);
    }
    if current.expires_at.epoch_seconds() <= now.epoch_seconds() {
        return Err(RecoveryLeaseBlock::LeaseExpired { epoch: current.version.epoch });
    }
    Ok(current)
}

/// Store contract for recovery leases.
///
/// `compare_and_swap` MUST be atomic across all workers sharing the store. A
/// database row with conditional update, Redis transaction/script, etcd compare
/// transaction, or equivalent primitive is appropriate. A plain read-then-write
/// implementation is not sufficient for multi-worker fencing.
pub trait RecoveryLeaseStore {
    type Error;

    fn load(&self, action_id: &ActionId) -> Result<Option<RecoveryLease>, Self::Error>;

    fn compare_and_swap(
        &self,
        action_id: &ActionId,
        expected: Option<LeaseVersion>,
        replacement: RecoveryLease,
    ) -> Result<bool, Self::Error>;
}

/// Lease authority over a CAS-capable store.
#[derive(Debug, Clone)]
pub struct RecoveryLeaseManager<S> {
    store: S,
}

impl<S: RecoveryLeaseStore> RecoveryLeaseManager<S> {
    pub closed spec fn spec_store(&self) -> S {
        self.store
    }

    pub fn new(store: S) -> (m: Self)
        ensures
            m.spec_store() == store,
    {
        RecoveryLeaseManager { store }
    }

    pub fn store(&self) -> (s: &S)
        ensures
            *s == self.spec_store(),
    {
        &self.store
    }

    /// Acquires the lease for `owner`: epoch 1 on a fresh action, the next
    /// epoch after an expired lease, refused while another lease is live.
    /// The lease it hands to the store is the one `plan_acquired_lease` builds
    /// for the token's epoch.
    pub fn acquire(
        &self,
        action_id: &ActionId,
        owner: RecoveryWorkerId,
        now: Timestamp,
        ttl_seconds: i64,
    ) -> (r: Result<FencingToken, RecoveryLeaseBlock<S::Error>>)
        ensures
            (r matches Err(RecoveryLeaseBlock::Config(c))) <==> lease_expiry(now, ttl_seconds) is None,
            r matches Err(RecoveryLeaseBlock::Config(c)) ==> c == LeaseConfigBlock::InvalidTtl,
            match r {
                Ok(token) => {
                    &&& token.action_id == *action_id
                    &&& token.owner == owner
                    &&& exists|current: Option<RecoveryLease>|
                        acquired_epoch::<S::Error>(*action_id, current, now) == Some(token.epoch)
                },
                Err(RecoveryLeaseBlock::Store(_)) => true,
                Err(RecoveryLeaseBlock::Config(_)) => true,
                Err(RecoveryLeaseBlock::LeaseContended) => true,
                Err(e) => exists|current: Option<RecoveryLease>|
                    acquisition::<S::Error>(*action_id, current, now) == Err::<
                        (Option<LeaseVersion>, u64),
                        RecoveryLeaseBlock<S::Error>,
                    >(e),
            },
    {
        let expires_at = match expiry_from(now, ttl_seconds) {
            Ok(t) => t,
            Err(c) => return Err(RecoveryLeaseBlock::Config(c)),
        };
        let current = match self.store.load(action_id) {
            Ok(current) => current,
            Err(e) => return Err(RecoveryLeaseBlock::Store(e)),
        };
        let ghost loaded = current;
        let (expected, epoch) = plan_acquisition::<S::Error>(action_id, current, now)?;
        assert(acquired_epoch::<S::Error>(*action_id, loaded, now) == Some(epoch));
        let replacement = match plan_acquired_lease(action_id, &owner, epoch, now, ttl_seconds) {
            Ok(lease) => lease,
            Err(c) => return Err(RecoveryLeaseBlock::Config(c)),
        };
        let swapped = match self.store.compare_and_swap(action_id, expected, replacement) {
            Ok(swapped) => swapped,
            Err(e) => return Err(RecoveryLeaseBlock::Store(e)),
        };
        if !swapped {
            return Err(RecoveryLeaseBlock::LeaseContended);
        }
        Ok(FencingToken { action_id: action_id.clone(), owner, epoch })
    }

    /// Extends the current owner's lease: same epoch, next revision.
    pub fn renew(&self, token: &FencingToken, now: Timestamp, ttl_seconds: i64) -> (r: Result<
        RecoveryLease,
        RecoveryLeaseBlock<S::Error>,
    >)
        ensures
            (r matches Err(RecoveryLeaseBlock::Config(c))) <==> lease_expiry(now, ttl_seconds) is None,
            r matches Err(RecoveryLeaseBlock::Config(c)) ==> c == LeaseConfigBlock::InvalidTtl,
            match r {
                Ok(lease) => exists|current: Option<RecoveryLease>, held: RecoveryLease|
                    token_check::<S::Error>(*token, current, now) == Ok::<
                        RecoveryLease,
                        RecoveryLeaseBlock<S::Error>,
                    >(held) && is_renewed_lease(lease, held, now, ttl_seconds),
                Err(RecoveryLeaseBlock::Store(_)) => true,
                Err(RecoveryLeaseBlock::Config(_)) => true,
                Err(RecoveryLeaseBlock::LeaseContended) => true,
                Err(RecoveryLeaseBlock::RevisionOverflow) => true,
                Err(e) => exists|current: Option<RecoveryLease>|
                    token_check::<S::Error>(*token, current, now) == Err::<
                        RecoveryLease,
                        RecoveryLeaseBlock<S::Error>,
                    >(e),
            },
    {
        let expires_at = match expiry_from(now, ttl_seconds) {
            Ok(t) => t,
            Err(c) => return Err(RecoveryLeaseBlock::Config(c)),
        };
        let current = self.current_for_token(token, now)?;
        let replacement = plan_renewed_lease::<S::Error>(&current, now, ttl_seconds, expires_at)?;
        let swapped = match self.store.compare_and_swap(
            &token.action_id,
            Some(current.version),
            replacement.clone(),
        ) {
            Ok(swapped) => swapped,
            Err(e) => return Err(RecoveryLeaseBlock::Store(e)),
        };
        if !swapped {
            return Err(RecoveryLeaseBlock::LeaseContended);
        }
        Ok(replacement)
    }

    /// Confirms that `token` still holds the current, unexpired lease.
    pub fn assert_current(&self, token: &FencingToken, now: Timestamp) -> (r: Result<
        RecoveryLease,
        RecoveryLeaseBlock<S::Error>,
    >)
        ensures
            match r {
                Err(RecoveryLeaseBlock::Store(_)) => true,
                _ => exists|current: Option<RecoveryLease>|
                    token_check::<S::Error>(*token, current, now) == r,
            },
    {
        self.current_for_token(token, now)
    }

    /// Issues a dispatch permit under a current token for an initial dispatch
    /// or an allowed redispatch.
    pub fn authorize_attempt(
        &self,
        token: &FencingToken,
        decision: &RetryDecision,
        now: Timestamp,
    ) -> (r: Result<FencedAttemptPermit, RecoveryLeaseBlock<S::Error>>)
        ensures
            match r {
                Ok(permit) => {
                    &&& exists|current: Option<RecoveryLease>|
                        token_check::<S::Error>(*token, current, now) is Ok
                    &&& attempt_authorization::<S::Error>(*token, *decision) == Ok::<
                        u32,
                        RecoveryLeaseBlock<S::Error>,
                    >(permit.attempt_ordinal)
                    &&& permit.action_id == token.action_id
                    &&& permit.owner == token.owner
                    &&& permit.fencing_epoch == token.epoch
                    &&& permit.idempotency_key == decision.idempotency_key
                },
                Err(RecoveryLeaseBlock::Store(_)) => true,
                Err(e) => (exists|current: Option<RecoveryLease>|
                    token_check::<S::Error>(*token, current, now) == Err::<
                        RecoveryLease,
                        RecoveryLeaseBlock<S::Error>,
                    >(e)) || ((exists|current: Option<RecoveryLease>|
                    token_check::<S::Error>(*token, current, now) is Ok)
                    && attempt_authorization::<S::Error>(*token, *decision) == Err::<
                    u32,
                    RecoveryLeaseBlock<S::Error>,
                >(e)),
            },
    {
        self.current_for_token(token, now)?;
        if decision.action_id != token.action_id {
            return Err(RecoveryLeaseBlock::ActionMismatch);
        }
        let attempt_ordinal: u32 = match decision.verdict {
            RetryVerdict::InitialDispatchAllowed => 0,
            RetryVerdict::RedispatchAllowed { ordinal } => ordinal,
            _ => return Err(RecoveryLeaseBlock::DecisionDoesNotAuthorizeDispatch),
        };
        Ok(
            FencedAttemptPermit {
                action_id: token.action_id.clone(),
                owner: token.owner.clone(),
                fencing_epoch: token.epoch,
                attempt_ordinal,
                idempotency_key: decision.idempotency_key.clone(),
            },
        )
    }

    fn current_for_token(&self, token: &FencingToken, now: Timestamp) -> (r: Result<
        RecoveryLease,
        RecoveryLeaseBlock<S::Error>,
    >)
        ensures
            match r {
                Err(RecoveryLeaseBlock::Store(_)) => true,
                _ => exists|current: Option<RecoveryLease>|
                    token_check::<S::Error>(*token, current, now) == r,
            },
    {
        let current = match self.store.load(&token.action_id) {
            Ok(current) => current,
            Err(e) => return Err(RecoveryLeaseBlock::Store(e)),
        };
        check_token::<S::Error>(token, current, now)
    }
}

/// The version of the lease a table holds for `key`, if any.
pub open spec fn held_version(table: KeyedTable<RecoveryLease>, key: Seq<char>) -> Option<LeaseVersion> {
    match table.lookup(key) {
        Some(lease) => Some(lease.version),
        None => None,
    }
}

/// Reads the lease a table holds for `action_id`.
pub fn lease_lookup(table: &KeyedTable<RecoveryLease>, action_id: &ActionId) -> (r: Option<RecoveryLease>)
    ensures
        r == table.lookup(action_id@),
{
    match table.get(action_id) {
        Some(lease) => Some(lease.clone()),
        None => None,
    }
}

/// Atomic compare-and-swap on a lease table: installs `replacement` for
/// `action_id` exactly when the held version equals `expected`.
pub fn lease_compare_and_swap(
    table: KeyedTable<RecoveryLease>,
    action_id: &ActionId,
    expected: Option<LeaseVersion>,
    replacement: RecoveryLease,
) -> (r: (KeyedTable<RecoveryLease>, bool))
    ensures
        r.1 == (held_version(table, action_id@) == expected),
        r.1 ==> r.0.lookup(action_id@) == Some(replacement) && forall|q: Seq<char>|
            q != action_id@ ==> r.0.lookup(q) == table.lookup(q),
        !r.1 ==> r.0 == table,
{
    let current_version = match table.get(action_id) {
        Some(lease) => Some(lease.version),
        None => None,
    };
    if current_version != expected {
        return (table, false);
    }
    let mut table = table;
    table.insert(action_id.clone(), replacement);
    (table, true)
}

/// How a compare-and-swap of `action_id` against `expected` leaves a lease
/// table: it answers whether the held version equals `expected`, and exactly
/// then installs `replacement` for `action_id`, leaving every other action as
/// it was.
pub open spec fn lease_swap_outcome(
    before: KeyedTable<RecoveryLease>,
    after: KeyedTable<RecoveryLease>,
    action_id: Seq<char>,
    expected: Option<LeaseVersion>,
    replacement: RecoveryLease,
    swapped: bool,
) -> bool {
    &&& swapped == (held_version(before, action_id) == expected)
    &&& forall|q: Seq<char>| #[trigger] after.lookup(q) == if swapped && q == action_id {
        Some(replacement)
    } else {
        before.lookup(q)
    }
}

/// Some table, swapped as `lease_swap_outcome` says, gave the answer `swapped`.
pub open spec fn lease_swap_happened(
    action_id: Seq<char>,
    expected: Option<LeaseVersion>,
    replacement: RecoveryLease,
    swapped: bool,
) -> bool {
    exists|before: KeyedTable<RecoveryLease>, after: KeyedTable<RecoveryLease>|
        #[trigger] lease_swap_outcome(before, after, action_id, expected, replacement, swapped)
}

/// Reads the lease the locked table holds for `action_id`, leaving the table
/// as it is.
pub fn load_locked<'a>(locked: &LockedState<'a, KeyedTable<RecoveryLease>>, action_id: &ActionId) -> (r:
    Option<RecoveryLease>)
    ensures
        r == locked.held().lookup(action_id@),
{
    lease_lookup(held_state(locked), action_id)
}

/// Compares and swaps the lease of `action_id` in the locked table.
pub fn swap_locked<'a>(
    locked: &mut LockedState<'a, KeyedTable<RecoveryLease>>,
    action_id: &ActionId,
    expected: Option<LeaseVersion>,
    replacement: RecoveryLease,
) -> (swapped: bool)
    ensures
        lease_swap_outcome(
            old(locked).held(),
            final(locked).held(),
            action_id@,
            expected,
            replacement,
            swapped,
        ),
{
    let ghost replaced = replacement;
    let mut table = KeyedTable::new();
    std::mem::swap(held_state_mut(locked), &mut table);
    let (mut next, swapped) = lease_compare_and_swap(table, action_id, expected, replacement);
    assert forall|q: Seq<char>| #[trigger] next.lookup(q) == if swapped && q == action_id@ {
        Some(replaced)
    } else {
        table.lookup(q)
    } by {}
    std::mem::swap(held_state_mut(locked), &mut next);
    swapped
}

/// Process-local CAS store used by tests/examples.
///
/// This implementation is atomic only among users sharing the same in-process
/// lock. It is NOT a cross-process or distributed lease backend.
#[derive(Debug, Clone)]
pub struct InMemoryRecoveryLeaseStore {
    inner: Arc<Mutex<KeyedTable<RecoveryLease>>>,
}

impl Default for InMemoryRecoveryLeaseStore {
    fn default() -> Self {
        InMemoryRecoveryLeaseStore { inner: new_shared(KeyedTable::new()) }
    }
}

#[derive(Debug, Clone, Copy, PartialEq, Eq, Structural)]
pub enum InMemoryLeaseError {
    Poisoned,
    LockBusy,
}

impl RecoveryLeaseStore for InMemoryRecoveryLeaseStore {
    type Error = InMemoryLeaseError;

    fn load(&self, action_id: &ActionId) -> (r: Result<Option<RecoveryLease>, InMemoryLeaseError>)
        ensures
            r matches Ok(v) ==> exists|t: KeyedTable<RecoveryLease>| v == t.lookup(action_id@),
    {
        let locked = match lock_state(&self.inner) {
            Ok(locked) => locked,
            Err(LockFailure::Poisoned) => return Err(InMemoryLeaseError::Poisoned),
            Err(LockFailure::Busy) => return Err(InMemoryLeaseError::LockBusy),
        };
        Ok(load_locked(&locked, action_id))
    }

    fn compare_and_swap(
        &self,
        action_id: &ActionId,
        expected: Option<LeaseVersion>,
        replacement: RecoveryLease,
    ) -> (r: Result<bool, InMemoryLeaseError>)
        ensures
            r matches Ok(swapped) ==> lease_swap_happened(action_id@, expected, replacement, swapped),
    {
        let mut locked = match lock_state(&self.inner) {
            Ok(locked) => locked,
            Err(LockFailure::Poisoned) => return Err(InMemoryLeaseError::Poisoned),
            Err(LockFailure::Busy) => return Err(InMemoryLeaseError::LockBusy),
        };
        let ghost before = locked.held();
        let ghost replaced = replacement;
        let swapped = swap_locked(&mut locked, action_id, expected, replacement);
        assert(lease_swap_outcome(before, locked.held(), action_id@, expected, replaced, swapped));
        Ok(swapped)
    }
}

/// While the lease of an action is live, no other acquisition proceeds: the
/// acquirer is told who holds it, at which epoch, until when.
pub proof fn law_live_lease_blocks_acquisition<E>(
    action_id: ActionId,
    lease: RecoveryLease,
    now: Timestamp,
)
    requires
        lease.action_id@ == action_id@,
        lease.expires_at@ > now@,
    ensures
        acquisition::<E>(action_id, Some(lease), now) == Err::<
            (Option<LeaseVersion>, u64),
            RecoveryLeaseBlock<E>,
        >(
            RecoveryLeaseBlock::LeaseHeld {
                owner: lease.owner,
                epoch: lease.version.epoch,
                expires_at: lease.expires_at,
            },
        ),
{
}

/// Every acquisition installs a fencing epoch above the one it replaces:
/// epoch 1 on a fresh action, the next epoch after an expired lease, and it
/// compares against exactly the version it replaces.
pub proof fn law_acquisition_advances_epoch<E>(
    action_id: ActionId,
    current: Option<RecoveryLease>,
    now: Timestamp,
)
    ensures
        acquisition::<E>(action_id, current, now) matches Ok((expected, epoch)) ==> match current {
            None => epoch == 1 && expected is None,
            Some(lease) => epoch == lease.version.epoch + 1 && expected == Some(lease.version)
                && lease.expires_at@ <= now@,
        },
{
}

/// A token whose epoch is not the current lease's is refused as stale, so a
/// worker fenced off by a takeover cannot act under its old token.
pub proof fn law_superseded_token_is_stale<E>(token: FencingToken, lease: RecoveryLease, now: Timestamp)
    requires
        lease.action_id@ == token.action_id@,
        lease.version.epoch != token.epoch,
    ensures
        token_check::<E>(token, Some(lease), now) == Err::<RecoveryLease, RecoveryLeaseBlock<E>>(
            RecoveryLeaseBlock::StaleFence {
                presented_epoch: token.epoch,
                current_epoch: lease.version.epoch,
            },
        ),
{
}

/// A token passes only against the live lease it names: same action, epoch
/// and owner, not yet expired.
pub proof fn law_token_names_live_lease<E>(
    token: FencingToken,
    current: Option<RecoveryLease>,
    now: Timestamp,
)
    ensures
        token_check::<E>(token, current, now) matches Ok(lease) ==> current == Some(lease)
            && lease.action_id@ == token.action_id@ && lease.version.epoch == token.epoch
            && lease.owner@ == token.owner@ && lease.expires_at@ > now@,
{
}

/// A fenced dispatch is authorized only by a verdict that allows one: the
/// initial dispatch, as attempt 0, or a redispatch, as its ordinal. Any other
/// verdict (reconcile first, close, block) yields no permit and, for a
/// decision about the token's action, is refused as not authorizing dispatch.
pub proof fn law_only_dispatch_verdicts_authorize<E>(token: FencingToken, decision: RetryDecision)
    ensures
        attempt_authorization::<E>(token, decision) matches Ok(ordinal) ==> {
            ||| decision.verdict == RetryVerdict::InitialDispatchAllowed && ordinal == 0
            ||| decision.verdict == (RetryVerdict::RedispatchAllowed { ordinal })
        },
        decision.action_id@ == token.action_id@ && !(decision.verdict is InitialDispatchAllowed)
            && !(decision.verdict is RedispatchAllowed) ==> attempt_authorization::<E>(token, decision)
            == Err::<u32, RecoveryLeaseBlock<E>>(RecoveryLeaseBlock::DecisionDoesNotAuthorizeDispatch),
{
}

} // verus!
