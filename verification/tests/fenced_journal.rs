use lifetra::{
    check_permit, ActionId, AuthorityTicket, BeadId, ExecutionMode, FencedAttemptPermit,
    FencedDurableJournal, FencedJournalError, FencingToken, IdempotencyBinding,
    InMemoryLeaseError, InMemoryRecoveryLeaseStore, JournalCore, JournalError,
    ReconciliationOutcome, RecoveryLeaseBlock, RecoveryLeaseManager, RecoveryWorkerId,
    RetryDecision, RetryReason, RetryVerdict, Timestamp,
};

/// A fenced journal whose file is a byte buffer.
struct MemFenced {
    fenced: FencedDurableJournal<InMemoryRecoveryLeaseStore>,
    bytes: Vec<u8>,
}

type FenceError = FencedJournalError<InMemoryLeaseError>;

impl MemFenced {
    fn acquire(
        store: InMemoryRecoveryLeaseStore,
        owner: &str,
        now: i64,
        ttl: i64,
    ) -> Result<MemFenced, FenceError> {
        let (core, bytes) = journal();
        let fenced = FencedDurableJournal::acquire(
            core,
            store,
            worker(owner),
            Timestamp::new(now),
            ttl,
        )?;
        Ok(MemFenced { fenced, bytes })
    }

    fn prepare_attempt(
        &mut self,
        decision: &RetryDecision,
        prepared_at: i64,
        now: i64,
    ) -> Result<FencedAttemptPermit, FenceError> {
        let (permit, append) = self.fenced.prepare_attempt(
            &self.bytes,
            decision,
            Timestamp::new(prepared_at),
            Timestamp::new(now),
        )?;
        self.bytes.extend_from_slice(append.line.as_bytes());
        self.fenced.commit(&append);
        Ok(permit)
    }

    fn record_dispatch(
        &mut self,
        permit: &FencedAttemptPermit,
        at: i64,
        proof: &str,
        now: i64,
    ) -> Result<(), FenceError> {
        let append = self.fenced.record_dispatch(
            &self.bytes,
            permit,
            Timestamp::new(at),
            proof,
            Timestamp::new(now),
        )?;
        self.bytes.extend_from_slice(append.line.as_bytes());
        self.fenced.commit(&append);
        Ok(())
    }

    fn recover(&self) -> lifetra::RecoveredRuntime {
        self.fenced
            .journal()
            .recover(&self.bytes)
            .expect("replay")
    }
}

fn action_id() -> ActionId {
    ActionId::new("action:fence:1").expect("valid action")
}

fn worker(value: &str) -> RecoveryWorkerId {
    RecoveryWorkerId::new(value).expect("valid worker")
}

fn journal() -> (JournalCore, Vec<u8>) {
    let ticket = AuthorityTicket {
        action_id: action_id(),
        source_bead: BeadId::new("bead:fence:1"),
        execution_mode: ExecutionMode::Automatic,
        authority_proof_refs: vec!["proof:authority:fence".into()],
        issued_at: Timestamp::new(10),
    };
    let binding = IdempotencyBinding::new(&ticket, "idem:fence:1").expect("binding");
    let (mut core, append) = JournalCore::create(ticket, binding).expect("journal");
    let bytes = append.line.as_bytes().to_vec();
    core.commit(&append);
    (core, bytes)
}

fn initial_decision() -> RetryDecision {
    RetryDecision {
        action_id: action_id(),
        idempotency_key: "idem:fence:1".into(),
        verdict: RetryVerdict::InitialDispatchAllowed,
        reasons: vec![RetryReason::AuthorizedNotDispatched],
        proof_refs: vec!["proof:authority:fence".into()],
    }
}

#[test]
fn stale_worker_cannot_record_dispatch_after_takeover() {
    let store = InMemoryRecoveryLeaseStore::default();
    let mut fenced =
        MemFenced::acquire(store.clone(), "worker-a", 100, 10).expect("worker a acquires");
    let permit = fenced
        .prepare_attempt(&initial_decision(), 101, 101)
        .expect("prepared under current fence");

    let takeover = RecoveryLeaseManager::new(store)
        .acquire(&action_id(), worker("worker-b"), Timestamp::new(111), 20)
        .expect("worker b takes over");
    assert_eq!(takeover.epoch, 2);

    let blocked = fenced.record_dispatch(&permit, 112, "proof:dispatch:stale", 112);
    assert!(matches!(
        blocked,
        Err(FencedJournalError::Lease(RecoveryLeaseBlock::StaleFence {
            presented_epoch: 1,
            current_epoch: 2,
        }))
    ));
    assert!(fenced.recover().pending_prepared.is_some());
}

#[test]
fn permit_carries_epoch_but_is_not_dispatch_evidence() {
    let store = InMemoryRecoveryLeaseStore::default();
    let mut fenced = MemFenced::acquire(store, "worker-a", 100, 30).expect("acquire");
    let permit = fenced
        .prepare_attempt(&initial_decision(), 101, 101)
        .expect("prepare");

    assert_eq!(permit.fencing_epoch, 1);
    assert_eq!(permit.attempt_ordinal, 0);
    let recovered = fenced.recover();
    assert!(recovered.ledger.attempts().is_empty());
    assert!(recovered.pending_prepared.is_some());
}

#[test]
fn dispatch_under_the_current_fence_is_recorded() {
    let store = InMemoryRecoveryLeaseStore::default();
    let mut fenced = MemFenced::acquire(store, "worker-a", 100, 30).expect("acquire");
    let permit = fenced
        .prepare_attempt(&initial_decision(), 101, 101)
        .expect("prepare");
    fenced
        .record_dispatch(&permit, 102, "proof:dispatch:0", 102)
        .expect("dispatch");
    let recovered = fenced.recover();
    assert_eq!(recovered.ledger.attempts().len(), 1);
    assert!(recovered.pending_prepared.is_none());
}

#[test]
fn permit_of_another_owner_or_epoch_is_refused() {
    let token = FencingToken {
        action_id: action_id(),
        owner: worker("worker-a"),
        epoch: 3,
    };
    let permit = FencedAttemptPermit {
        action_id: action_id(),
        owner: worker("worker-b"),
        fencing_epoch: 3,
        attempt_ordinal: 0,
        idempotency_key: "idem:fence:1".into(),
    };
    assert_eq!(
        check_permit::<InMemoryLeaseError>(&token, &permit),
        Err(FencedJournalError::PermitOwnerMismatch)
    );
    let permit = FencedAttemptPermit {
        owner: worker("worker-a"),
        fencing_epoch: 2,
        ..permit
    };
    assert_eq!(
        check_permit::<InMemoryLeaseError>(&token, &permit),
        Err(FencedJournalError::PermitEpochMismatch)
    );
    let permit = FencedAttemptPermit {
        action_id: ActionId::new("action:other").expect("action"),
        fencing_epoch: 3,
        ..permit
    };
    assert_eq!(
        check_permit::<InMemoryLeaseError>(&token, &permit),
        Err(FencedJournalError::PermitActionMismatch)
    );
}

#[test]
fn expired_lease_blocks_reconciliation_records() {
    let store = InMemoryRecoveryLeaseStore::default();
    let mut fenced = MemFenced::acquire(store, "worker-a", 100, 10).expect("acquire");
    fenced
        .prepare_attempt(&initial_decision(), 101, 101)
        .expect("prepare");
    let late = fenced.fenced.record_reconciliation(
        &fenced.bytes,
        0,
        Timestamp::new(120),
        ReconciliationOutcome::NoEffectConfirmed,
        "proof:late",
        Timestamp::new(120),
    );
    assert!(matches!(
        late,
        Err(FencedJournalError::Lease(RecoveryLeaseBlock::LeaseExpired { epoch: 1 }))
    ));
    let empty = fenced.fenced.record_reconciliation(
        &fenced.bytes,
        0,
        Timestamp::new(105),
        ReconciliationOutcome::NoEffectConfirmed,
        " ",
        Timestamp::new(105),
    );
    assert!(matches!(
        empty,
        Err(FencedJournalError::Journal(JournalError::EmptyProof))
    ));
}
