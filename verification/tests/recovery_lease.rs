use lifetra::{
    ActionId, InMemoryRecoveryLeaseStore, LeaseConfigBlock, RecoveryLeaseBlock,
    RecoveryLeaseManager, RecoveryWorkerId, RetryDecision, RetryReason, RetryVerdict, Timestamp,
};

fn action_id() -> ActionId {
    ActionId::new("action:fence:1").expect("valid action")
}

fn worker(value: &str) -> RecoveryWorkerId {
    RecoveryWorkerId::new(value).expect("valid worker")
}

#[test]
fn active_lease_blocks_second_worker() {
    let store = InMemoryRecoveryLeaseStore::default();
    let a = RecoveryLeaseManager::new(store.clone());
    let b = RecoveryLeaseManager::new(store);
    let action = action_id();
    let token = a
        .acquire(&action, worker("worker-a"), Timestamp::new(100), 30)
        .expect("worker a acquires");

    let blocked = b.acquire(&action, worker("worker-b"), Timestamp::new(110), 30);
    assert!(matches!(blocked, Err(RecoveryLeaseBlock::LeaseHeld { epoch: 1, .. })));
    assert_eq!(token.epoch, 1);
}

#[test]
fn expired_lease_reacquisition_increments_fencing_epoch() {
    let store = InMemoryRecoveryLeaseStore::default();
    let a = RecoveryLeaseManager::new(store.clone());
    let b = RecoveryLeaseManager::new(store);
    let action = action_id();
    let stale = a
        .acquire(&action, worker("worker-a"), Timestamp::new(100), 10)
        .expect("worker a acquires");
    let current = b
        .acquire(&action, worker("worker-b"), Timestamp::new(111), 20)
        .expect("worker b acquires after expiry");

    assert_eq!(stale.epoch, 1);
    assert_eq!(current.epoch, 2);
    assert_eq!(
        a.assert_current(&stale, Timestamp::new(112)),
        Err(RecoveryLeaseBlock::StaleFence {
            presented_epoch: 1,
            current_epoch: 2,
        })
    );
}

#[test]
fn renewal_keeps_epoch_and_advances_revision() {
    let store = InMemoryRecoveryLeaseStore::default();
    let manager = RecoveryLeaseManager::new(store);
    let action = action_id();
    let token = manager
        .acquire(&action, worker("worker-a"), Timestamp::new(100), 10)
        .expect("acquire");
    let renewed = manager.renew(&token, Timestamp::new(105), 20).expect("renew");

    assert_eq!(renewed.version.epoch, 1);
    assert_eq!(renewed.version.revision, 1);
    assert_eq!(renewed.expires_at, Timestamp::new(125));
    manager
        .assert_current(&token, Timestamp::new(120))
        .expect("same fence remains current after renewal");
}

#[test]
fn invalid_ttl_and_expired_token_are_refused() {
    let manager = RecoveryLeaseManager::new(InMemoryRecoveryLeaseStore::default());
    let action = action_id();
    assert_eq!(
        manager.acquire(&action, worker("worker-a"), Timestamp::new(100), 0),
        Err(RecoveryLeaseBlock::Config(LeaseConfigBlock::InvalidTtl))
    );
    assert_eq!(
        manager.acquire(&action, worker("worker-a"), Timestamp::new(i64::MAX - 1), 5),
        Err(RecoveryLeaseBlock::Config(LeaseConfigBlock::InvalidTtl))
    );
    let token = manager
        .acquire(&action, worker("worker-a"), Timestamp::new(100), 10)
        .expect("acquire");
    assert_eq!(
        manager.assert_current(&token, Timestamp::new(110)),
        Err(RecoveryLeaseBlock::LeaseExpired { epoch: 1 })
    );
    let mut foreign = token.clone();
    foreign.owner = worker("worker-z");
    assert_eq!(
        manager.assert_current(&foreign, Timestamp::new(105)),
        Err(RecoveryLeaseBlock::WrongOwner)
    );
    let other = ActionId::new("action:other").unwrap();
    let mut missing = token.clone();
    missing.action_id = other;
    assert_eq!(
        manager.assert_current(&missing, Timestamp::new(105)),
        Err(RecoveryLeaseBlock::LeaseMissing)
    );
    assert_eq!(
        RecoveryWorkerId::new(" \t"),
        Err(LeaseConfigBlock::EmptyWorkerId)
    );
}

#[test]
fn permit_carries_epoch_and_ordinal_of_the_decision() {
    let manager = RecoveryLeaseManager::new(InMemoryRecoveryLeaseStore::default());
    let action = action_id();
    let token = manager
        .acquire(&action, worker("worker-a"), Timestamp::new(100), 30)
        .expect("acquire");
    let initial = RetryDecision {
        action_id: action.clone(),
        idempotency_key: "idem:fence:1".into(),
        verdict: RetryVerdict::InitialDispatchAllowed,
        reasons: vec![RetryReason::AuthorizedNotDispatched],
        proof_refs: vec!["proof:authority:fence".into()],
    };
    let permit = manager
        .authorize_attempt(&token, &initial, Timestamp::new(101))
        .expect("permit");
    assert_eq!(permit.fencing_epoch, 1);
    assert_eq!(permit.attempt_ordinal, 0);
    assert_eq!(permit.idempotency_key, "idem:fence:1");
    let redispatch = RetryDecision {
        verdict: RetryVerdict::RedispatchAllowed { ordinal: 3 },
        ..initial.clone()
    };
    assert_eq!(
        manager
            .authorize_attempt(&token, &redispatch, Timestamp::new(101))
            .expect("permit")
            .attempt_ordinal,
        3
    );
    let closed = RetryDecision {
        verdict: RetryVerdict::CloseSucceeded,
        ..initial
    };
    assert_eq!(
        manager.authorize_attempt(&token, &closed, Timestamp::new(101)),
        Err(RecoveryLeaseBlock::DecisionDoesNotAuthorizeDispatch)
    );
}

#[test]
fn acquired_lease_starts_the_epoch_at_its_first_revision() {
    let lease = lifetra::recovery_lease::plan_acquired_lease(
        &action_id(),
        &worker("worker-a"),
        3,
        Timestamp::new(100),
        30,
    )
    .expect("positive ttl");
    assert_eq!(lease.action_id, action_id());
    assert_eq!(lease.owner, worker("worker-a"));
    assert_eq!(lease.version, lifetra::LeaseVersion { epoch: 3, revision: 0 });
    assert_eq!(lease.expires_at, Timestamp::new(130));

    assert_eq!(
        lifetra::recovery_lease::plan_acquired_lease(
            &action_id(),
            &worker("worker-a"),
            3,
            Timestamp::new(100),
            0,
        ),
        Err(LeaseConfigBlock::InvalidTtl)
    );
}

#[test]
fn renewed_lease_keeps_epoch_and_takes_next_revision() {
    let held = lifetra::RecoveryLease {
        action_id: action_id(),
        owner: worker("worker-a"),
        version: lifetra::LeaseVersion { epoch: 2, revision: 4 },
        expires_at: Timestamp::new(110),
    };
    let renewed = lifetra::recovery_lease::plan_renewed_lease::<()>(
        &held,
        Timestamp::new(105),
        20,
        Timestamp::new(125),
    )
    .expect("revision has a successor");
    assert_eq!(renewed.version, lifetra::LeaseVersion { epoch: 2, revision: 5 });
    assert_eq!(renewed.expires_at, Timestamp::new(125));
    assert_eq!(renewed.owner, worker("worker-a"));

    let exhausted = lifetra::RecoveryLease {
        version: lifetra::LeaseVersion { epoch: 2, revision: u64::MAX },
        ..held
    };
    assert_eq!(
        lifetra::recovery_lease::plan_renewed_lease::<()>(
            &exhausted,
            Timestamp::new(105),
            20,
            Timestamp::new(125),
        ),
        Err(RecoveryLeaseBlock::RevisionOverflow)
    );
}
