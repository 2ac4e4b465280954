use lifetra::{
    ActionId, FencedActuatorAdapter, FencedActuatorController, FencedActuatorError,
    FencedActuatorOutcome, FencedActuatorReceipt, FencedActuatorRejection, FencedActuatorRequest,
    FencedAttemptPermit, InMemoryActuatorAuthority, InMemoryFencedActuator,
    InMemoryFencedActuatorError, RecoveryWorkerId,
    Timestamp,
};

fn action() -> ActionId {
    ActionId::new("action:actuator:1").expect("valid action")
}

fn owner(value: &str) -> RecoveryWorkerId {
    RecoveryWorkerId::new(value).expect("valid owner")
}

fn permit(epoch: u64, owner_name: &str, ordinal: u32) -> FencedAttemptPermit {
    FencedAttemptPermit {
        action_id: action(),
        owner: owner(owner_name),
        fencing_epoch: epoch,
        attempt_ordinal: ordinal,
        idempotency_key: "idem:actuator:1".into(),
    }
}

fn authority(epoch: u64, owner_name: &str, expires_at: i64) -> InMemoryActuatorAuthority {
    InMemoryActuatorAuthority {
        action_id: action(),
        owner: owner(owner_name),
        epoch,
        expires_at: Timestamp::new(expires_at),
    }
}

#[test]
fn request_preserves_permit_identity_and_operation_reference() {
    let request = FencedActuatorRequest::from_permit(&permit(7, "worker-a", 2), "op:digest:1")
        .expect("request");

    assert_eq!(request.action_id, action());
    assert_eq!(request.owner, owner("worker-a"));
    assert_eq!(request.fencing_epoch, 7);
    assert_eq!(request.attempt_ordinal, 2);
    assert_eq!(request.idempotency_key, "idem:actuator:1");
    assert_eq!(request.operation_ref, "op:digest:1");
}

#[test]
fn current_epoch_applies_effect_once() {
    let actuator = InMemoryFencedActuator::default();
    actuator.set_time(Timestamp::new(100)).expect("time");
    actuator
        .install_authority(authority(1, "worker-a", 130))
        .expect("authority");
    let controller = FencedActuatorController;

    let receipt = controller
        .execute(&permit(1, "worker-a", 0), "op:digest:1", &actuator)
        .expect("apply");
    assert_eq!(receipt.outcome, FencedActuatorOutcome::Applied);
    assert_eq!(actuator.applied_count().expect("count"), 1);
}

#[test]
fn duplicate_same_identity_is_not_applied_twice() {
    let actuator = InMemoryFencedActuator::default();
    actuator.set_time(Timestamp::new(100)).expect("time");
    actuator
        .install_authority(authority(1, "worker-a", 130))
        .expect("authority");
    let controller = FencedActuatorController;
    controller
        .execute(&permit(1, "worker-a", 0), "op:digest:1", &actuator)
        .expect("first apply");

    let duplicate = controller
        .execute(&permit(1, "worker-a", 0), "op:digest:1", &actuator)
        .expect("duplicate observation");
    assert_eq!(
        duplicate.outcome,
        FencedActuatorOutcome::AlreadyApplied {
            applied_epoch: 1,
            applied_attempt_ordinal: 0,
        }
    );
    assert_eq!(actuator.applied_count().expect("count"), 1);
}

#[test]
fn stale_epoch_is_rejected_after_new_authority_is_installed() {
    let actuator = InMemoryFencedActuator::default();
    actuator.set_time(Timestamp::new(112)).expect("time");
    actuator
        .install_authority(authority(1, "worker-a", 110))
        .expect("old authority");
    let stale_permit = permit(1, "worker-a", 0);
    actuator
        .install_authority(authority(2, "worker-b", 140))
        .expect("takeover authority");

    let receipt = FencedActuatorController
        .execute(&stale_permit, "op:digest:1", &actuator)
        .expect("stale rejection is a receipt");
    assert_eq!(
        receipt.outcome,
        FencedActuatorOutcome::Rejected(FencedActuatorRejection::StaleEpoch { current_epoch: 2 })
    );
    assert_eq!(actuator.applied_count().expect("count"), 0);
}

#[test]
fn future_unissued_epoch_is_rejected() {
    let actuator = InMemoryFencedActuator::default();
    actuator.set_time(Timestamp::new(100)).expect("time");
    actuator
        .install_authority(authority(2, "worker-b", 140))
        .expect("authority");

    let receipt = FencedActuatorController
        .execute(&permit(3, "worker-c", 0), "op:digest:1", &actuator)
        .expect("future rejection is a receipt");
    assert_eq!(
        receipt.outcome,
        FencedActuatorOutcome::Rejected(FencedActuatorRejection::FutureEpoch { current_epoch: 2 })
    );
    assert_eq!(actuator.applied_count().expect("count"), 0);
}

#[test]
fn higher_epoch_same_identity_observes_prior_effect_without_reapplying() {
    let actuator = InMemoryFencedActuator::default();
    actuator.set_time(Timestamp::new(100)).expect("time");
    actuator
        .install_authority(authority(1, "worker-a", 110))
        .expect("authority one");
    let controller = FencedActuatorController;
    controller
        .execute(&permit(1, "worker-a", 0), "op:digest:1", &actuator)
        .expect("first apply");

    actuator.set_time(Timestamp::new(112)).expect("time");
    actuator
        .install_authority(authority(2, "worker-b", 140))
        .expect("authority two");
    let replay = controller
        .execute(&permit(2, "worker-b", 1), "op:digest:1", &actuator)
        .expect("replay observation");

    assert_eq!(
        replay.outcome,
        FencedActuatorOutcome::AlreadyApplied {
            applied_epoch: 1,
            applied_attempt_ordinal: 0,
        }
    );
    assert_eq!(actuator.applied_count().expect("count"), 1);
}

#[test]
fn operation_identity_cannot_change_under_same_action() {
    let actuator = InMemoryFencedActuator::default();
    actuator.set_time(Timestamp::new(100)).expect("time");
    actuator
        .install_authority(authority(1, "worker-a", 110))
        .expect("authority one");
    let controller = FencedActuatorController;
    controller
        .execute(&permit(1, "worker-a", 0), "op:digest:1", &actuator)
        .expect("first apply");

    actuator.set_time(Timestamp::new(112)).expect("time");
    actuator
        .install_authority(authority(2, "worker-b", 140))
        .expect("authority two");
    let changed = controller
        .execute(&permit(2, "worker-b", 1), "op:digest:DIFFERENT", &actuator)
        .expect("identity rejection is a receipt");

    assert_eq!(
        changed.outcome,
        FencedActuatorOutcome::Rejected(FencedActuatorRejection::IdentityConflict)
    );
    assert_eq!(actuator.applied_count().expect("count"), 1);
}

#[test]
fn wrong_owner_and_expired_authority_are_rejected_before_effect() {
    let actuator = InMemoryFencedActuator::default();
    actuator.set_time(Timestamp::new(100)).expect("time");
    actuator
        .install_authority(authority(1, "worker-a", 105))
        .expect("authority");

    let wrong_owner = FencedActuatorController
        .execute(&permit(1, "worker-b", 0), "op:digest:1", &actuator)
        .expect("wrong owner receipt");
    assert_eq!(
        wrong_owner.outcome,
        FencedActuatorOutcome::Rejected(FencedActuatorRejection::WrongOwner)
    );

    actuator.set_time(Timestamp::new(105)).expect("time");
    let expired = FencedActuatorController
        .execute(&permit(1, "worker-a", 0), "op:digest:1", &actuator)
        .expect("expired receipt");
    assert_eq!(
        expired.outcome,
        FencedActuatorOutcome::Rejected(FencedActuatorRejection::LeaseExpired { current_epoch: 1 })
    );
    assert_eq!(actuator.applied_count().expect("count"), 0);
}

#[derive(Debug)]
struct BadReceiptAdapter;

impl FencedActuatorAdapter for BadReceiptAdapter {
    type Error = ();

    fn execute(
        &self,
        request: &FencedActuatorRequest,
    ) -> Result<FencedActuatorReceipt, Self::Error> {
        let mut wrong = request.clone();
        wrong.attempt_ordinal += 1;
        Ok(FencedActuatorReceipt {
            request: wrong,
            observed_at: Timestamp::new(1),
            outcome: FencedActuatorOutcome::Applied,
            proof_ref: "proof:bad".into(),
        })
    }
}

#[test]
fn controller_rejects_receipt_identity_mismatch() {
    let result = FencedActuatorController.execute(
        &permit(1, "worker-a", 0),
        "op:digest:1",
        &BadReceiptAdapter,
    );

    assert_eq!(result, Err(FencedActuatorError::ReceiptIdentityMismatch));
}

#[test]
fn in_memory_receipt_proof_reference_names_action_and_sequence() {
    let actuator = InMemoryFencedActuator::default();
    actuator.set_time(Timestamp::new(100)).expect("time");
    actuator
        .install_authority(authority(1, "worker-a", 130))
        .expect("authority");
    let first = FencedActuatorController
        .execute(&permit(1, "worker-a", 0), "op:digest:1", &actuator)
        .expect("apply");
    let second = FencedActuatorController
        .execute(&permit(1, "worker-a", 0), "op:digest:1", &actuator)
        .expect("observe");
    assert_eq!(
        first.proof_ref,
        "proof:in-memory-fenced-actuator:action:actuator:1:1"
    );
    assert_eq!(
        second.proof_ref,
        "proof:in-memory-fenced-actuator:action:actuator:1:2"
    );
    assert_eq!(first.observed_at, Timestamp::new(100));
}

#[test]
fn authority_regression_and_same_epoch_owner_conflict_are_refused() {
    let actuator = InMemoryFencedActuator::default();
    actuator
        .install_authority(authority(2, "worker-a", 130))
        .expect("authority");
    assert_eq!(
        actuator.install_authority(authority(1, "worker-a", 130)),
        Err(InMemoryFencedActuatorError::AuthorityRegression)
    );
    assert_eq!(
        actuator.install_authority(authority(2, "worker-b", 130)),
        Err(InMemoryFencedActuatorError::ConflictingOwnerAtSameEpoch)
    );
    actuator
        .install_authority(authority(2, "worker-a", 150))
        .expect("same owner may extend");
}

#[test]
fn execute_without_authority_is_an_adapter_error() {
    let actuator = InMemoryFencedActuator::default();
    assert_eq!(
        FencedActuatorController.execute(&permit(1, "worker-a", 0), "op:digest:1", &actuator),
        Err(FencedActuatorError::Adapter(
            InMemoryFencedActuatorError::AuthorityMissing
        ))
    );
    assert_eq!(
        FencedActuatorController.execute(&permit(1, "worker-a", 0), "   ", &actuator),
        Err(FencedActuatorError::Config(
            lifetra::FencedActuatorConfigBlock::EmptyOperationRef
        ))
    );
}

#[test]
fn installed_authority_never_moves_back() {
    let actuator = InMemoryFencedActuator::default();
    actuator
        .install_authority(authority(2, "worker-a", 140))
        .expect("first authority");
    assert_eq!(
        actuator.install_authority(authority(1, "worker-b", 150)),
        Err(InMemoryFencedActuatorError::AuthorityRegression)
    );
    assert_eq!(
        actuator.install_authority(authority(2, "worker-b", 150)),
        Err(InMemoryFencedActuatorError::ConflictingOwnerAtSameEpoch)
    );
    actuator
        .install_authority(authority(2, "worker-a", 160))
        .expect("same owner may extend its epoch");
    actuator
        .install_authority(authority(3, "worker-b", 170))
        .expect("a later epoch takes over");
    assert_eq!(
        actuator.install_authority(authority(2, "worker-a", 180)),
        Err(InMemoryFencedActuatorError::AuthorityRegression)
    );
}
