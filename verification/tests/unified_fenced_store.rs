use lifetra::{
    ActionId, AuthorityTicket, BeadId, EvidenceStatus, ExecutionMode, FencedActuatorController,
    FencedActuatorOutcome, FencedActuatorReceipt, FencedActuatorRejection, FencedActuatorRequest,
    FencingToken, IdempotencyBinding, InMemoryActuatorAuthority, InMemoryFencedActuator,
    InMemoryUnifiedFencedStore, ReconciliationOutcome, RecoveryWorkerId, RetryDecision,
    RetryReason, RetryVerdict, Timestamp, UnifiedConfigBlock, UnifiedEffectOutcome,
    UnifiedFencedBlock, UnifiedFencedRuntime, UnifiedFencedStore, UnifiedFencingToken,
    UnifiedReconciliationObservation, UnifiedRuntimeDirective,
};

fn ticket() -> AuthorityTicket {
    AuthorityTicket {
        action_id: ActionId::new("action:unified:1").expect("action"),
        source_bead: BeadId::new("bead:unified:1"),
        execution_mode: ExecutionMode::Automatic,
        authority_proof_refs: vec!["proof:authority:unified".into()],
        issued_at: Timestamp::new(10),
    }
}

fn binding(ticket: &AuthorityTicket) -> IdempotencyBinding {
    IdempotencyBinding::new(ticket, "idem:unified:1").expect("binding")
}

fn worker(value: &str) -> RecoveryWorkerId {
    RecoveryWorkerId::new(value).expect("worker")
}

fn initial_decision(ticket: &AuthorityTicket) -> RetryDecision {
    RetryDecision {
        action_id: ticket.action_id.clone(),
        idempotency_key: "idem:unified:1".into(),
        verdict: RetryVerdict::InitialDispatchAllowed,
        reasons: vec![RetryReason::AuthorizedNotDispatched],
        proof_refs: ticket.authority_proof_refs.clone(),
    }
}

fn runtime() -> (
    UnifiedFencedRuntime<InMemoryUnifiedFencedStore>,
    AuthorityTicket,
) {
    let store = InMemoryUnifiedFencedStore::default();
    let runtime = UnifiedFencedRuntime::new(store);
    let ticket = ticket();
    runtime
        .create_action(&ticket, &binding(&ticket), "operation:unified:payout:1")
        .expect("create action");
    (runtime, ticket)
}

fn prepared(
    runtime: &UnifiedFencedRuntime<InMemoryUnifiedFencedStore>,
    ticket: &AuthorityTicket,
) -> (UnifiedFencingToken, lifetra::FencedAttemptPermit) {
    let token = runtime
        .acquire(
            &ticket.action_id,
            worker("worker-a"),
            Timestamp::new(100),
            30,
        )
        .expect("lease");
    let permit = runtime
        .prepare_attempt(
            &token,
            &initial_decision(ticket),
            Timestamp::new(101),
            Timestamp::new(101),
        )
        .expect("prepare");
    (token, permit)
}

#[test]
fn create_binds_operation_identity_once() {
    let (runtime, ticket) = runtime();
    let record = runtime.load(&ticket.action_id).expect("record");
    assert_eq!(record.binding.idempotency_key, "idem:unified:1");
    assert_eq!(record.binding.operation_ref, "operation:unified:payout:1");
    assert_eq!(record.revision, 0);
    assert_eq!(
        runtime.create_action(&ticket, &binding(&ticket), "operation:other"),
        Err(UnifiedFencedBlock::ActionAlreadyExists)
    );
}

#[test]
fn takeover_advances_epoch_and_stales_old_worker() {
    let (runtime, ticket) = runtime();
    let stale = runtime
        .acquire(
            &ticket.action_id,
            worker("worker-a"),
            Timestamp::new(100),
            10,
        )
        .expect("worker a");
    let current = runtime
        .acquire(
            &ticket.action_id,
            worker("worker-b"),
            Timestamp::new(111),
            20,
        )
        .expect("worker b");
    assert_eq!(stale.epoch, 1);
    assert_eq!(current.epoch, 2);
    assert_eq!(
        runtime.prepare_attempt(
            &stale,
            &initial_decision(&ticket),
            Timestamp::new(112),
            Timestamp::new(112),
        ),
        Err(UnifiedFencedBlock::StaleFence {
            presented_epoch: 1,
            current_epoch: 2,
        })
    );
}

#[test]
fn success_receipt_and_projection_commit_in_same_revision() {
    let (runtime, ticket) = runtime();
    let (_token, permit) = prepared(&runtime, &ticket);
    let before = runtime.load(&ticket.action_id).expect("before").revision;
    let receipt = FencedActuatorReceipt {
        request: FencedActuatorRequest::from_permit(&permit, "operation:unified:payout:1")
            .expect("request"),
        observed_at: Timestamp::new(102),
        outcome: FencedActuatorOutcome::Applied,
        proof_ref: "proof:unified:applied".into(),
    };
    let commit = runtime
        .record_actuator_receipt(&receipt)
        .expect("commit evidence");
    let record = runtime.load(&ticket.action_id).expect("after");
    assert!(commit.projected);
    assert_eq!(commit.record_revision, before + 1);
    assert_eq!(record.evidence.len(), 1);
    assert_eq!(record.projections.len(), 1);
    assert_eq!(
        record.evidence[0].proof_ref,
        record.projections[0].proof_ref
    );
}

#[test]
fn late_valid_receipt_from_prior_epoch_is_still_admitted_as_evidence() {
    let (runtime, ticket) = runtime();
    let stale = runtime
        .acquire(
            &ticket.action_id,
            worker("worker-a"),
            Timestamp::new(100),
            10,
        )
        .expect("worker a");
    let permit = runtime
        .prepare_attempt(
            &stale,
            &initial_decision(&ticket),
            Timestamp::new(101),
            Timestamp::new(101),
        )
        .expect("prepare");
    runtime
        .acquire(
            &ticket.action_id,
            worker("worker-b"),
            Timestamp::new(111),
            30,
        )
        .expect("worker b takeover");

    let receipt = FencedActuatorReceipt {
        request: FencedActuatorRequest::from_permit(&permit, "operation:unified:payout:1")
            .expect("request"),
        observed_at: Timestamp::new(109),
        outcome: FencedActuatorOutcome::Applied,
        proof_ref: "proof:unified:late-success".into(),
    };
    runtime
        .record_actuator_receipt(&receipt)
        .expect("past evidence remains admissible");
    assert_eq!(
        runtime.directive(&ticket.action_id).expect("directive"),
        UnifiedRuntimeDirective::CloseSucceeded {
            ordinal: 0,
            proof_ref: "proof:unified:late-success".into(),
        }
    );
}

#[test]
fn rejected_receipt_remains_reconcile_first() {
    let (runtime, ticket) = runtime();
    let (_token, permit) = prepared(&runtime, &ticket);
    let receipt = FencedActuatorReceipt {
        request: FencedActuatorRequest::from_permit(&permit, "operation:unified:payout:1")
            .expect("request"),
        observed_at: Timestamp::new(102),
        outcome: FencedActuatorOutcome::Rejected(FencedActuatorRejection::StaleEpoch {
            current_epoch: 2,
        }),
        proof_ref: "proof:unified:rejected".into(),
    };
    let commit = runtime
        .record_actuator_receipt(&receipt)
        .expect("record rejection");
    assert!(!commit.projected);
    assert_eq!(
        runtime.directive(&ticket.action_id).expect("directive"),
        UnifiedRuntimeDirective::Reconcile { ordinal: 0 }
    );
}

#[test]
fn no_effect_reconciliation_requires_proof_lineage_for_retry() {
    let (runtime, ticket) = runtime();
    let token = runtime
        .acquire(
            &ticket.action_id,
            worker("worker-a"),
            Timestamp::new(100),
            40,
        )
        .expect("lease");
    runtime
        .prepare_attempt(
            &token,
            &initial_decision(&ticket),
            Timestamp::new(101),
            Timestamp::new(101),
        )
        .expect("prepare zero");
    let observation = UnifiedReconciliationObservation {
        action_id: ticket.action_id.clone(),
        idempotency_key: "idem:unified:1".into(),
        operation_ref: "operation:unified:payout:1".into(),
        attempt_ordinal: 0,
        observed_at: Timestamp::new(102),
        outcome: ReconciliationOutcome::NoEffectConfirmed,
        proof_ref: "proof:unified:no-effect".into(),
    };
    runtime
        .record_reconciliation(&observation)
        .expect("no effect proof");
    let missing_lineage = RetryDecision {
        action_id: ticket.action_id.clone(),
        idempotency_key: "idem:unified:1".into(),
        verdict: RetryVerdict::RedispatchAllowed { ordinal: 1 },
        reasons: Vec::new(),
        proof_refs: Vec::new(),
    };
    assert_eq!(
        runtime.prepare_attempt(
            &token,
            &missing_lineage,
            Timestamp::new(103),
            Timestamp::new(103),
        ),
        Err(UnifiedFencedBlock::RetryProofLineageMissing)
    );

    let retry = RetryDecision {
        proof_refs: vec!["proof:unified:no-effect".into()],
        ..missing_lineage
    };
    let permit = runtime
        .prepare_attempt(&token, &retry, Timestamp::new(103), Timestamp::new(103))
        .expect("retry with lineage");
    assert_eq!(permit.attempt_ordinal, 1);
}

#[test]
fn identity_conflict_is_fail_closed() {
    let (runtime, ticket) = runtime();
    let (_token, permit) = prepared(&runtime, &ticket);
    let receipt = FencedActuatorReceipt {
        request: FencedActuatorRequest::from_permit(&permit, "operation:unified:payout:1")
            .expect("request"),
        observed_at: Timestamp::new(102),
        outcome: FencedActuatorOutcome::Rejected(FencedActuatorRejection::IdentityConflict),
        proof_ref: "proof:unified:identity-conflict".into(),
    };
    runtime
        .record_actuator_receipt(&receipt)
        .expect("record conflict");
    assert_eq!(
        runtime.directive(&ticket.action_id).expect("directive"),
        UnifiedRuntimeDirective::BlockIdentityConflict {
            proof_ref: "proof:unified:identity-conflict".into(),
        }
    );
}

#[test]
fn projected_success_can_seed_next_bead() {
    let (runtime, ticket) = runtime();
    let (_token, permit) = prepared(&runtime, &ticket);
    let receipt = FencedActuatorReceipt {
        request: FencedActuatorRequest::from_permit(&permit, "operation:unified:payout:1")
            .expect("request"),
        observed_at: Timestamp::new(102),
        outcome: FencedActuatorOutcome::Applied,
        proof_ref: "proof:unified:bead".into(),
    };
    runtime
        .record_actuator_receipt(&receipt)
        .expect("record success");
    let evidence = runtime
        .projected_supported_evidence(&ticket.action_id)
        .expect("evidence");
    let supported = evidence
        .iter()
        .filter(|item| item.status == EvidenceStatus::Supported)
        .count();
    assert_eq!(supported, 1);
    assert_eq!(evidence[0].id, "proof:unified:bead");
}

#[test]
fn direct_store_cas_makes_contention_visible() {
    let (runtime, ticket) = runtime();
    let store = runtime.store().clone();
    let record = runtime.load(&ticket.action_id).expect("record");
    let mut replacement = record.clone();
    replacement.revision = 1;
    assert!(!store
        .compare_and_swap(&ticket.action_id, Some(99), replacement)
        .expect("cas"));
}

#[test]
fn reference_actuator_can_feed_unified_store_without_duplicate_effect() {
    let (runtime, ticket) = runtime();
    let (_token, permit) = prepared(&runtime, &ticket);
    let actuator = InMemoryFencedActuator::default();
    actuator.set_time(Timestamp::new(102)).expect("time");
    actuator
        .install_authority(InMemoryActuatorAuthority {
            action_id: ticket.action_id.clone(),
            owner: permit.owner.clone(),
            epoch: permit.fencing_epoch,
            expires_at: Timestamp::new(130),
        })
        .expect("authority");
    let receipt = FencedActuatorController
        .execute(&permit, "operation:unified:payout:1", &actuator)
        .expect("apply");
    runtime
        .record_actuator_receipt(&receipt)
        .expect("store receipt");
    let duplicate = FencedActuatorController
        .execute(&permit, "operation:unified:payout:1", &actuator)
        .expect("duplicate observation");
    assert!(matches!(
        duplicate.outcome,
        FencedActuatorOutcome::AlreadyApplied { .. }
    ));
    runtime
        .record_actuator_receipt(&duplicate)
        .expect("store duplicate proof");
    assert_eq!(actuator.applied_count().expect("count"), 1);
}

#[test]
fn same_receipt_twice_is_a_duplicate_without_new_revision() {
    let (runtime, ticket) = runtime();
    let (_token, permit) = prepared(&runtime, &ticket);
    let receipt = FencedActuatorReceipt {
        request: FencedActuatorRequest::from_permit(&permit, "operation:unified:payout:1")
            .expect("request"),
        observed_at: Timestamp::new(102),
        outcome: FencedActuatorOutcome::Applied,
        proof_ref: "proof:unified:applied".into(),
    };
    let first = runtime.record_actuator_receipt(&receipt).expect("first");
    let second = runtime.record_actuator_receipt(&receipt).expect("second");
    assert!(!first.duplicate);
    assert!(second.duplicate);
    assert!(second.projected);
    assert_eq!(second.record_revision, first.record_revision);
    assert_eq!(second.outcome, UnifiedEffectOutcome::EffectSucceeded);
    let conflicting = FencedActuatorReceipt {
        outcome: FencedActuatorOutcome::Rejected(FencedActuatorRejection::WrongOwner),
        ..receipt
    };
    assert_eq!(
        runtime.record_actuator_receipt(&conflicting),
        Err(UnifiedFencedBlock::ConflictingProofIdentity)
    );
}

#[test]
fn configuration_and_identity_errors_are_reported() {
    let ticket = ticket();
    let runtime = UnifiedFencedRuntime::new(InMemoryUnifiedFencedStore::default());
    assert_eq!(
        runtime.create_action(&ticket, &binding(&ticket), "  "),
        Err(UnifiedFencedBlock::Config(UnifiedConfigBlock::EmptyOperationRef))
    );
    assert_eq!(
        runtime.load(&ticket.action_id),
        Err(UnifiedFencedBlock::ActionMissing)
    );
    let (runtime, ticket) = self::runtime();
    assert_eq!(
        runtime.acquire(&ticket.action_id, worker("worker-a"), Timestamp::new(1), 0),
        Err(UnifiedFencedBlock::Config(UnifiedConfigBlock::InvalidTtl))
    );
    let token = runtime
        .acquire(&ticket.action_id, worker("worker-a"), Timestamp::new(1), 5)
        .expect("lease");
    assert_eq!(
        runtime.acquire(&ticket.action_id, worker("worker-b"), Timestamp::new(2), 5),
        Err(UnifiedFencedBlock::LeaseHeld {
            owner: worker("worker-a"),
            epoch: 1,
            expires_at: Timestamp::new(6),
        })
    );
    let renewed = runtime.renew(&token, Timestamp::new(3), 10).expect("renew");
    assert_eq!(renewed.epoch, 1);
    assert_eq!(renewed.revision, 1);
    assert_eq!(renewed.expires_at, Timestamp::new(13));
    assert_eq!(
        runtime.renew(&token, Timestamp::new(13), 10),
        Err(UnifiedFencedBlock::LeaseExpired { epoch: 1 })
    );
    let fencing: FencingToken = token.clone().into();
    assert_eq!(fencing.epoch, 1);
    assert_eq!(fencing.owner, worker("worker-a"));
}

#[test]
fn dispatch_is_recorded_once_and_not_before_preparation() {
    let (runtime, ticket) = runtime();
    let (token, permit) = prepared(&runtime, &ticket);
    assert_eq!(
        runtime.record_dispatch(&token, &permit, Timestamp::new(105), " ", Timestamp::new(105)),
        Err(UnifiedFencedBlock::EmptyProof)
    );
    assert_eq!(
        runtime.record_dispatch(&token, &permit, Timestamp::new(100), "proof:d", Timestamp::new(105)),
        Err(UnifiedFencedBlock::ObservationBeforePreparation)
    );
    runtime
        .record_dispatch(&token, &permit, Timestamp::new(105), "proof:d", Timestamp::new(105))
        .expect("dispatch");
    assert_eq!(
        runtime.record_dispatch(&token, &permit, Timestamp::new(106), "proof:d2", Timestamp::new(106)),
        Err(UnifiedFencedBlock::DispatchAlreadyRecorded { ordinal: 0 })
    );
    let record = runtime.load(&ticket.action_id).expect("record");
    let dispatch = record.attempts[0].dispatch.clone().expect("dispatch evidence");
    assert_eq!(dispatch.proof_ref, "proof:d");
    assert_eq!(dispatch.dispatched_at, Timestamp::new(105));
    assert_eq!(
        runtime.directive(&ticket.action_id).expect("directive"),
        UnifiedRuntimeDirective::Reconcile { ordinal: 0 }
    );
}

#[test]
fn fresh_record_starts_empty_at_revision_zero() {
    let ticket = ticket();
    let binding = binding(&ticket);
    let record =
        lifetra::unified_fenced_store::plan_fresh_record(&ticket, &binding, "operation:unified:1");
    assert_eq!(record.binding.action_id, ticket.action_id);
    assert_eq!(record.binding.idempotency_key, "idem:unified:1");
    assert_eq!(record.binding.operation_ref, "operation:unified:1");
    assert_eq!(record.revision, 0);
    assert!(record.lease.is_none());
    assert!(record.attempts.is_empty());
    assert!(record.evidence.is_empty());
    assert!(record.projections.is_empty());
}
