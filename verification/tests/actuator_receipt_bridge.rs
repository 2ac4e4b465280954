use lifetra::actuator_receipt_bridge::{
    bridge_binding, evidence_with_sequence, journal_contains_proof, project_evidence,
    recovery_query_for, validate_journal_identity, validate_permit_identity, validate_receipt,
    validate_recovery_observation, EvidenceProjection,
};
use lifetra::bridge_format::{
    binding_from_records, decode_bridge_event, encode_bridge_event, entry_sequence,
    next_sequence, read_bridge_records, recover_bridge, BridgeEvent, BridgeRecord,
};
use lifetra::{
    ActionId, ActuatorBridgeBinding, ActuatorBridgeError, ActuatorRecoveryAdapter,
    ActuatorRecoveryObservation, ActuatorRecoveryOutcome, ActuatorRecoveryQuery, AuthorityTicket,
    BeadId, DurableActuatorEvidence, EvidenceStatus, ExecutionMode, ExecutionOutcome,
    FencedActuatorController, FencedActuatorOutcome, FencedActuatorReceipt,
    FencedActuatorRejection, FencedActuatorRequest, FencedAttemptPermit, FencedDurableJournal,
    FencedJournalError, IdempotencyBinding, InMemoryActuatorAuthority, InMemoryFencedActuator,
    InMemoryLeaseError, InMemoryRecoveryLeaseStore, JournalAppend, JournalCore,
    PreparedActuatorCall, RecoveredActuatorBridge, RecoveryDirective, RecoveryWorkerId,
    RetryDecision, RetryReason, RetryVerdict, Timestamp,
};

type Fenced = FencedDurableJournal<InMemoryRecoveryLeaseStore>;
type FencedError = FencedJournalError<InMemoryLeaseError>;

/// A fenced journal whose file is a byte buffer.
struct MemFenced {
    fenced: Fenced,
    bytes: Vec<u8>,
}

impl MemFenced {
    fn append(&mut self, append: JournalAppend) {
        self.bytes.extend_from_slice(append.line.as_bytes());
        self.fenced.commit(&append);
    }

    fn record_dispatch(
        &mut self,
        permit: &FencedAttemptPermit,
        at: i64,
        proof: &str,
        now: i64,
    ) -> Result<(), FencedError> {
        let append = self.fenced.record_dispatch(
            &self.bytes,
            permit,
            Timestamp::new(at),
            proof,
            Timestamp::new(now),
        )?;
        self.append(append);
        Ok(())
    }

    fn recover(&self) -> lifetra::RecoveredRuntime {
        self.fenced
            .journal()
            .recover(&self.bytes)
            .expect("journal recovery")
    }
}

/// A bridge whose directory is a list of (sequence, file text) entries.
struct MemBridge {
    entries: Vec<(u64, String)>,
    binding: ActuatorBridgeBinding,
    next_sequence: u64,
}

impl MemBridge {
    fn create(journal: &JournalCore, operation_ref: &str) -> Result<MemBridge, ActuatorBridgeError> {
        let binding = bridge_binding(journal, operation_ref)?;
        let mut bridge = MemBridge {
            entries: Vec::new(),
            binding: binding.clone(),
            next_sequence: 0,
        };
        bridge.append_event(&BridgeEvent::Binding(binding));
        Ok(bridge)
    }

    fn open(entries: Vec<(u64, String)>) -> Result<MemBridge, ActuatorBridgeError> {
        let records = read_bridge_records(entries.clone())?;
        let binding = binding_from_records(&records)?;
        let next_sequence = next_sequence(&records);
        Ok(MemBridge {
            entries,
            binding,
            next_sequence,
        })
    }

    fn append_event(&mut self, event: &BridgeEvent) -> u64 {
        let sequence = self.next_sequence;
        let mut text = encode_bridge_event(event);
        text.push('\n');
        self.entries.push((sequence, text));
        self.next_sequence += 1;
        sequence
    }

    fn recover(&self) -> Result<RecoveredActuatorBridge, ActuatorBridgeError> {
        let records = read_bridge_records(self.entries.clone())?;
        recover_bridge(&records)
    }

    fn prepare(
        &mut self,
        journal: &mut MemFenced,
        decision: &RetryDecision,
        prepared_at: i64,
        now: i64,
    ) -> FencedAttemptPermit {
        validate_journal_identity(&self.binding, journal.fenced.journal()).expect("identity");
        let (permit, append) = journal
            .fenced
            .prepare_attempt(
                &journal.bytes,
                decision,
                Timestamp::new(prepared_at),
                Timestamp::new(now),
            )
            .expect("prepare");
        journal.append(append);
        validate_permit_identity(&self.binding, &permit).expect("permit identity");
        self.append_event(&BridgeEvent::Prepared(PreparedActuatorCall {
            permit: permit.clone(),
            prepared_at: Timestamp::new(prepared_at),
        }));
        permit
    }

    fn persist_receipt(&mut self, receipt: &FencedActuatorReceipt) -> Result<u64, ActuatorBridgeError> {
        let state = self.recover()?;
        validate_receipt(&self.binding, &state, receipt)?;
        Ok(self.append_event(&BridgeEvent::Receipt(receipt.clone())))
    }

    fn recovery_query(
        &self,
        journal: &JournalCore,
        bytes: &[u8],
    ) -> Result<ActuatorRecoveryQuery, ActuatorBridgeError> {
        validate_journal_identity(&self.binding, journal)?;
        let journal_state = journal.recover(bytes)?;
        let state = self.recover()?;
        recovery_query_for(&self.binding, &state, &journal_state)
    }

    fn reconcile_after_crash(
        &mut self,
        journal: &JournalCore,
        bytes: &[u8],
        adapter: &InMemoryFencedActuator,
        observed_at: i64,
    ) -> ActuatorRecoveryObservation {
        let query = self.recovery_query(journal, bytes).expect("query");
        let observation = adapter
            .reconcile(&query, Timestamp::new(observed_at))
            .expect("adapter");
        let state = self.recover().expect("bridge state");
        validate_recovery_observation(&self.binding, &state, &observation).expect("observation");
        self.append_event(&BridgeEvent::Recovery(observation.clone()));
        observation
    }

    fn project_pending(&mut self, journal: &mut MemFenced, now: i64) -> usize {
        validate_journal_identity(&self.binding, journal.fenced.journal()).expect("identity");
        let sequences: Vec<u64> = self
            .recover()
            .expect("bridge state")
            .pending_evidence()
            .iter()
            .map(|evidence| evidence.sequence())
            .collect();
        let mut projected = 0;
        for sequence in sequences {
            let state = self.recover().expect("bridge state");
            let evidence = evidence_with_sequence(&state, sequence).expect("evidence");
            let journal_state = journal.recover();
            if !journal_contains_proof(&journal_state, evidence.proof_ref()) {
                let append = match project_evidence(&evidence, &journal_state) {
                    EvidenceProjection::External {
                        ordinal,
                        observed_at,
                        outcome,
                        proof_ref,
                    } => journal.fenced.record_external_outcome(
                        &journal.bytes,
                        ordinal,
                        observed_at,
                        outcome,
                        &proof_ref,
                        Timestamp::new(now),
                    ),
                    EvidenceProjection::Reconciliation {
                        ordinal,
                        observed_at,
                        outcome,
                        proof_ref,
                    } => journal.fenced.record_reconciliation(
                        &journal.bytes,
                        ordinal,
                        observed_at,
                        outcome,
                        &proof_ref,
                        Timestamp::new(now),
                    ),
                }
                .expect("projection");
                journal.append(append);
            }
            self.append_event(&BridgeEvent::Synced {
                evidence_sequence: sequence,
            });
            projected += 1;
        }
        projected
    }
}

fn ticket() -> AuthorityTicket {
    AuthorityTicket {
        action_id: ActionId::new("action:bridge:1").expect("action"),
        source_bead: BeadId::new("bead:bridge:1"),
        execution_mode: ExecutionMode::Automatic,
        authority_proof_refs: vec!["proof:authority:bridge".into()],
        issued_at: Timestamp::new(10),
    }
}

fn decision(journal: &JournalCore) -> RetryDecision {
    RetryDecision {
        action_id: journal.ticket.action_id.clone(),
        idempotency_key: journal.binding.key.clone(),
        verdict: RetryVerdict::InitialDispatchAllowed,
        reasons: vec![RetryReason::AuthorizedNotDispatched],
        proof_refs: journal.ticket.authority_proof_refs.clone(),
    }
}

fn setup() -> (MemBridge, MemFenced, InMemoryRecoveryLeaseStore) {
    let ticket = ticket();
    let binding = IdempotencyBinding::new(&ticket, "idem:bridge:1").expect("binding");
    let (core, append) = JournalCore::create(ticket, binding).expect("journal");
    let mut bytes = Vec::new();
    bytes.extend_from_slice(append.line.as_bytes());
    let mut core = core;
    core.commit(&append);
    let bridge = MemBridge::create(&core, "operation:bridge:payout:1").expect("bridge");
    let store = InMemoryRecoveryLeaseStore::default();
    let fenced = FencedDurableJournal::acquire(
        core,
        store.clone(),
        RecoveryWorkerId::new("worker-a").expect("worker"),
        Timestamp::new(100),
        20,
    )
    .expect("lease");
    (bridge, MemFenced { fenced, bytes }, store)
}

fn receipt_for(
    bridge: &MemBridge,
    permit: &FencedAttemptPermit,
    at: i64,
    outcome: FencedActuatorOutcome,
    proof: &str,
) -> FencedActuatorReceipt {
    FencedActuatorReceipt {
        request: FencedActuatorRequest::from_permit(permit, &bridge.binding.operation_ref)
            .expect("request"),
        observed_at: Timestamp::new(at),
        outcome,
        proof_ref: proof.into(),
    }
}

#[test]
fn operation_identity_and_permit_are_durable_before_effect() {
    let (mut bridge, mut fenced, _) = setup();
    let initial = decision(fenced.fenced.journal());
    bridge.prepare(&mut fenced, &initial, 101, 101);
    let entries = bridge.entries.clone();
    drop(fenced);
    drop(bridge);

    let bridge = MemBridge::open(entries).expect("reopen bridge");
    let state = bridge.recover().expect("recover");
    assert_eq!(state.binding.operation_ref, "operation:bridge:payout:1");
    assert_eq!(state.prepared_calls.len(), 1);
    assert_eq!(state.prepared_calls[0].permit.attempt_ordinal, 0);
}

#[test]
fn applied_receipt_closes_prepared_attempt_without_fake_dispatch() {
    let (mut bridge, mut fenced, _) = setup();
    let initial = decision(fenced.fenced.journal());
    let permit = bridge.prepare(&mut fenced, &initial, 101, 101);
    let actuator = InMemoryFencedActuator::default();
    actuator.set_time(Timestamp::new(102)).expect("time");
    actuator
        .install_authority(InMemoryActuatorAuthority {
            action_id: permit.action_id.clone(),
            owner: permit.owner.clone(),
            epoch: permit.fencing_epoch,
            expires_at: Timestamp::new(120),
        })
        .expect("authority");
    let receipt = FencedActuatorController
        .execute(&permit, &bridge.binding.operation_ref.clone(), &actuator)
        .expect("actuator");
    bridge.persist_receipt(&receipt).expect("receipt durable");
    assert_eq!(bridge.project_pending(&mut fenced, 103), 1);

    let recovered = fenced.recover();
    assert_eq!(recovered.ledger.attempts().len(), 0);
    assert_eq!(
        recovered.directive,
        RecoveryDirective::CloseSucceeded { ordinal: 0 }
    );
}

#[test]
fn applied_receipt_after_local_dispatch_becomes_external_success() {
    let (mut bridge, mut fenced, _) = setup();
    let initial = decision(fenced.fenced.journal());
    let permit = bridge.prepare(&mut fenced, &initial, 101, 101);
    fenced
        .record_dispatch(&permit, 102, "proof:dispatch:bridge", 102)
        .expect("dispatch");
    let receipt = receipt_for(
        &bridge,
        &permit,
        103,
        FencedActuatorOutcome::Applied,
        "proof:actuator:applied",
    );
    bridge.persist_receipt(&receipt).expect("persist");
    bridge.project_pending(&mut fenced, 104);
    let recovered = fenced.recover();
    assert_eq!(
        recovered.ledger.attempts()[0]
            .external
            .as_ref()
            .expect("external")
            .outcome,
        ExecutionOutcome::Succeeded
    );
}

#[test]
fn rejected_receipt_does_not_authorize_retry() {
    let (mut bridge, mut fenced, _) = setup();
    let initial = decision(fenced.fenced.journal());
    let permit = bridge.prepare(&mut fenced, &initial, 101, 101);
    let receipt = receipt_for(
        &bridge,
        &permit,
        102,
        FencedActuatorOutcome::Rejected(FencedActuatorRejection::StaleEpoch { current_epoch: 2 }),
        "proof:actuator:stale",
    );
    bridge.persist_receipt(&receipt).expect("persist");
    bridge.project_pending(&mut fenced, 103);
    assert_eq!(
        fenced.recover().directive,
        RecoveryDirective::ReconcilePreparedAttempt { ordinal: 0 }
    );
}

#[test]
fn crash_after_external_apply_reconciles_by_durable_operation_identity() {
    let (mut bridge, mut fenced, store) = setup();
    let initial = decision(fenced.fenced.journal());
    let permit = bridge.prepare(&mut fenced, &initial, 101, 101);
    let actuator = InMemoryFencedActuator::default();
    actuator.set_time(Timestamp::new(102)).expect("time");
    actuator
        .install_authority(InMemoryActuatorAuthority {
            action_id: permit.action_id.clone(),
            owner: permit.owner.clone(),
            epoch: permit.fencing_epoch,
            expires_at: Timestamp::new(120),
        })
        .expect("authority");
    let applied = FencedActuatorController
        .execute(&permit, &bridge.binding.operation_ref.clone(), &actuator)
        .expect("external apply");
    assert_eq!(applied.outcome, FencedActuatorOutcome::Applied);
    // Crash window: the external effect exists, but no local receipt was persisted.
    let journal_bytes = fenced.bytes.clone();
    let bridge_entries = bridge.entries.clone();
    drop(fenced);
    drop(bridge);

    actuator.set_time(Timestamp::new(122)).expect("time");
    actuator
        .install_authority(InMemoryActuatorAuthority {
            action_id: permit.action_id.clone(),
            owner: RecoveryWorkerId::new("worker-b").expect("worker b"),
            epoch: 2,
            expires_at: Timestamp::new(150),
        })
        .expect("takeover authority");

    let (core, valid_len, _) = JournalCore::open(&journal_bytes).expect("reopen journal");
    let mut journal_bytes = journal_bytes;
    journal_bytes.truncate(valid_len);
    let mut bridge = MemBridge::open(bridge_entries).expect("reopen bridge");
    let observation = bridge.reconcile_after_crash(&core, &journal_bytes, &actuator, 123);
    assert_eq!(observation.query.operation_ref, "operation:bridge:payout:1");
    assert!(matches!(
        observation.outcome,
        ActuatorRecoveryOutcome::EffectSucceeded {
            applied_epoch: 1,
            applied_attempt_ordinal: 0,
        }
    ));

    let fenced = FencedDurableJournal::acquire(
        core,
        store,
        RecoveryWorkerId::new("worker-b").expect("worker b"),
        Timestamp::new(121),
        30,
    )
    .expect("worker b lease");
    let mut fenced = MemFenced {
        fenced,
        bytes: journal_bytes,
    };
    bridge.project_pending(&mut fenced, 123);
    assert_eq!(
        fenced.recover().directive,
        RecoveryDirective::CloseSucceeded { ordinal: 0 }
    );
}

#[test]
fn durable_success_evidence_can_seed_next_bead() {
    let (mut bridge, mut fenced, _) = setup();
    let initial = decision(fenced.fenced.journal());
    let permit = bridge.prepare(&mut fenced, &initial, 101, 101);
    let receipt = receipt_for(
        &bridge,
        &permit,
        102,
        FencedActuatorOutcome::AlreadyApplied {
            applied_epoch: 1,
            applied_attempt_ordinal: 0,
        },
        "proof:actuator:already-applied",
    );
    bridge.persist_receipt(&receipt).expect("persist");
    let state = bridge.recover().expect("bridge state");
    let evidence = state.evidence[0]
        .as_supported_evidence()
        .expect("successful effect is evidence");
    assert_eq!(evidence.status, EvidenceStatus::Supported);
    assert_eq!(evidence.id, "proof:actuator:already-applied");
}

#[test]
fn every_event_kind_reads_back_with_the_binding_identity() {
    let (mut bridge, mut fenced, _) = setup();
    let initial = decision(fenced.fenced.journal());
    let permit = bridge.prepare(&mut fenced, &initial, 101, 101);
    let receipt = receipt_for(
        &bridge,
        &permit,
        102,
        FencedActuatorOutcome::Rejected(FencedActuatorRejection::LeaseExpired { current_epoch: 9 }),
        "proof:tab\tand\nnewline",
    );
    bridge.persist_receipt(&receipt).expect("persist");
    bridge.append_event(&BridgeEvent::Synced {
        evidence_sequence: 2,
    });
    let records = read_bridge_records(bridge.entries.clone()).expect("records");
    assert_eq!(records.len(), 4);
    assert_eq!(records[0].event, BridgeEvent::Binding(bridge.binding.clone()));
    assert_eq!(
        records[1].event,
        BridgeEvent::Prepared(PreparedActuatorCall {
            permit: permit.clone(),
            prepared_at: Timestamp::new(101),
        })
    );
    assert_eq!(records[2].event, BridgeEvent::Receipt(receipt));
    assert_eq!(
        records[3],
        BridgeRecord {
            sequence: 3,
            event: BridgeEvent::Synced {
                evidence_sequence: 2
            }
        }
    );
    let state = recover_bridge(&records).expect("state");
    assert_eq!(state.last_sequence, 3);
    assert_eq!(state.synced_sequences, vec![2]);
    assert!(state.pending_evidence().is_empty());
    assert_eq!(next_sequence(&records), 4);
}

#[test]
fn binding_line_is_hex_fields_joined_by_tabs() {
    let binding = ActuatorBridgeBinding {
        action_id: ActionId::new("a").expect("action"),
        idempotency_key: "k".into(),
        operation_ref: "op".into(),
    };
    assert_eq!(
        encode_bridge_event(&BridgeEvent::Binding(binding.clone())),
        "AB1\tBIND\t61\t6b\t6f70"
    );
    assert_eq!(
        decode_bridge_event("AB1\tBIND\t61\t6b\t6f70"),
        Ok(BridgeEvent::Binding(binding))
    );
    assert_eq!(
        encode_bridge_event(&BridgeEvent::Synced {
            evidence_sequence: 17
        }),
        "AB1\tSYNC\t17"
    );
}

#[test]
fn malformed_lines_name_their_fault() {
    assert_eq!(
        decode_bridge_event("AB2\tSYNC\t1"),
        Err(ActuatorBridgeError::InvalidRecord)
    );
    assert_eq!(decode_bridge_event("AB1"), Err(ActuatorBridgeError::InvalidRecord));
    assert_eq!(
        decode_bridge_event("AB1\tNOPE\t1"),
        Err(ActuatorBridgeError::InvalidRecord)
    );
    assert_eq!(
        decode_bridge_event("AB1\tSYNC\t1\t2"),
        Err(ActuatorBridgeError::InvalidRecord)
    );
    assert_eq!(
        decode_bridge_event("AB1\tSYNC\tx"),
        Err(ActuatorBridgeError::InvalidNumber)
    );
    assert_eq!(
        decode_bridge_event("AB1\tBIND\t6\t6b\t6f70"),
        Err(ActuatorBridgeError::InvalidHex)
    );
    assert_eq!(
        decode_bridge_event("AB1\tBIND\tff\t6b\t6f70"),
        Err(ActuatorBridgeError::InvalidUtf8)
    );
    assert_eq!(
        decode_bridge_event("AB1\tBIND\t20\t6b\t6f70"),
        Err(ActuatorBridgeError::InvalidActionId)
    );
    assert_eq!(
        decode_bridge_event("AB1\tBIND\t61\t20\t6f70"),
        Err(ActuatorBridgeError::EmptyIdempotencyKey)
    );
    assert_eq!(
        decode_bridge_event("AB1\tBIND\t61\t6b\t"),
        Err(ActuatorBridgeError::EmptyOperationRef)
    );
    assert_eq!(
        decode_bridge_event("AB1\tPREP\t20\t1\t0\t5"),
        Err(ActuatorBridgeError::InvalidWorkerId)
    );
    assert_eq!(
        decode_bridge_event("AB1\tPREP\t77\t1\t4294967296\t5"),
        Err(ActuatorBridgeError::InvalidNumber)
    );
    assert_eq!(
        decode_bridge_event("AB1\tRCPT\t77\t1\t0\t5\tZ\t0\t0\t70"),
        Err(ActuatorBridgeError::InvalidReceiptOutcome)
    );
    assert_eq!(
        decode_bridge_event("AB1\tRECO\t77\t1\t0\t5\tA\t0\t0\t70"),
        Err(ActuatorBridgeError::InvalidRecoveryOutcome)
    );
}

#[test]
fn records_must_be_gapless_newline_terminated_and_bound_first() {
    assert_eq!(
        read_bridge_records(Vec::new()),
        Err(ActuatorBridgeError::EmptyBridge)
    );
    let bind = "AB1\tBIND\t61\t6b\t6f70\n".to_owned();
    let sync = "AB1\tSYNC\t0\n".to_owned();
    assert_eq!(
        read_bridge_records(vec![(0, bind.clone()), (2, sync.clone())]),
        Err(ActuatorBridgeError::SequenceGap {
            expected: 1,
            received: 2
        })
    );
    assert_eq!(
        read_bridge_records(vec![(0, "AB1\tSYNC\t0".to_owned())]),
        Err(ActuatorBridgeError::InvalidRecord)
    );
    assert_eq!(
        read_bridge_records(vec![(0, sync.clone())]),
        Err(ActuatorBridgeError::BindingMustBeFirst)
    );
    assert_eq!(
        read_bridge_records(vec![(1, sync.clone()), (0, bind.clone()), (2, bind.clone())]),
        Err(ActuatorBridgeError::DuplicateBinding)
    );
    let records =
        read_bridge_records(vec![(1, sync.clone()), (0, bind.clone())]).expect("sorted records");
    assert_eq!(records[0].sequence, 0);
    assert_eq!(records[1].sequence, 1);
    assert_eq!(
        binding_from_records(&Vec::new()),
        Err(ActuatorBridgeError::MissingBinding)
    );
}

#[test]
fn only_numbered_event_files_are_records() {
    assert_eq!(entry_sequence("00000000000000000007.evt"), Ok(Some(7)));
    assert_eq!(entry_sequence(".tmp-1-00000000000000000007"), Ok(None));
    assert_eq!(entry_sequence("evt"), Ok(None));
    assert_eq!(
        entry_sequence("seven.evt"),
        Err(ActuatorBridgeError::InvalidRecord)
    );
}

#[test]
fn receipt_for_another_operation_is_refused() {
    let (mut bridge, mut fenced, _) = setup();
    let initial = decision(fenced.fenced.journal());
    let permit = bridge.prepare(&mut fenced, &initial, 101, 101);
    let mut receipt = receipt_for(
        &bridge,
        &permit,
        102,
        FencedActuatorOutcome::Applied,
        "proof:x",
    );
    receipt.request.operation_ref = "operation:other".into();
    assert_eq!(
        bridge.persist_receipt(&receipt),
        Err(ActuatorBridgeError::ReceiptIdentityMismatch)
    );
    let early = receipt_for(&bridge, &permit, 100, FencedActuatorOutcome::Applied, "proof:x");
    assert_eq!(
        bridge.persist_receipt(&early),
        Err(ActuatorBridgeError::ObservationBeforePreparation)
    );
    let blank = receipt_for(&bridge, &permit, 102, FencedActuatorOutcome::Applied, " ");
    assert_eq!(
        bridge.persist_receipt(&blank),
        Err(ActuatorBridgeError::EmptyProof)
    );
    let evidence = DurableActuatorEvidence::Receipt {
        sequence: 9,
        receipt: receipt_for(
            &bridge,
            &permit,
            102,
            FencedActuatorOutcome::Rejected(FencedActuatorRejection::WrongOwner),
            "proof:rejected",
        ),
    };
    assert_eq!(
        evidence.as_supported_evidence(),
        Err(ActuatorBridgeError::EvidenceDoesNotConfirmEffect)
    );
}

#[test]
fn blank_operation_reference_cannot_bind() {
    let ticket = ticket();
    let binding = IdempotencyBinding::new(&ticket, "idem:bridge:1").expect("binding");
    let (core, _) = JournalCore::create(ticket, binding).expect("journal");
    assert!(matches!(
        MemBridge::create(&core, "   "),
        Err(ActuatorBridgeError::EmptyOperationRef)
    ));
}
