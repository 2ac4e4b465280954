use lifetra::thread_graph::{latest_index, links_are_within, span_of};
use lifetra::TimeWindow;
use lifetra::{
    AggregationBlock, BeadChain, BeadId, BeadScale, ChainBlock, CommitBlock, EvidenceRef,
    EvidenceStatus, StateTransition, Timestamp, TrajectoryBead,
};

/// Beads in these tests carry no sector graphs.
type Bead = TrajectoryBead<()>;

fn supported_bead(id: &str, scale: BeadScale, start: i64, end: i64, proof: &str) -> Bead {
    TrajectoryBead::new(
        BeadId::new(id),
        scale,
        Timestamp::new(start),
        Timestamp::new(end),
    )
    .with_evidence(EvidenceRef::new(
        proof,
        EvidenceStatus::Supported,
        "external receipt",
    ))
}

#[test]
fn carries_verified_proof_into_next_bead() {
    let first = supported_bead("b1", BeadScale::Minute, 0, 60, "proof:1");
    let commit = first
        .prove_transition("step-1", "verified")
        .expect("first bead should commit");

    let second: Bead = TrajectoryBead::new(
        BeadId::new("b2"),
        BeadScale::Minute,
        Timestamp::new(60),
        Timestamp::new(120),
    );

    let mut chain = BeadChain::new();
    chain.append(first).expect("first bead should append");
    chain
        .append_with_commit(second, &commit)
        .expect("proof should carry");

    assert!(chain.proof_continuity_is_intact());
    assert_eq!(chain.carries().len(), 1);
    assert_eq!(chain.beads()[1].supported_evidence_count(), 1);
}

#[test]
fn rejects_temporal_overlap_on_linear_thread() {
    let mut chain = BeadChain::new();
    chain
        .append(supported_bead("b1", BeadScale::Minute, 0, 60, "p1"))
        .expect("first bead should append");

    let overlap = supported_bead("b2", BeadScale::Minute, 50, 90, "p2");
    assert!(matches!(
        chain.append(overlap),
        Err(ChainBlock::TemporalOverlap { .. })
    ));
}

#[test]
fn records_gaps_without_pretending_they_are_continuous() {
    let mut chain = BeadChain::new();
    chain
        .append(supported_bead("b1", BeadScale::Minute, 0, 60, "p1"))
        .expect("first bead should append");
    chain
        .append(supported_bead("b2", BeadScale::Minute, 90, 150, "p2"))
        .expect("gapped bead should append");

    assert_eq!(chain.temporal_gaps(), vec![30]);
}

#[test]
fn minute_beads_zoom_to_hour_with_provenance() {
    let mut chain = BeadChain::new();
    chain
        .append(supported_bead("m1", BeadScale::Minute, 0, 60, "p1"))
        .expect("m1");
    chain
        .append(supported_bead("m2", BeadScale::Minute, 60, 120, "p2"))
        .expect("m2");
    chain
        .append(supported_bead("m3", BeadScale::Minute, 120, 180, "p3"))
        .expect("m3");

    let aggregate = chain
        .aggregate_window(BeadId::new("hour:1"), BeadScale::Hour, 0, 3)
        .expect("minute beads should aggregate to hour");

    assert_eq!(aggregate.source_beads.len(), 3);
    assert_eq!(aggregate.source_proofs, vec!["p1", "p2", "p3"]);
    assert_eq!(aggregate.bead.supported_evidence_count(), 3);
    assert!(aggregate.bead.unresolved_unknowns.is_empty());
}

#[test]
fn causal_zoom_preserves_unknowns() {
    let first = supported_bead("m1", BeadScale::Minute, 0, 60, "p1")
        .with_unknown("remote settlement status");
    let second = supported_bead("m2", BeadScale::Minute, 60, 120, "p2");

    let mut chain = BeadChain::new();
    chain.append(first).expect("first");
    chain.append(second).expect("second");

    let aggregate = chain
        .aggregate_window(BeadId::new("hour:1"), BeadScale::Hour, 0, 2)
        .expect("aggregate should be created");

    assert_eq!(
        aggregate.bead.unresolved_unknowns,
        vec!["remote settlement status".to_string()]
    );
    assert!(aggregate
        .bead
        .prove_transition("hour-summary", "should remain blocked")
        .is_err());
}

#[test]
fn rejects_same_or_finer_temporal_scale() {
    let mut chain = BeadChain::new();
    chain
        .append(supported_bead("m1", BeadScale::Minute, 0, 60, "p1"))
        .expect("m1");

    assert!(matches!(
        chain.aggregate_window(BeadId::new("minute:copy"), BeadScale::Minute, 0, 1),
        Err(AggregationBlock::TargetScaleNotCoarser { .. })
    ));
}

#[test]
fn unknown_does_not_collapse_into_failure() {
    let bead: Bead = TrajectoryBead::new(
        BeadId::new("bead:recovery:42"),
        BeadScale::Event,
        Timestamp::new(10),
        Timestamp::new(20),
    )
    .with_evidence(EvidenceRef::new(
        "dispatch-proof",
        EvidenceStatus::Supported,
        "dispatch is proven",
    ))
    .with_unknown("remote effect completion");

    assert!(matches!(
        bead.prove_transition("recovered", "resume after crash"),
        Err(CommitBlock::UnresolvedUnknowns(_))
    ));
}

#[test]
fn supported_proof_can_commit_back_to_trajectory() {
    let bead: Bead = TrajectoryBead::new(
        BeadId::new("bead:hour:1"),
        BeadScale::Hour,
        Timestamp::new(100),
        Timestamp::new(200),
    )
    .with_evidence(EvidenceRef::new(
        "receipt:abc",
        EvidenceStatus::Supported,
        "external state confirms the transition",
    ));

    let commit = bead
        .prove_transition("verified-shift", "proof-backed state delta")
        .expect("supported bead should produce a commit");

    // The trajectory history the commit is applied to.
    let mut history: Vec<StateTransition> = Vec::new();
    history.push(commit.transition.clone());

    assert_eq!(history.len(), 1);
    assert_eq!(commit.proof_refs, vec!["receipt:abc".to_string()]);
    assert_eq!(commit.bead_id.as_str(), "bead:hour:1");
    assert_eq!(commit.transition.occurred_at, Timestamp::new(200));
}

#[test]
fn contradicted_or_missing_proof_blocks_the_commit() {
    let contradicted: Bead = TrajectoryBead::new(
        BeadId::new("b"),
        BeadScale::Event,
        Timestamp::new(0),
        Timestamp::new(1),
    )
    .with_evidence(EvidenceRef::new("p", EvidenceStatus::Supported, "ok"))
    .with_evidence(EvidenceRef::new("q", EvidenceStatus::Contradicted, "no"));
    assert_eq!(
        contradicted.prove_transition("t", "n"),
        Err(CommitBlock::ContradictedEvidence(vec!["q".to_string()]))
    );
    let bare: Bead = TrajectoryBead::new(
        BeadId::new("b"),
        BeadScale::Event,
        Timestamp::new(0),
        Timestamp::new(1),
    )
    .with_evidence(EvidenceRef::new("u", EvidenceStatus::Unknown, "?"));
    assert_eq!(
        bare.prove_transition("t", "n"),
        Err(CommitBlock::NoSupportedEvidence)
    );
}

#[test]
fn carry_reuses_supported_proof_and_refuses_a_conflicting_one() {
    let first = supported_bead("b1", BeadScale::Minute, 0, 60, "proof:1");
    let commit = first.prove_transition("s", "n").expect("commit");
    let mut chain = BeadChain::new();
    assert_eq!(
        chain.append_with_commit(supported_bead("b0", BeadScale::Minute, 0, 1, "x"), &commit),
        Err(ChainBlock::NoPreviousBead)
    );
    chain.append(first).expect("first");

    let conflicting = supported_bead("b2", BeadScale::Minute, 60, 120, "other").with_evidence(
        EvidenceRef::new("proof:1", EvidenceStatus::Contradicted, "disputed"),
    );
    assert_eq!(
        chain.append_with_commit(conflicting, &commit),
        Err(ChainBlock::ConflictingCarriedProof {
            proof_ref: "proof:1".into()
        })
    );
    assert_eq!(chain.beads().len(), 1);

    let reusing = supported_bead("b2", BeadScale::Minute, 60, 120, "proof:1");
    chain.append_with_commit(reusing, &commit).expect("carry");
    assert_eq!(chain.beads()[1].evidence.len(), 1);
    assert!(chain.proof_continuity_is_intact());

    let stranger = supported_bead("b3", BeadScale::Minute, 120, 180, "p");
    assert!(matches!(
        chain.append_with_commit(stranger, &commit),
        Err(ChainBlock::CommitSourceMismatch { .. })
    ));
}

#[test]
fn zoom_dedupes_and_sorts_proofs_and_checks_the_window() {
    let mut chain = BeadChain::new();
    chain
        .append(supported_bead("m1", BeadScale::Minute, 0, 60, "p2"))
        .expect("m1");
    chain
        .append(supported_bead("m2", BeadScale::Minute, 60, 120, "p1").with_evidence(
            EvidenceRef::new("p2", EvidenceStatus::Supported, "again"),
        ))
        .expect("m2");
    let aggregate = chain
        .aggregate_window(BeadId::new("h"), BeadScale::Day, 0, 2)
        .expect("aggregate");
    assert_eq!(aggregate.source_proofs, vec!["p1", "p2"]);
    assert_eq!(aggregate.bead.starts_at, Timestamp::new(0));
    assert_eq!(aggregate.bead.ends_at, Timestamp::new(120));
    assert_eq!(aggregate.bead.evidence[0].note, "preserved by causal zoom");
    assert!(matches!(
        chain.aggregate_window(BeadId::new("h"), BeadScale::Day, 1, 1),
        Err(AggregationBlock::EmptyWindow)
    ));
    assert!(matches!(
        chain.aggregate_window(BeadId::new("h"), BeadScale::Day, 0, 3),
        Err(AggregationBlock::InvalidWindow)
    ));
    assert_eq!(chain.latest().map(|bead| bead.id.as_str()), Some("m2"));
}

#[test]
fn facade_exposes_evidence_gated_beads() {
    let bead: Bead = TrajectoryBead::new(
        BeadId::new("bead:test"),
        BeadScale::Event,
        Timestamp::new(1),
        Timestamp::new(2),
    )
    .with_evidence(EvidenceRef::new(
        "proof:1",
        EvidenceStatus::Supported,
        "verified externally",
    ));

    assert_eq!(bead.supported_evidence_count(), 1);
}

#[test]
fn facade_exposes_proof_carrying_chains() {
    let first: Bead = TrajectoryBead::new(
        BeadId::new("b1"),
        BeadScale::Minute,
        Timestamp::new(0),
        Timestamp::new(60),
    )
    .with_evidence(EvidenceRef::new(
        "proof:1",
        EvidenceStatus::Supported,
        "verified",
    ));
    let commit = first
        .prove_transition("verified", "first step")
        .expect("proof-backed bead should commit");
    let second: Bead = TrajectoryBead::new(
        BeadId::new("b2"),
        BeadScale::Minute,
        Timestamp::new(60),
        Timestamp::new(120),
    );

    let mut chain = BeadChain::new();
    chain.append(first).expect("first bead should append");
    chain
        .append_with_commit(second, &commit)
        .expect("proof should carry into second bead");

    assert!(chain.proof_continuity_is_intact());
}

#[test]
fn thread_checks_compare_identities_and_times() {
    let ids = vec!["a".to_string(), "b".to_string()];
    assert!(links_are_within(&ids, &vec![("a".to_string(), "b".to_string())]));
    assert!(!links_are_within(&ids, &vec![("a".to_string(), "c".to_string())]));

    let ends = vec![Timestamp::new(5), Timestamp::new(9), Timestamp::new(9), Timestamp::new(3)];
    assert_eq!(latest_index(&ends), Some(2));
    assert_eq!(latest_index(&Vec::new()), None);

    let windows = vec![
        TimeWindow::new(Timestamp::new(10), Timestamp::new(20)),
        TimeWindow::new(Timestamp::new(5), Timestamp::new(12)),
    ];
    assert_eq!(
        span_of(&windows),
        Some(TimeWindow::new(Timestamp::new(5), Timestamp::new(20)))
    );
    assert_eq!(span_of(&Vec::new()), None);
}
