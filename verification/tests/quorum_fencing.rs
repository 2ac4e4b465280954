use lifetra::{
    CoordinatorId, DatabaseNodeId, FenceOutcome, FenceReceipt, LeadershipGeneration,
    PromotionRequest, QuorumFencingAuthority, QuorumFencingError, QuorumVote, QuorumVoteDecision,
    Timestamp,
};

fn coordinator(value: &str) -> CoordinatorId {
    CoordinatorId::new(value).expect("coordinator")
}

fn node(value: &str) -> DatabaseNodeId {
    DatabaseNodeId::new(value).expect("database node")
}

fn authority() -> QuorumFencingAuthority {
    QuorumFencingAuthority::new(vec![coordinator("q1"), coordinator("q2"), coordinator("q3")])
        .expect("three-node authority")
}

fn request(generation: LeadershipGeneration) -> PromotionRequest {
    PromotionRequest::new("promote:b", generation, node("db-a"), node("db-b")).expect("request")
}

fn vote(coordinator_id: &str, request: &PromotionRequest, decision: QuorumVoteDecision) -> QuorumVote {
    QuorumVote::for_request(
        coordinator(coordinator_id),
        request,
        decision,
        &format!("proof:vote:{coordinator_id}"),
    )
    .expect("vote")
}

#[test]
fn three_member_authority_requires_two_votes() {
    let mut authority = authority();
    let generation = LeadershipGeneration::new(1).unwrap();
    authority.begin_generation(generation).unwrap();
    let request = request(generation);
    let err = authority
        .issue_fence_grant(
            &request,
            &[vote("q1", &request, QuorumVoteDecision::Approve)],
            Timestamp::new(1),
            "grant:1",
        )
        .unwrap_err();
    assert_eq!(
        err,
        QuorumFencingError::NoQuorum {
            approvals: 1,
            required: 2
        }
    );
}

#[test]
fn quorum_plus_confirmed_fence_issues_promotion_permit() {
    let mut authority = authority();
    let generation = LeadershipGeneration::new(1).unwrap();
    authority.begin_generation(generation).unwrap();
    let request = request(generation);
    let grant = authority
        .issue_fence_grant(
            &request,
            &[
                vote("q1", &request, QuorumVoteDecision::Approve),
                vote("q2", &request, QuorumVoteDecision::Approve),
            ],
            Timestamp::new(2),
            "grant:1",
        )
        .unwrap();
    let receipt = FenceReceipt::new(
        generation,
        node("db-a"),
        Timestamp::new(3),
        FenceOutcome::ConfirmedFenced,
        "proof:fence:db-a:off",
    )
    .unwrap();
    let permit = authority
        .issue_promotion_permit(&grant, &receipt, Timestamp::new(4), "permit:1")
        .unwrap();
    authority.validate_promotion_permit(&permit).unwrap();
    assert_eq!(permit.request.candidate.as_str(), "db-b");
    assert_eq!(permit.approving_coordinators.len(), 2);
}

#[test]
fn unknown_fence_never_becomes_promotion_permission() {
    let mut authority = authority();
    let generation = LeadershipGeneration::new(1).unwrap();
    authority.begin_generation(generation).unwrap();
    let request = request(generation);
    let grant = authority
        .issue_fence_grant(
            &request,
            &[
                vote("q1", &request, QuorumVoteDecision::Approve),
                vote("q2", &request, QuorumVoteDecision::Approve),
            ],
            Timestamp::new(2),
            "grant:1",
        )
        .unwrap();
    let receipt = FenceReceipt::new(
        generation,
        node("db-a"),
        Timestamp::new(3),
        FenceOutcome::Unknown,
        "proof:fence:unknown",
    )
    .unwrap();
    assert_eq!(
        authority
            .issue_promotion_permit(&grant, &receipt, Timestamp::new(4), "permit:1")
            .unwrap_err(),
        QuorumFencingError::FenceNotConfirmed(FenceOutcome::Unknown)
    );
}

#[test]
fn still_reachable_primary_blocks_promotion() {
    let mut authority = authority();
    let generation = LeadershipGeneration::new(1).unwrap();
    authority.begin_generation(generation).unwrap();
    let request = request(generation);
    let grant = authority
        .issue_fence_grant(
            &request,
            &[
                vote("q1", &request, QuorumVoteDecision::Approve),
                vote("q3", &request, QuorumVoteDecision::Approve),
            ],
            Timestamp::new(2),
            "grant:1",
        )
        .unwrap();
    let receipt = FenceReceipt::new(
        generation,
        node("db-a"),
        Timestamp::new(3),
        FenceOutcome::StillReachable,
        "proof:fence:reachable",
    )
    .unwrap();
    assert!(matches!(
        authority.issue_promotion_permit(&grant, &receipt, Timestamp::new(4), "permit:1"),
        Err(QuorumFencingError::FenceNotConfirmed(
            FenceOutcome::StillReachable
        ))
    ));
}

#[test]
fn competing_candidate_is_rejected_in_same_generation() {
    let mut authority = authority();
    let generation = LeadershipGeneration::new(1).unwrap();
    authority.begin_generation(generation).unwrap();
    let first = request(generation);
    authority
        .issue_fence_grant(
            &first,
            &[
                vote("q1", &first, QuorumVoteDecision::Approve),
                vote("q2", &first, QuorumVoteDecision::Approve),
            ],
            Timestamp::new(1),
            "grant:first",
        )
        .unwrap();
    let second = PromotionRequest::new("promote:c", generation, node("db-a"), node("db-c")).unwrap();
    assert!(matches!(
        authority.issue_fence_grant(
            &second,
            &[
                vote("q1", &second, QuorumVoteDecision::Approve),
                vote("q2", &second, QuorumVoteDecision::Approve),
            ],
            Timestamp::new(2),
            "grant:second",
        ),
        Err(QuorumFencingError::CompetingProposal { .. })
    ));
}

#[test]
fn duplicate_coordinator_vote_fails_closed() {
    let mut authority = authority();
    let generation = LeadershipGeneration::new(1).unwrap();
    authority.begin_generation(generation).unwrap();
    let request = request(generation);
    assert_eq!(
        authority
            .issue_fence_grant(
                &request,
                &[
                    vote("q1", &request, QuorumVoteDecision::Approve),
                    vote("q1", &request, QuorumVoteDecision::Reject),
                    vote("q2", &request, QuorumVoteDecision::Approve),
                ],
                Timestamp::new(1),
                "grant:1",
            )
            .unwrap_err(),
        QuorumFencingError::DuplicateVote("q1".into())
    );
}

#[test]
fn non_member_vote_is_rejected() {
    let mut authority = authority();
    let generation = LeadershipGeneration::new(1).unwrap();
    authority.begin_generation(generation).unwrap();
    let request = request(generation);
    assert_eq!(
        authority
            .issue_fence_grant(
                &request,
                &[
                    vote("q1", &request, QuorumVoteDecision::Approve),
                    vote("outsider", &request, QuorumVoteDecision::Approve),
                ],
                Timestamp::new(1),
                "grant:1",
            )
            .unwrap_err(),
        QuorumFencingError::UnknownCoordinator("outsider".into())
    );
}

#[test]
fn advancing_generation_stales_old_permit() {
    let mut authority = authority();
    let generation = LeadershipGeneration::new(1).unwrap();
    authority.begin_generation(generation).unwrap();
    let request = request(generation);
    let grant = authority
        .issue_fence_grant(
            &request,
            &[
                vote("q1", &request, QuorumVoteDecision::Approve),
                vote("q2", &request, QuorumVoteDecision::Approve),
            ],
            Timestamp::new(1),
            "grant:1",
        )
        .unwrap();
    let receipt = FenceReceipt::new(
        generation,
        node("db-a"),
        Timestamp::new(2),
        FenceOutcome::ConfirmedFenced,
        "proof:fence",
    )
    .unwrap();
    let permit = authority
        .issue_promotion_permit(&grant, &receipt, Timestamp::new(3), "permit:1")
        .unwrap();
    authority.begin_generation(generation.next().unwrap()).unwrap();
    assert_eq!(
        authority.validate_promotion_permit(&permit).unwrap_err(),
        QuorumFencingError::PermitNotCurrent {
            current: Some(2),
            permit: 1
        }
    );
}

#[test]
fn generations_are_strictly_monotonic() {
    let mut authority = authority();
    let generation = LeadershipGeneration::new(2).unwrap();
    authority.begin_generation(generation).unwrap();
    assert_eq!(
        authority.begin_generation(generation).unwrap_err(),
        QuorumFencingError::GenerationNotMonotonic {
            current: 2,
            requested: 2
        }
    );
}

#[test]
fn authority_construction_rules() {
    assert_eq!(
        QuorumFencingAuthority::new(vec![coordinator("q1"), coordinator("q2")]).unwrap_err(),
        QuorumFencingError::NotEnoughMembers { members: 2 }
    );
    assert_eq!(
        QuorumFencingAuthority::new(vec![
            coordinator("q1"),
            coordinator("q2"),
            coordinator("q1"),
            coordinator("q2"),
        ])
        .unwrap_err(),
        QuorumFencingError::DuplicateMember("q1".into())
    );
    let five = QuorumFencingAuthority::new(vec![
        coordinator("a"),
        coordinator("b"),
        coordinator("c"),
        coordinator("d"),
        coordinator("e"),
    ])
    .unwrap();
    assert_eq!(five.member_count(), 5);
    assert_eq!(five.quorum_size(), 3);
    assert_eq!(five.current_generation(), None);
}

#[test]
fn identities_and_generations_validate_inputs() {
    assert_eq!(
        CoordinatorId::new("  ").unwrap_err(),
        QuorumFencingError::EmptyIdentity("coordinator")
    );
    assert_eq!(
        DatabaseNodeId::new("").unwrap_err(),
        QuorumFencingError::EmptyIdentity("database node")
    );
    assert_eq!(
        LeadershipGeneration::new(0).unwrap_err(),
        QuorumFencingError::InvalidGeneration(0)
    );
    assert_eq!(
        LeadershipGeneration::new(u64::MAX).unwrap().next().unwrap_err(),
        QuorumFencingError::GenerationOverflow
    );
    assert_eq!(LeadershipGeneration::new(4).unwrap().next().unwrap().get(), 5);
    let generation = LeadershipGeneration::new(1).unwrap();
    assert_eq!(
        PromotionRequest::new("promote:x", generation, node("db-a"), node("db-a")).unwrap_err(),
        QuorumFencingError::SameFailedAndCandidate
    );
    assert_eq!(
        PromotionRequest::new(" ", generation, node("db-a"), node("db-b")).unwrap_err(),
        QuorumFencingError::EmptyIdentity("promotion request")
    );
}

#[test]
fn grant_lists_approvers_with_their_proofs_and_ignores_rejections() {
    let mut authority = authority();
    let generation = LeadershipGeneration::new(1).unwrap();
    assert_eq!(
        authority.issue_fence_grant(&request(generation), &[], Timestamp::new(1), "grant:0"),
        Err(QuorumFencingError::GenerationNotCurrent {
            current: None,
            requested: 1
        })
    );
    authority.begin_generation(generation).unwrap();
    let request = request(generation);
    let grant = authority
        .issue_fence_grant(
            &request,
            &[
                vote("q3", &request, QuorumVoteDecision::Approve),
                vote("q2", &request, QuorumVoteDecision::Reject),
                vote("q1", &request, QuorumVoteDecision::Approve),
            ],
            Timestamp::new(5),
            "grant:1",
        )
        .unwrap();
    assert_eq!(grant.approving_coordinators.len(), 2);
    assert_eq!(grant.approval_proof_refs.len(), 2);
    assert_eq!(grant.quorum_size, 2);
    assert_eq!(grant.issued_at, Timestamp::new(5));
    assert_eq!(grant.grant_ref, "grant:1");
}

#[test]
fn grant_lists_approvals_in_coordinator_order() {
    let mut authority = authority();
    let generation = LeadershipGeneration::new(1).unwrap();
    authority.begin_generation(generation).unwrap();
    let request = request(generation);
    let grant = authority
        .issue_fence_grant(
            &request,
            &[
                vote("q3", &request, QuorumVoteDecision::Approve),
                vote("q2", &request, QuorumVoteDecision::Reject),
                vote("q1", &request, QuorumVoteDecision::Approve),
            ],
            Timestamp::new(1),
            "grant:1",
        )
        .expect("quorum");
    assert_eq!(grant.approving_coordinators, vec![coordinator("q1"), coordinator("q3")]);
    assert_eq!(
        grant.approval_proof_refs,
        vec!["proof:vote:q1".to_string(), "proof:vote:q3".to_string()]
    );
}
