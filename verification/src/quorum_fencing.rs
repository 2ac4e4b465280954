//! Quorum-gated database promotion with fencing.
//!
//! A majority of coordinators must approve one promotion request per leadership
//! generation, the failed primary must be confirmed fenced, and a permit is
//! only valid while its generation is current. Generations only move forward.
use vstd::prelude::*;

use crate::primitives::Timestamp;
use crate::text::{blank, is_blank, same_text};
use crate::text_order::{lemma_insert_keeps_sorted, lemma_text_lt_total, strictly_sorted, text_before, text_lt};

verus! {

#[derive(Debug, Hash)]
pub struct CoordinatorId(String);

impl View for CoordinatorId {
    type V = Seq<char>;

    closed spec fn view(&self) -> Seq<char> {
        self.0@
    }
}

impl CoordinatorId {
    pub fn new(value: &str) -> (r: Result<Self, QuorumFencingError>)
        ensures
            match r {
                Ok(id) => !blank(value@) && id@ == value@,
                Err(e) => blank(value@) && (e matches QuorumFencingError::EmptyIdentity(what)
                    && what@ == "coordinator"@),
            },
    {
        if is_blank(value) {
            return Err(QuorumFencingError::EmptyIdentity("coordinator"));
        }
        Ok(CoordinatorId(value.to_owned()))
    }

    pub fn as_str(&self) -> (s: &str)
        ensures
            s@ == self@,
    {
        self.0.as_str()
    }

    fn name(&self) -> (s: String)
        ensures
            s@ == self@,
    {
        self.0.clone()
    }
}

impl Clone for CoordinatorId {
    fn clone(&self) -> (r: Self)
        ensures
            r == *self,
    {
        CoordinatorId(self.0.clone())
    }
}

impl PartialEq for CoordinatorId {
    fn eq(&self, other: &Self) -> (r: bool) {
        self.0.eq(&other.0)
    }
}

impl Eq for CoordinatorId {}

impl vstd::std_specs::cmp::PartialEqSpecImpl for CoordinatorId {
    open spec fn obeys_eq_spec() -> bool {
        true
    }

    open spec fn eq_spec(&self, other: &Self) -> bool {
        self@ == other@
    }
}

#[derive(Debug, Hash)]
pub struct DatabaseNodeId(String);

impl View for DatabaseNodeId {
    type V = Seq<char>;

    closed spec fn view(&self) -> Seq<char> {
        self.0@
    }
}

impl DatabaseNodeId {
    pub fn new(value: &str) -> (r: Result<Self, QuorumFencingError>)
        ensures
            match r {
                Ok(id) => !blank(value@) && id@ == value@,
                Err(e) => blank(value@) && (e matches QuorumFencingError::EmptyIdentity(what)
                    && what@ == "database node"@),
            },
    {
        if is_blank(value) {
            return Err(QuorumFencingError::EmptyIdentity("database node"));
        }
        Ok(DatabaseNodeId(value.to_owned()))
    }

    pub fn as_str(&self) -> (s: &str)
        ensures
            s@ == self@,
    {
        self.0.as_str()
    }
}

impl Clone for DatabaseNodeId {
    fn clone(&self) -> (r: Self)
        ensures
            r == *self,
    {
        DatabaseNodeId(self.0.clone())
    }
}

impl PartialEq for DatabaseNodeId {
    fn eq(&self, other: &Self) -> (r: bool) {
        self.0.eq(&other.0)
    }
}

impl Eq for DatabaseNodeId {}

impl vstd::std_specs::cmp::PartialEqSpecImpl for DatabaseNodeId {
    open spec fn obeys_eq_spec() -> bool {
        true
    }

    open spec fn eq_spec(&self, other: &Self) -> bool {
        self@ == other@
    }
}

/// A leadership generation; generation zero does not exist.
#[derive(Debug, Clone, Copy, PartialEq, Eq, Structural, PartialOrd, Ord, Hash)]
pub struct LeadershipGeneration(u64);

impl View for LeadershipGeneration {
    type V = u64;

    closed spec fn view(&self) -> u64 {
        self.0
    }
}

impl LeadershipGeneration {
    pub fn new(value: u64) -> (r: Result<Self, QuorumFencingError>)
        ensures
            match r {
                Ok(g) => value != 0 && g@ == value,
                Err(e) => value == 0 && e == QuorumFencingError::InvalidGeneration(value),
            },
    {
        if value == 0 {
            return Err(QuorumFencingError::InvalidGeneration(value));
        }
        Ok(LeadershipGeneration(value))
    }

    pub fn get(self) -> (v: u64)
        ensures
            v == self@,
    {
        self.0
    }

    pub fn next(self) -> (r: Result<Self, QuorumFencingError>)
        ensures
            match r {
                Ok(g) => self@ < u64::MAX && g@ == self@ + 1,
                Err(e) => self@ == u64::MAX && e == QuorumFencingError::GenerationOverflow,
            },
    {
        match self.0.checked_add(1) {
            Some(v) => Ok(LeadershipGeneration(v)),
            None => Err(QuorumFencingError::GenerationOverflow),
        }
    }

    /// Generations with the same number are the same generation.
    pub broadcast proof fn lemma_view_injective(a: LeadershipGeneration, b: LeadershipGeneration)
        ensures
            #[trigger] a@ == #[trigger] b@ ==> a == b,
    {
    }
}

#[derive(Debug, PartialEq, Eq)]
pub struct PromotionRequest {
    pub request_id: String,
    pub generation: LeadershipGeneration,
    pub failed_primary: DatabaseNodeId,
    pub candidate: DatabaseNodeId,
}

/// Two promotion requests describe the same promotion.
pub open spec fn same_request(a: PromotionRequest, b: PromotionRequest) -> bool {
    &&& a.request_id@ == b.request_id@
    &&& a.generation == b.generation
    &&& a.failed_primary@ == b.failed_primary@
    &&& a.candidate@ == b.candidate@
}

impl PromotionRequest {
    pub fn new(
        request_id: &str,
        generation: LeadershipGeneration,
        failed_primary: DatabaseNodeId,
        candidate: DatabaseNodeId,
    ) -> (r: Result<Self, QuorumFencingError>)
        ensures
            match r {
                Ok(req) => {
                    &&& !blank(request_id@)
                    &&& failed_primary@ != candidate@
                    &&& req.request_id@ == request_id@
                    &&& req.generation == generation
                    &&& req.failed_primary == failed_primary
                    &&& req.candidate == candidate
                },
                Err(e) => if blank(request_id@) {
                    e matches QuorumFencingError::EmptyIdentity(what) && what@
                        == "promotion request"@
                } else {
                    failed_primary@ == candidate@ && e
                        == QuorumFencingError::SameFailedAndCandidate
                },
            },
    {
        if is_blank(request_id) {
            return Err(QuorumFencingError::EmptyIdentity("promotion request"));
        }
        if failed_primary == candidate {
            return Err(QuorumFencingError::SameFailedAndCandidate);
        }
        Ok(PromotionRequest { request_id: request_id.to_owned(), generation, failed_primary, candidate })
    }
}

impl Clone for PromotionRequest {
    fn clone(&self) -> (r: Self)
        ensures
            r == *self,
    {
        PromotionRequest {
            request_id: self.request_id.clone(),
            generation: self.generation,
            failed_primary: self.failed_primary.clone(),
            candidate: self.candidate.clone(),
        }
    }
}

/// Whether two promotion requests describe the same promotion.
pub fn request_matches(a: &PromotionRequest, b: &PromotionRequest) -> (r: bool)
    ensures
        r == same_request(*a, *b),
{
    same_text(&a.request_id, &b.request_id) && a.generation.get() == b.generation.get()
        && a.failed_primary == b.failed_primary && a.candidate == b.candidate
}

#[derive(Debug, Clone, Copy, PartialEq, Eq, Structural)]
pub enum QuorumVoteDecision {
    Approve,
    Reject,
}

#[derive(Debug, PartialEq, Eq)]
pub struct QuorumVote {
    pub coordinator: CoordinatorId,
    pub request_id: String,
    pub generation: LeadershipGeneration,
    pub failed_primary: DatabaseNodeId,
    pub candidate: DatabaseNodeId,
    pub decision: QuorumVoteDecision,
    pub proof_ref: String,
}

/// A vote is about exactly the given promotion request.
pub open spec fn vote_matches(vote: QuorumVote, request: PromotionRequest) -> bool {
    &&& vote.request_id@ == request.request_id@
    &&& vote.generation == request.generation
    &&& vote.failed_primary@ == request.failed_primary@
    &&& vote.candidate@ == request.candidate@
}

impl QuorumVote {
    pub fn for_request(
        coordinator: CoordinatorId,
        request: &PromotionRequest,
        decision: QuorumVoteDecision,
        proof_ref: &str,
    ) -> (r: Result<Self, QuorumFencingError>)
        ensures
            match r {
                Ok(vote) => {
                    &&& !blank(proof_ref@)
                    &&& vote.coordinator == coordinator
                    &&& vote.request_id == request.request_id
                    &&& vote.generation == request.generation
                    &&& vote.failed_primary == request.failed_primary
                    &&& vote.candidate == request.candidate
                    &&& vote.decision == decision
                    &&& vote.proof_ref@ == proof_ref@
                },
                Err(e) => blank(proof_ref@) && e == QuorumFencingError::EmptyProofRef,
            },
    {
        if is_blank(proof_ref) {
            return Err(QuorumFencingError::EmptyProofRef);
        }
        Ok(
            QuorumVote {
                coordinator,
                request_id: request.request_id.clone(),
                generation: request.generation,
                failed_primary: request.failed_primary.clone(),
                candidate: request.candidate.clone(),
                decision,
                proof_ref: proof_ref.to_owned(),
            },
        )
    }

    fn matches(&self, request: &PromotionRequest) -> (r: bool)
        ensures
            r == vote_matches(*self, *request),
    {
        same_text(&self.request_id, &request.request_id) && self.generation.get()
            == request.generation.get() && self.failed_primary == request.failed_primary
            && self.candidate == request.candidate
    }
}

#[derive(Debug, Clone, PartialEq, Eq)]
pub struct FenceGrant {
    pub request: PromotionRequest,
    pub approving_coordinators: Vec<CoordinatorId>,
    pub approval_proof_refs: Vec<String>,
    pub quorum_size: usize,
    pub issued_at: Timestamp,
    pub grant_ref: String,
}

#[derive(Debug, Clone, Copy, PartialEq, Eq, Structural)]
pub enum FenceOutcome {
    ConfirmedFenced,
    StillReachable,
    Unknown,
}

#[derive(Debug, Clone, PartialEq, Eq)]
pub struct FenceReceipt {
    pub generation: LeadershipGeneration,
    pub target: DatabaseNodeId,
    pub observed_at: Timestamp,
    pub outcome: FenceOutcome,
    pub proof_ref: String,
}

impl FenceReceipt {
    pub fn new(
        generation: LeadershipGeneration,
        target: DatabaseNodeId,
        observed_at: Timestamp,
        outcome: FenceOutcome,
        proof_ref: &str,
    ) -> (r: Result<Self, QuorumFencingError>)
        ensures
            match r {
                Ok(receipt) => {
                    &&& !blank(proof_ref@)
                    &&& receipt.generation == generation
                    &&& receipt.target == target
                    &&& receipt.observed_at == observed_at
                    &&& receipt.outcome == outcome
                    &&& receipt.proof_ref@ == proof_ref@
                },
                Err(e) => blank(proof_ref@) && e == QuorumFencingError::EmptyProofRef,
            },
    {
        if is_blank(proof_ref) {
            return Err(QuorumFencingError::EmptyProofRef);
        }
        Ok(FenceReceipt { generation, target, observed_at, outcome, proof_ref: proof_ref.to_owned() })
    }
}

#[derive(Debug, Clone, PartialEq, Eq)]
pub struct PromotionPermit {
    pub request: PromotionRequest,
    pub approving_coordinators: Vec<CoordinatorId>,
    pub quorum_size: usize,
    pub fence_proof_ref: String,
    pub issued_at: Timestamp,
    pub permit_ref: String,
}

#[derive(Debug, Clone, PartialEq, Eq)]
pub enum QuorumFencingError {
    EmptyIdentity(&'static str),
    EmptyProofRef,
    InvalidGeneration(u64),
    GenerationOverflow,
    NotEnoughMembers { members: usize },
    DuplicateMember(String),
    SameFailedAndCandidate,
    GenerationNotCurrent { current: Option<u64>, requested: u64 },
    GenerationNotMonotonic { current: u64, requested: u64 },
    UnknownCoordinator(String),
    DuplicateVote(String),
    VoteIdentityMismatch(String),
    NoQuorum { approvals: usize, required: usize },
    CompetingProposal {
        generation: u64,
        locked_request_id: String,
        competing_request_id: String,
    },
    FenceReceiptMismatch,
    FenceNotConfirmed(FenceOutcome),
    PermitNotCurrent { current: Option<u64>, permit: u64 },
    PermitIdentityMismatch,
}

/// A fence grant counts only votes that name exactly its request: every vote
/// behind a granted fence carries the request's id, generation, failed
/// primary and candidate.
pub proof fn law_granted_votes_name_the_request(
    members: Seq<Seq<char>>,
    quorum: usize,
    request: PromotionRequest,
    votes: Seq<QuorumVote>,
    issued_at: Timestamp,
    grant_ref: Seq<char>,
    r: Result<FenceGrant, QuorumFencingError>,
)
    requires
        grant_stage(members, quorum, request, votes, issued_at, grant_ref, r),
        r is Ok,
    ensures
        forall|k: int|
            0 <= k < votes.len() ==> {
                &&& members.contains((#[trigger] votes[k]).coordinator@)
                &&& votes[k].request_id@ == request.request_id@
                &&& votes[k].generation == request.generation
                &&& votes[k].failed_primary@ == request.failed_primary@
                &&& votes[k].candidate@ == request.candidate@
            },
{
    assert forall|k: int| 0 <= k < votes.len() implies {
        &&& members.contains((#[trigger] votes[k]).coordinator@)
        &&& votes[k].request_id@ == request.request_id@
        &&& votes[k].generation == request.generation
        &&& votes[k].failed_primary@ == request.failed_primary@
        &&& votes[k].candidate@ == request.candidate@
    } by {
        if vote_fault(members, request, votes, k) {
            assert(exists|j: int| 0 <= j < votes.len() && vote_fault(members, request, votes, j));
        }
    }
}

/// A vote from a member that names another candidate than the request (after
/// earlier votes that are all from distinct members and name the request
/// exactly) is refused as an identity mismatch of that vote's coordinator.
pub proof fn law_vote_for_another_candidate_is_refused(
    members: Seq<Seq<char>>,
    quorum: usize,
    request: PromotionRequest,
    votes: Seq<QuorumVote>,
    issued_at: Timestamp,
    grant_ref: Seq<char>,
    r: Result<FenceGrant, QuorumFencingError>,
    k: int,
)
    requires
        grant_stage(members, quorum, request, votes, issued_at, grant_ref, r),
        0 <= k < votes.len(),
        members.contains(votes[k].coordinator@),
        votes[k].candidate@ != request.candidate@,
        forall|j: int|
            0 <= j < k ==> {
                &&& members.contains((#[trigger] votes[j]).coordinator@)
                &&& votes[j].request_id@ == request.request_id@
                &&& votes[j].generation == request.generation
                &&& votes[j].failed_primary@ == request.failed_primary@
                &&& votes[j].candidate@ == request.candidate@
                &&& forall|i: int| 0 <= i < j ==> votes[i].coordinator@ != votes[j].coordinator@
            },
    ensures
        r matches Err(QuorumFencingError::VoteIdentityMismatch(name)) && name@ == votes[k].coordinator@,
{
    assert(vote_fault(members, request, votes, k));
    assert forall|j: int| 0 <= j < k implies !vote_fault(members, request, votes, j) by {
        assert(members.contains(votes[j].coordinator@));
        if exists|i: int| 0 <= i < j && (#[trigger] votes[i].coordinator)@ == votes[j].coordinator@ {
            let i = choose|i: int| 0 <= i < j && (#[trigger] votes[i].coordinator)@ == votes[j].coordinator@;
            assert(votes[i].coordinator@ != votes[j].coordinator@);
        }
    }
    let w = choose|w: int|
        0 <= w < votes.len() && vote_fault(members, request, votes, w) && (forall|j: int|
            0 <= j < w ==> !vote_fault(members, request, votes, j)) && (r matches Err(e)
            && fault_reported(members, request, votes[w], e));
    if w < k {
        assert(!vote_fault(members, request, votes, w));
    }
    if w > k {
        assert(!vote_fault(members, request, votes, k));
    }
    assert(w == k);
}

} // verus!

verus! {

/// Numbers of an optional generation.
pub open spec fn generation_number(g: Option<LeadershipGeneration>) -> Option<u64> {
    match g {
        Some(g) => Some(g@),
        None => None,
    }
}

/// Coordinator `members[j]` already appeared earlier in the list.
pub open spec fn repeats_earlier(members: Seq<CoordinatorId>, j: int) -> bool {
    exists|i: int| 0 <= i < j && (#[trigger] members[i])@ == members[j]@
}

/// No coordinator appears twice.
pub open spec fn all_distinct(ids: Seq<Seq<char>>) -> bool {
    forall|i: int, j: int| 0 <= i < j < ids.len() ==> ids[i] != ids[j]
}

/// The identities of a list of coordinators.
pub open spec fn coordinator_views(members: Seq<CoordinatorId>) -> Seq<Seq<char>> {
    members.map_values(|m: CoordinatorId| m@)
}

/// Vote `k` is refused: not from a member, not about the request, or a second
/// vote of the same coordinator.
pub open spec fn vote_fault(
    members: Seq<Seq<char>>,
    request: PromotionRequest,
    votes: Seq<QuorumVote>,
    k: int,
) -> bool {
    ||| !members.contains(votes[k].coordinator@)
    ||| !vote_matches(votes[k], request)
    ||| exists|i: int| 0 <= i < k && (#[trigger] votes[i].coordinator)@ == votes[k].coordinator@
}

/// The error that reports a refused vote.
pub open spec fn fault_reported(
    members: Seq<Seq<char>>,
    request: PromotionRequest,
    vote: QuorumVote,
    e: QuorumFencingError,
) -> bool {
    if !members.contains(vote.coordinator@) {
        e matches QuorumFencingError::UnknownCoordinator(n) && n@ == vote.coordinator@
    } else if !vote_matches(vote, request) {
        e matches QuorumFencingError::VoteIdentityMismatch(n) && n@ == vote.coordinator@
    } else {
        e matches QuorumFencingError::DuplicateVote(n) && n@ == vote.coordinator@
    }
}

/// The approving votes among the first `n` votes, in vote order.
pub open spec fn approved_votes(votes: Seq<QuorumVote>, n: int) -> Seq<QuorumVote>
    decreases n,
{
    if n <= 0 {
        Seq::empty()
    } else {
        let prior = approved_votes(votes, n - 1);
        if votes[n - 1].decision == QuorumVoteDecision::Approve {
            prior.push(votes[n - 1])
        } else {
            prior
        }
    }
}

/// The coordinators of a list, as texts.
pub open spec fn coordinator_texts(coordinators: Seq<CoordinatorId>) -> Seq<Seq<char>> {
    coordinators.map_values(|c: CoordinatorId| c@)
}

/// Some position of the lists holds `vote`'s coordinator and proof.
pub open spec fn lists_vote(coordinators: Seq<CoordinatorId>, proofs: Seq<String>, vote: QuorumVote) -> bool {
    exists|j: int|
        0 <= j < coordinators.len() && #[trigger] coordinators[j] == vote.coordinator && proofs[j]
            == vote.proof_ref
}

/// The lists hold exactly the approving votes `approved`, one coordinator
/// and its proof per position, in increasing coordinator order.
pub open spec fn listed_by_coordinator(
    coordinators: Seq<CoordinatorId>,
    proofs: Seq<String>,
    approved: Seq<QuorumVote>,
) -> bool {
    &&& coordinators.len() == approved.len()
    &&& proofs.len() == approved.len()
    &&& strictly_sorted(coordinator_texts(coordinators))
    &&& forall|a: int| 0 <= a < approved.len() ==> #[trigger] lists_vote(coordinators, proofs, approved[a])
}

/// Inserts an approval into coordinator-ordered lists, at the place its
/// coordinator takes in that order.
fn insert_approval(
    coordinators: &mut Vec<CoordinatorId>,
    proofs: &mut Vec<String>,
    coordinator: CoordinatorId,
    proof_ref: String,
)
    requires
        old(coordinators)@.len() == old(proofs)@.len(),
        strictly_sorted(coordinator_texts(old(coordinators)@)),
        !coordinator_texts(old(coordinators)@).contains(coordinator@),
    ensures
        strictly_sorted(coordinator_texts(final(coordinators)@)),
        exists|idx: int|
            0 <= idx <= old(coordinators)@.len() && final(coordinators)@ == old(coordinators)@.insert(
                idx,
                coordinator,
            ) && final(proofs)@ == old(proofs)@.insert(idx, proof_ref),
{
    let ghost before = coordinator_texts(coordinators@);
    let ghost c = coordinator;
    let ghost p = proof_ref;
    let mut i: usize = 0;
    while i < coordinators.len() && text_before(coordinators[i].as_str(), coordinator.as_str())
        invariant
            before == coordinator_texts(coordinators@),
            i <= coordinators@.len(),
            forall|j: int| 0 <= j < i ==> text_lt(#[trigger] before[j], coordinator@),
        decreases coordinators@.len() - i,
    {
        i = i + 1;
    }
    proof {
        if i < before.len() {
            assert(before[i as int] != c@) by {
                if before[i as int] == c@ {
                    assert(before.contains(c@));
                }
            }
            lemma_text_lt_total(before[i as int], c@);
        }
        lemma_insert_keeps_sorted(before, i as int, c@);
    }
    let ghost old_coordinators = coordinators@;
    coordinators.insert(i, coordinator);
    proofs.insert(i, proof_ref);
    assert(coordinator_texts(coordinators@) =~= before.insert(i as int, c@));
    assert(coordinators@ == old_coordinators.insert(i as int, c));
}

/// Outcome of the vote-counting stage of `issue_fence_grant`.
pub open spec fn grant_stage(
    members: Seq<Seq<char>>,
    quorum: usize,
    request: PromotionRequest,
    votes: Seq<QuorumVote>,
    issued_at: Timestamp,
    grant_ref: Seq<char>,
    r: Result<FenceGrant, QuorumFencingError>,
) -> bool {
    if exists|k: int| 0 <= k < votes.len() && vote_fault(members, request, votes, k) {
        exists|k: int|
            0 <= k < votes.len() && vote_fault(members, request, votes, k) && (forall|j: int|
                0 <= j < k ==> !vote_fault(members, request, votes, j)) && (r matches Err(e)
                && fault_reported(members, request, votes[k], e))
    } else {
        let approved = approved_votes(votes, votes.len() as int);
        if approved.len() < quorum {
            r == Err::<FenceGrant, QuorumFencingError>(
                QuorumFencingError::NoQuorum { approvals: approved.len() as usize, required: quorum },
            )
        } else if blank(grant_ref) {
            r == Err::<FenceGrant, QuorumFencingError>(QuorumFencingError::EmptyProofRef)
        } else {
            r matches Ok(grant) && {
                &&& grant.request == request
                &&& listed_by_coordinator(
                    grant.approving_coordinators@,
                    grant.approval_proof_refs@,
                    approved,
                )
                &&& grant.quorum_size == quorum
                &&& grant.issued_at == issued_at
                &&& grant.grant_ref@ == grant_ref
            }
        }
    }
}

/// Why a fence grant and receipt cannot yield a promotion permit, if they can't.
pub open spec fn permit_refusal(
    generation: Option<LeadershipGeneration>,
    locked: Option<PromotionRequest>,
    quorum: usize,
    grant: FenceGrant,
    receipt: FenceReceipt,
    permit_ref: Seq<char>,
) -> Option<QuorumFencingError> {
    if generation != Some(grant.request.generation) {
        Some(
            QuorumFencingError::GenerationNotCurrent {
                current: generation_number(generation),
                requested: grant.request.generation@,
            },
        )
    } else if !(locked is Some && same_request(locked->0, grant.request)) {
        Some(QuorumFencingError::PermitIdentityMismatch)
    } else if grant.approving_coordinators@.len() < quorum || grant.quorum_size != quorum {
        Some(
            QuorumFencingError::NoQuorum {
                approvals: grant.approving_coordinators@.len() as usize,
                required: quorum,
            },
        )
    } else if receipt.generation != grant.request.generation || receipt.target@
        != grant.request.failed_primary@ {
        Some(QuorumFencingError::FenceReceiptMismatch)
    } else if receipt.outcome != FenceOutcome::ConfirmedFenced {
        Some(QuorumFencingError::FenceNotConfirmed(receipt.outcome))
    } else if blank(permit_ref) {
        Some(QuorumFencingError::EmptyProofRef)
    } else {
        None
    }
}

/// Why a promotion permit is not valid against an authority state, if it isn't.
pub open spec fn permit_validity(
    generation: Option<LeadershipGeneration>,
    locked: Option<PromotionRequest>,
    quorum: usize,
    permit: PromotionPermit,
) -> Result<(), QuorumFencingError> {
    if generation != Some(permit.request.generation) {
        Err(
            QuorumFencingError::PermitNotCurrent {
                current: generation_number(generation),
                permit: permit.request.generation@,
            },
        )
    } else if !(locked is Some && same_request(locked->0, permit.request))
        || permit.approving_coordinators@.len() < quorum || permit.quorum_size != quorum {
        Err(QuorumFencingError::PermitIdentityMismatch)
    } else {
        Ok(())
    }
}

#[derive(Debug)]
pub struct QuorumFencingAuthority {
    members: Vec<CoordinatorId>,
    quorum_size: usize,
    current_generation: Option<LeadershipGeneration>,
    locked_request: Option<PromotionRequest>,
}

impl QuorumFencingAuthority {
    /// The member coordinators, each once.
    pub closed spec fn spec_members(&self) -> Seq<Seq<char>> {
        coordinator_views(self.members@)
    }

    /// Approvals needed for a fence grant: a strict majority of the members.
    pub closed spec fn spec_quorum(&self) -> usize {
        self.quorum_size
    }

    /// The current leadership generation, if one has begun.
    pub closed spec fn spec_generation(&self) -> Option<LeadershipGeneration> {
        self.current_generation
    }

    /// The one promotion request this generation has locked in, if any.
    pub closed spec fn spec_locked(&self) -> Option<PromotionRequest> {
        self.locked_request
    }

    #[verifier::type_invariant]
    spec fn well_formed(self) -> bool {
        &&& self.members@.len() >= 3
        &&& all_distinct(coordinator_views(self.members@))
        &&& self.quorum_size == self.members@.len() / 2 + 1
    }

    pub fn new(members: Vec<CoordinatorId>) -> (r: Result<Self, QuorumFencingError>)
        ensures
            match r {
                Ok(a) => {
                    &&& members@.len() >= 3
                    &&& all_distinct(coordinator_views(members@))
                    &&& a.spec_members() == coordinator_views(members@)
                    &&& a.spec_quorum() == members@.len() / 2 + 1
                    &&& a.spec_generation() is None
                    &&& a.spec_locked() is None
                },
                Err(e) => if members@.len() < 3 {
                    e == QuorumFencingError::NotEnoughMembers { members: members@.len() as usize }
                } else {
                    exists|j: int|
                        0 <= j < members@.len() && repeats_earlier(members@, j) && (forall|k: int|
                            0 <= k < j ==> !repeats_earlier(members@, k)) && (e matches QuorumFencingError::DuplicateMember(
                            n,
                        ) && n@ == members@[j]@)
                },
            },
    {
        let n = members.len();
        if n < 3 {
            return Err(QuorumFencingError::NotEnoughMembers { members: n });
        }
        let mut unique: Vec<CoordinatorId> = Vec::new();
        let mut j: usize = 0;
        while j < n
            invariant
                n == members@.len(),
                n >= 3,
                j <= n,
                unique@ == members@.subrange(0, j as int),
                forall|k: int| 0 <= k < j ==> !repeats_earlier(members@, k),
            decreases n - j,
        {
            let mut i: usize = 0;
            while i < j
                invariant
                    n == members@.len(),
                    n >= 3,
                    i <= j < n,
                    unique@ == members@.subrange(0, j as int),
                    forall|k: int| 0 <= k < j ==> !repeats_earlier(members@, k),
                    forall|k: int| 0 <= k < i ==> (#[trigger] members@[k])@ != members@[j as int]@,
                decreases j - i,
            {
                if unique[i] == members[j] {
                    proof {
                        assert(members@[i as int]@ == members@[j as int]@);
                        assert(repeats_earlier(members@, j as int));
                    }
                    return Err(QuorumFencingError::DuplicateMember(members[j].name()));
                }
                i = i + 1;
            }
            unique.push(members[j].clone());
            proof {
                assert(unique@ =~= members@.subrange(0, j + 1));
            }
            j = j + 1;
        }
        proof {
            assert(unique@ =~= members@);
            let ids = coordinator_views(members@);
            assert forall|a: int, b: int| 0 <= a < b < ids.len() implies ids[a] != ids[b] by {
                assert(!repeats_earlier(members@, b));
                assert(ids[a] == members@[a]@);
                assert(ids[b] == members@[b]@);
            }
        }
        Ok(
            QuorumFencingAuthority {
                members: unique,
                quorum_size: n / 2 + 1,
                current_generation: None,
                locked_request: None,
            },
        )
    }

    /// Approvals needed: a strict majority of the members.
    pub fn quorum_size(&self) -> (q: usize)
        ensures
            q == self.spec_quorum(),
            q == self.spec_members().len() / 2 + 1,
    {
        proof {
            use_type_invariant(self);
        }
        self.quorum_size
    }

    /// Number of member coordinators: at least three, all distinct.
    pub fn member_count(&self) -> (c: usize)
        ensures
            c == self.spec_members().len(),
            c >= 3,
            all_distinct(self.spec_members()),
    {
        proof {
            use_type_invariant(self);
        }
        self.members.len()
    }

    pub fn current_generation(&self) -> (g: Option<LeadershipGeneration>)
        ensures
            g == self.spec_generation(),
    {
        self.current_generation
    }

    /// Begins a strictly newer leadership generation and releases the lock on
    /// the previous generation's promotion request.
    pub fn begin_generation(&mut self, generation: LeadershipGeneration) -> (r: Result<
        (),
        QuorumFencingError,
    >)
        ensures
            final(self).spec_members() == old(self).spec_members(),
            final(self).spec_quorum() == old(self).spec_quorum(),
            match r {
                Ok(()) => {
                    &&& (old(self).spec_generation() matches Some(c) ==> c@ < generation@)
                    &&& final(self).spec_generation() == Some(generation)
                    &&& final(self).spec_locked() is None
                },
                Err(e) => {
                    &&& old(self).spec_generation() matches Some(c)
                    &&& generation@ <= c@
                    &&& e == QuorumFencingError::GenerationNotMonotonic {
                        current: c@,
                        requested: generation@,
                    }
                    &&& final(self).spec_generation() == old(self).spec_generation()
                    &&& final(self).spec_locked() == old(self).spec_locked()
                },
            },
    {
        proof {
            use_type_invariant(&*self);
        }
        if let Some(current) = self.current_generation {
            if generation.get() <= current.get() {
                return Err(
                    QuorumFencingError::GenerationNotMonotonic {
                        current: current.get(),
                        requested: generation.get(),
                    },
                );
            }
        }
        self.current_generation = Some(generation);
        self.locked_request = None;
        Ok(())
    }

    fn require_current(&self, generation: LeadershipGeneration) -> (r: Result<
        (),
        QuorumFencingError,
    >)
        ensures
            r == if self.spec_generation() != Some(generation) {
                Err(
                    QuorumFencingError::GenerationNotCurrent {
                        current: generation_number(self.spec_generation()),
                        requested: generation@,
                    },
                )
            } else {
                Ok::<(), QuorumFencingError>(())
            },
    {
        match self.current_generation {
            Some(current) => {
                if current.get() == generation.get() {
                    return Ok(());
                }
                Err(
                    QuorumFencingError::GenerationNotCurrent {
                        current: Some(current.get()),
                        requested: generation.get(),
                    },
                )
            },
            None => Err(
                QuorumFencingError::GenerationNotCurrent {
                    current: None,
                    requested: generation.get(),
                },
            ),
        }
    }

    fn is_member(&self, coordinator: &CoordinatorId) -> (b: bool)
        ensures
            b == self.spec_members().contains(coordinator@),
    {
        let mut i: usize = 0;
        while i < self.members.len()
            invariant
                i <= self.members@.len(),
                forall|k: int| 0 <= k < i ==> self.members@[k]@ != coordinator@,
            decreases self.members@.len() - i,
        {
            if self.members[i] == *coordinator {
                assert(coordinator_views(self.members@)[i as int] == coordinator@);
                return true;
            }
            i = i + 1;
        }
        proof {
            let ids = coordinator_views(self.members@);
            if ids.contains(coordinator@) {
                let k = choose|k: int| 0 <= k < ids.len() && ids[k] == coordinator@;
                assert(self.members@[k]@ == coordinator@);
            }
        }
        false
    }

    /// Checks every vote in order and returns the approving coordinators with
    /// their proof references, in vote order.
    fn validated_approvals(&self, request: &PromotionRequest, votes: &[QuorumVote]) -> (r: Result<
        (Vec<CoordinatorId>, Vec<String>),
        QuorumFencingError,
    >)
        ensures
            match r {
                Ok((coordinators, proofs)) => {
                    let approved = approved_votes(votes@, votes@.len() as int);
                    &&& forall|k: int|
                        0 <= k < votes@.len() ==> !vote_fault(
                            self.spec_members(),
                            *request,
                            votes@,
                            k,
                        )
                    &&& listed_by_coordinator(coordinators@, proofs@, approved)
                },
                Err(e) => exists|k: int|
                    0 <= k < votes@.len() && vote_fault(self.spec_members(), *request, votes@, k)
                        && (forall|j: int|
                        0 <= j < k ==> !vote_fault(self.spec_members(), *request, votes@, j))
                        && fault_reported(self.spec_members(), *request, votes@[k], e),
            },
    {
        let ghost members = self.spec_members();
        let mut coordinators: Vec<CoordinatorId> = Vec::new();
        let mut proofs: Vec<String> = Vec::new();
        let mut k: usize = 0;
        while k < votes.len()
            invariant
                members == self.spec_members(),
                k <= votes@.len(),
                forall|j: int| 0 <= j < k ==> !vote_fault(members, *request, votes@, j),
                listed_by_coordinator(coordinators@, proofs@, approved_votes(votes@, k as int)),
                forall|j: int| #![trigger coordinators@[j]]
                    0 <= j < coordinators@.len() ==> exists|w: int|
                        0 <= w < k && #[trigger] votes@[w].coordinator == coordinators@[j],
            decreases votes@.len() - k,
        {
            let vote = &votes[k];
            if !self.is_member(&vote.coordinator) {
                let e = QuorumFencingError::UnknownCoordinator(vote.coordinator.name());
                proof {
                    assert(vote_fault(members, *request, votes@, k as int));
                    assert(fault_reported(members, *request, votes@[k as int], e));
                }
                return Err(e);
            }
            if !vote.matches(request) {
                let e = QuorumFencingError::VoteIdentityMismatch(vote.coordinator.name());
                proof {
                    assert(vote_fault(members, *request, votes@, k as int));
                    assert(fault_reported(members, *request, votes@[k as int], e));
                }
                return Err(e);
            }
            let mut i: usize = 0;
            while i < k
                invariant
                    members == self.spec_members(),
                    members.contains(votes@[k as int].coordinator@),
                    vote_matches(votes@[k as int], *request),
                    forall|j: int| 0 <= j < k ==> !vote_fault(members, *request, votes@, j),
                    k < votes@.len(),
                    i <= k,
                    forall|j: int| 0 <= j < i ==> votes@[j].coordinator@ != votes@[k as int].coordinator@,
                decreases k - i,
            {
                if votes[i].coordinator == votes[k].coordinator {
                    let e = QuorumFencingError::DuplicateVote(votes[k].coordinator.name());
                    proof {
                        assert(votes@[i as int].coordinator@ == votes@[k as int].coordinator@);
                        assert(vote_fault(members, *request, votes@, k as int));
                        assert(fault_reported(members, *request, votes@[k as int], e));
                    }
                    return Err(e);
                }
                i = i + 1;
            }
            proof {
                if vote_fault(members, *request, votes@, k as int) {
                    let w = choose|w: int|
                        0 <= w < k && (#[trigger] votes@[w].coordinator)@
                            == votes@[k as int].coordinator@;
                    assert(votes@[w].coordinator@ != votes@[k as int].coordinator@);
                }
            }
            let ghost before = approved_votes(votes@, k as int);
            assert(approved_votes(votes@, k + 1) == if votes@[k as int].decision
                == QuorumVoteDecision::Approve {
                before.push(votes@[k as int])
            } else {
                before
            });
            if vote.decision == QuorumVoteDecision::Approve {
                let ghost old_coordinators = coordinators@;
                let ghost old_proofs = proofs@;
                proof {
                    if coordinator_texts(coordinators@).contains(votes@[k as int].coordinator@) {
                        let j = choose|j: int|
                            0 <= j < coordinator_texts(coordinators@).len()
                                && coordinator_texts(coordinators@)[j] == votes@[k as int].coordinator@;
                        let w = choose|w: int|
                            0 <= w < k && #[trigger] votes@[w].coordinator == coordinators@[j];
                        assert(votes@[w].coordinator@ == votes@[k as int].coordinator@);
                    }
                }
                insert_approval(&mut coordinators, &mut proofs, vote.coordinator.clone(), vote.proof_ref.clone());
                proof {
                    let idx = choose|idx: int|
                        0 <= idx <= old_coordinators.len() && coordinators@ == old_coordinators.insert(
                            idx,
                            votes@[k as int].coordinator,
                        ) && proofs@ == old_proofs.insert(idx, votes@[k as int].proof_ref);
                    let now = approved_votes(votes@, k + 1);
                    assert forall|a: int| 0 <= a < now.len() implies #[trigger] lists_vote(
                        coordinators@,
                        proofs@,
                        now[a],
                    ) by {
                        if a < before.len() {
                            assert(lists_vote(old_coordinators, old_proofs, before[a]));
                            let j = choose|j: int|
                                0 <= j < old_coordinators.len() && #[trigger] old_coordinators[j]
                                    == before[a].coordinator && old_proofs[j] == before[a].proof_ref;
                            if j < idx {
                                assert(coordinators@[j] == old_coordinators[j]);
                            } else {
                                assert(coordinators@[j + 1] == old_coordinators[j]);
                            }
                        } else {
                            assert(coordinators@[idx] == votes@[k as int].coordinator);
                        }
                    }
                    assert forall|j: int| #![trigger coordinators@[j]] 0 <= j < coordinators@.len() implies exists|w: int|
                        0 <= w < k + 1 && #[trigger] votes@[w].coordinator == coordinators@[j] by {
                        if j < idx {
                            assert(coordinators@[j] == old_coordinators[j]);
                        } else if j == idx {
                            assert(votes@[k as int].coordinator == coordinators@[j]);
                        } else {
                            assert(coordinators@[j] == old_coordinators[j - 1]);
                        }
                    }
                }
            }
            k = k + 1;
        }
        Ok((coordinators, proofs))
    }

    /// Issues a fence grant once a strict majority approved the generation's
    /// single promotion request. The first request seen in a generation is
    /// locked in; a competing request in the same generation is refused.
    pub fn issue_fence_grant(
        &mut self,
        request: &PromotionRequest,
        votes: &[QuorumVote],
        issued_at: Timestamp,
        grant_ref: &str,
    ) -> (r: Result<FenceGrant, QuorumFencingError>)
        ensures
            final(self).spec_members() == old(self).spec_members(),
            final(self).spec_quorum() == old(self).spec_quorum(),
            final(self).spec_generation() == old(self).spec_generation(),
            ({
                let generation = old(self).spec_generation();
                let locked = old(self).spec_locked();
                if generation != Some(request.generation) {
                    &&& final(self).spec_locked() == locked
                    &&& r == Err::<FenceGrant, QuorumFencingError>(
                        QuorumFencingError::GenerationNotCurrent {
                            current: generation_number(generation),
                            requested: request.generation@,
                        },
                    )
                } else if locked is Some && !same_request(locked->0, *request) {
                    &&& final(self).spec_locked() == locked
                    &&& r matches Err(
                        QuorumFencingError::CompetingProposal {
                            generation: g,
                            locked_request_id: l,
                            competing_request_id: c,
                        },
                    )
                    &&& g == request.generation@
                    &&& l@ == locked->0.request_id@
                    &&& c@ == request.request_id@
                } else {
                    &&& final(self).spec_locked() == (if locked is Some {
                        locked
                    } else {
                        Some(*request)
                    })
                    &&& grant_stage(
                        old(self).spec_members(),
                        old(self).spec_quorum(),
                        *request,
                        votes@,
                        issued_at,
                        grant_ref@,
                        r,
                    )
                }
            }),
    {
        proof {
            use_type_invariant(&*self);
        }
        self.require_current(request.generation)?;
        match &self.locked_request {
            Some(locked) => {
                if !request_matches(locked, request) {
                    return Err(
                        QuorumFencingError::CompetingProposal {
                            generation: request.generation.get(),
                            locked_request_id: locked.request_id.clone(),
                            competing_request_id: request.request_id.clone(),
                        },
                    );
                }
            },
            None => {
                self.locked_request = Some(request.clone());
            },
        }
        self.count_votes(request, votes, issued_at, grant_ref)
    }

    fn count_votes(
        &self,
        request: &PromotionRequest,
        votes: &[QuorumVote],
        issued_at: Timestamp,
        grant_ref: &str,
    ) -> (r: Result<FenceGrant, QuorumFencingError>)
        ensures
            grant_stage(
                self.spec_members(),
                self.spec_quorum(),
                *request,
                votes@,
                issued_at,
                grant_ref@,
                r,
            ),
    {
        let (approving_coordinators, approval_proof_refs) = self.validated_approvals(request, votes)?;
        let approvals = approving_coordinators.len();
        proof {
            assert(!(exists|k: int|
                0 <= k < votes@.len() && vote_fault(self.spec_members(), *request, votes@, k)));
        }
        if approvals < self.quorum_size {
            return Err(QuorumFencingError::NoQuorum { approvals, required: self.quorum_size });
        }
        if is_blank(grant_ref) {
            return Err(QuorumFencingError::EmptyProofRef);
        }
        Ok(
            FenceGrant {
                request: request.clone(),
                approving_coordinators,
                approval_proof_refs,
                quorum_size: self.quorum_size,
                issued_at,
                grant_ref: grant_ref.to_owned(),
            },
        )
    }

    fn locked_matches(&self, request: &PromotionRequest) -> (b: bool)
        ensures
            b == (self.spec_locked() is Some && same_request(self.spec_locked()->0, *request)),
    {
        match &self.locked_request {
            Some(locked) => request_matches(locked, request),
            None => false,
        }
    }

    /// Turns a quorum grant plus a confirmed fence of the failed primary into a
    /// promotion permit. An unknown or still-reachable fence never does.
    pub fn issue_promotion_permit(
        &self,
        grant: &FenceGrant,
        receipt: &FenceReceipt,
        issued_at: Timestamp,
        permit_ref: &str,
    ) -> (r: Result<PromotionPermit, QuorumFencingError>)
        ensures
            match permit_refusal(
                self.spec_generation(),
                self.spec_locked(),
                self.spec_quorum(),
                *grant,
                *receipt,
                permit_ref@,
            ) {
                Some(e) => r == Err::<PromotionPermit, QuorumFencingError>(e),
                None => r matches Ok(permit) && {
                    &&& permit.request == grant.request
                    &&& permit.approving_coordinators@ == grant.approving_coordinators@
                    &&& permit.quorum_size == self.spec_quorum()
                    &&& permit.fence_proof_ref == receipt.proof_ref
                    &&& permit.issued_at == issued_at
                    &&& permit.permit_ref@ == permit_ref@
                },
            },
    {
        self.require_current(grant.request.generation)?;
        if !self.locked_matches(&grant.request) {
            return Err(QuorumFencingError::PermitIdentityMismatch);
        }
        if grant.approving_coordinators.len() < self.quorum_size || grant.quorum_size
            != self.quorum_size {
            return Err(
                QuorumFencingError::NoQuorum {
                    approvals: grant.approving_coordinators.len(),
                    required: self.quorum_size,
                },
            );
        }
        if receipt.generation.get() != grant.request.generation.get() || receipt.target
            != grant.request.failed_primary {
            return Err(QuorumFencingError::FenceReceiptMismatch);
        }
        if receipt.outcome != FenceOutcome::ConfirmedFenced {
            return Err(QuorumFencingError::FenceNotConfirmed(receipt.outcome));
        }
        if is_blank(permit_ref) {
            return Err(QuorumFencingError::EmptyProofRef);
        }
        let approving_coordinators = grant.approving_coordinators.clone();
        proof {
            assert(approving_coordinators@ =~= grant.approving_coordinators@);
        }
        Ok(
            PromotionPermit {
                request: grant.request.clone(),
                approving_coordinators,
                quorum_size: self.quorum_size,
                fence_proof_ref: grant_proof(receipt),
                issued_at,
                permit_ref: permit_ref.to_owned(),
            },
        )
    }

    /// A permit is valid only in its own, still current, generation and for the
    /// request that generation locked in.
    pub fn validate_promotion_permit(&self, permit: &PromotionPermit) -> (r: Result<
        (),
        QuorumFencingError,
    >)
        ensures
            r == permit_validity(
                self.spec_generation(),
                self.spec_locked(),
                self.spec_quorum(),
                *permit,
            ),
    {
        match self.current_generation {
            Some(current) => {
                if current.get() != permit.request.generation.get() {
                    return Err(
                        QuorumFencingError::PermitNotCurrent {
                            current: Some(current.get()),
                            permit: permit.request.generation.get(),
                        },
                    );
                }
            },
            None => {
                return Err(
                    QuorumFencingError::PermitNotCurrent {
                        current: None,
                        permit: permit.request.generation.get(),
                    },
                );
            },
        }
        if !self.locked_matches(&permit.request) || permit.approving_coordinators.len()
            < self.quorum_size || permit.quorum_size != self.quorum_size {
            return Err(QuorumFencingError::PermitIdentityMismatch);
        }
        Ok(())
    }
}

fn grant_proof(receipt: &FenceReceipt) -> (s: String)
    ensures
        s == receipt.proof_ref,
{
    receipt.proof_ref.clone()
}

/// A fence grant is issued only when no vote is faulty and a quorum of the
/// votes approve the request.
pub proof fn law_grant_needs_quorum(
    members: Seq<Seq<char>>,
    quorum: usize,
    request: PromotionRequest,
    votes: Seq<QuorumVote>,
    issued_at: Timestamp,
    grant_ref: Seq<char>,
    r: Result<FenceGrant, QuorumFencingError>,
)
    requires
        grant_stage(members, quorum, request, votes, issued_at, grant_ref, r),
        r is Ok,
    ensures
        forall|k: int| 0 <= k < votes.len() ==> !vote_fault(members, request, votes, k),
        approved_votes(votes, votes.len() as int).len() >= quorum,
{
}

/// A fence that is not confirmed, whether unknown or still reachable, never
/// becomes permission to promote.
pub proof fn law_unconfirmed_fence_never_permits(
    generation: Option<LeadershipGeneration>,
    locked: Option<PromotionRequest>,
    quorum: usize,
    grant: FenceGrant,
    receipt: FenceReceipt,
    permit_ref: Seq<char>,
)
    requires
        receipt.outcome != FenceOutcome::ConfirmedFenced,
    ensures
        permit_refusal(generation, locked, quorum, grant, receipt, permit_ref) is Some,
{
}

/// A permit from an earlier generation is not valid once a later generation
/// has begun.
pub proof fn law_later_generation_stales_permit(
    generation: LeadershipGeneration,
    locked: Option<PromotionRequest>,
    quorum: usize,
    permit: PromotionPermit,
)
    requires
        permit.request.generation@ < generation@,
    ensures
        permit_validity(Some(generation), locked, quorum, permit) == Err::<(), QuorumFencingError>(
            QuorumFencingError::PermitNotCurrent {
                current: Some(generation@),
                permit: permit.request.generation@,
            },
        ),
{
}

/// A valid permit belongs to the current generation and its locked request,
/// and carries at least a quorum of approvals.
pub proof fn law_valid_permit_is_current_with_quorum(
    generation: Option<LeadershipGeneration>,
    locked: Option<PromotionRequest>,
    quorum: usize,
    permit: PromotionPermit,
)
    ensures
        permit_validity(generation, locked, quorum, permit) is Ok ==> {
            &&& generation == Some(permit.request.generation)
            &&& locked is Some && same_request(locked->0, permit.request)
            &&& permit.approving_coordinators@.len() >= quorum
            &&& permit.quorum_size == quorum
        },
{
}

} // verus!
