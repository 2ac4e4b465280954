//! Evidence-gated trajectory beads and the linear chain that carries proof
//! from one bead into the next. A bead's sector graphs are of whatever type
//! the caller models them with; nothing here reads them.
use vstd::prelude::*;
use vstd::string::StringExecFns;

use crate::bead::{
    is_calendar_scale, law_calendar_coarsening_is_strict, scale_is_coarser, spec_scale_is_coarser,
    AggregationBlock, BeadCommit, BeadId, BeadScale,
    ChainBlock, CommitBlock, EvidenceRef, EvidenceStatus, ProofCarry,
};
use crate::codec::texts_of;
use crate::primitives::Timestamp;
use crate::text::copy_texts;
use crate::text_order::{insert_sorted, strictly_sorted};
use crate::trajectory::StateTransition;

verus! {

/// One bounded combination of reality crossed by the larger trajectory.
#[derive(Debug)]
pub struct TrajectoryBead<G> {
    pub id: BeadId,
    pub scale: BeadScale,
    pub starts_at: Timestamp,
    pub ends_at: Timestamp,
    pub sectors: Vec<G>,
    pub evidence: Vec<EvidenceRef>,
    pub unresolved_unknowns: Vec<String>,
}

/// The ids of the evidence with `status`, in order.
pub open spec fn ids_with_status(evidence: Seq<EvidenceRef>, status: EvidenceStatus) -> Seq<Seq<char>>
    decreases evidence.len(),
{
    if evidence.len() == 0 {
        Seq::empty()
    } else {
        let prior = ids_with_status(evidence.drop_last(), status);
        if evidence.last().status == status {
            prior.push(evidence.last().id@)
        } else {
            prior
        }
    }
}

/// `after` is `before` with nothing changed but its evidence.
pub open spec fn same_but_evidence<G>(after: TrajectoryBead<G>, before: TrajectoryBead<G>) -> bool {
    &&& after.id == before.id
    &&& after.scale == before.scale
    &&& after.starts_at == before.starts_at
    &&& after.ends_at == before.ends_at
    &&& after.sectors == before.sectors
    &&& after.unresolved_unknowns == before.unresolved_unknowns
}

fn ids_with(evidence: &Vec<EvidenceRef>, status: EvidenceStatus) -> (r: Vec<String>)
    ensures
        texts_of(r@) == ids_with_status(evidence@, status),
{
    let mut out: Vec<String> = Vec::new();
    let mut i: usize = 0;
    while i < evidence.len()
        invariant
            i <= evidence@.len(),
            texts_of(out@) == ids_with_status(evidence@.subrange(0, i as int), status),
        decreases evidence@.len() - i,
    {
        let ghost prior = texts_of(out@);
        assert(evidence@.subrange(0, i + 1).drop_last() =~= evidence@.subrange(0, i as int));
        if evidence[i].status == status {
            out.push(evidence[i].id.clone());
            assert(texts_of(out@) =~= prior.push(evidence@[i as int].id@));
        }
        i = i + 1;
    }
    assert(evidence@.subrange(0, evidence@.len() as int) =~= evidence@);
    out
}

impl<G> TrajectoryBead<G> {
    pub fn new(id: BeadId, scale: BeadScale, starts_at: Timestamp, ends_at: Timestamp) -> (b: Self)
        requires
            starts_at@ <= ends_at@,
        ensures
            b.id == id,
            b.scale == scale,
            b.starts_at == starts_at,
            b.ends_at == ends_at,
            b.sectors@ == Seq::<G>::empty(),
            b.evidence@ == Seq::<EvidenceRef>::empty(),
            b.unresolved_unknowns@ == Seq::<String>::empty(),
    {
        TrajectoryBead {
            id,
            scale,
            starts_at,
            ends_at,
            sectors: Vec::new(),
            evidence: Vec::new(),
            unresolved_unknowns: Vec::new(),
        }
    }

    pub fn with_sector(self, sector: G) -> (b: Self)
        ensures
            b.sectors@ == self.sectors@.push(sector),
            b.id == self.id,
            b.scale == self.scale,
            b.starts_at == self.starts_at,
            b.ends_at == self.ends_at,
            b.evidence == self.evidence,
            b.unresolved_unknowns == self.unresolved_unknowns,
    {
        let mut b = self;
        b.sectors.push(sector);
        b
    }

    pub fn with_evidence(self, evidence: EvidenceRef) -> (b: Self)
        ensures
            b.evidence@ == self.evidence@.push(evidence),
            same_but_evidence(b, self),
    {
        let mut b = self;
        b.evidence.push(evidence);
        b
    }

    pub fn with_unknown(self, unknown: &str) -> (b: Self)
        ensures
            texts_of(b.unresolved_unknowns@) == texts_of(self.unresolved_unknowns@).push(unknown@),
            b.id == self.id,
            b.scale == self.scale,
            b.starts_at == self.starts_at,
            b.ends_at == self.ends_at,
            b.sectors == self.sectors,
            b.evidence == self.evidence,
    {
        let mut b = self;
        let ghost before = texts_of(b.unresolved_unknowns@);
        b.unresolved_unknowns.push(unknown.to_owned());
        assert(texts_of(b.unresolved_unknowns@) =~= before.push(unknown@));
        b
    }

    pub fn supported_evidence_count(&self) -> (n: usize)
        ensures
            n == ids_with_status(self.evidence@, EvidenceStatus::Supported).len(),
    {
        ids_with(&self.evidence, EvidenceStatus::Supported).len()
    }

    /// Produces a trajectory commit only when the bead has at least one
    /// supported proof, no contradicted proof, and no unresolved unknowns.
    pub fn prove_transition(&self, label: &str, note: &str) -> (r: Result<BeadCommit, CommitBlock>)
        ensures
            self.unresolved_unknowns@.len() > 0 ==> (r matches Err(CommitBlock::UnresolvedUnknowns(u))
                && u@ == self.unresolved_unknowns@),
            self.unresolved_unknowns@.len() == 0 && ids_with_status(
                self.evidence@,
                EvidenceStatus::Contradicted,
            ).len() > 0 ==> (r matches Err(CommitBlock::ContradictedEvidence(c)) && texts_of(c@)
                == ids_with_status(self.evidence@, EvidenceStatus::Contradicted)),
            self.unresolved_unknowns@.len() == 0 && ids_with_status(
                self.evidence@,
                EvidenceStatus::Contradicted,
            ).len() == 0 && ids_with_status(self.evidence@, EvidenceStatus::Supported).len() == 0
                ==> r == Err::<BeadCommit, CommitBlock>(CommitBlock::NoSupportedEvidence),
            r matches Ok(commit) ==> {
                &&& self.unresolved_unknowns@.len() == 0
                &&& ids_with_status(self.evidence@, EvidenceStatus::Contradicted).len() == 0
                &&& ids_with_status(self.evidence@, EvidenceStatus::Supported).len() > 0
                &&& commit.bead_id == self.id
                &&& texts_of(commit.proof_refs@) == ids_with_status(
                    self.evidence@,
                    EvidenceStatus::Supported,
                )
                &&& commit.transition.label@ == label@
                &&& commit.transition.occurred_at == self.ends_at
                &&& commit.transition.note@ == note@
            },
    {
        if self.unresolved_unknowns.len() > 0 {
            return Err(CommitBlock::UnresolvedUnknowns(copy_texts(&self.unresolved_unknowns)));
        }
        let contradicted = ids_with(&self.evidence, EvidenceStatus::Contradicted);
        if contradicted.len() > 0 {
            return Err(CommitBlock::ContradictedEvidence(contradicted));
        }
        let supported = ids_with(&self.evidence, EvidenceStatus::Supported);
        if supported.len() == 0 {
            return Err(CommitBlock::NoSupportedEvidence);
        }
        Ok(
            BeadCommit {
                bead_id: self.id.clone(),
                proof_refs: supported,
                transition: StateTransition::new(label, self.ends_at, note),
            },
        )
    }
}

/// What a piece of evidence says: its id, its status and its note.
pub open spec fn evidence_view(e: EvidenceRef) -> (Seq<char>, EvidenceStatus, Seq<char>) {
    (e.id@, e.status, e.note@)
}

/// What each piece of evidence says, in order.
pub open spec fn evidence_views(evidence: Seq<EvidenceRef>) -> Seq<(Seq<char>, EvidenceStatus, Seq<char>)> {
    Seq::new(evidence.len(), |i: int| evidence_view(evidence[i]))
}

/// The first evidence at or after `k` with the id `id`.
pub open spec fn first_with_id(
    evidence: Seq<(Seq<char>, EvidenceStatus, Seq<char>)>,
    id: Seq<char>,
    k: int,
) -> Option<int>
    decreases evidence.len() - k,
{
    if k < 0 || k >= evidence.len() {
        None
    } else if evidence[k].0 == id {
        Some(k)
    } else {
        first_with_id(evidence, id, k + 1)
    }
}

/// The note evidence carried from bead `from` is given.
pub open spec fn carried_note(from: Seq<char>) -> Seq<char> {
    "carried from "@ + from
}

/// Carries `proofs` into evidence, in order: a proof already held as
/// supported evidence is reused, one held with another status stops the
/// carry (`Err` with the proof), any other is added as supported evidence.
pub open spec fn carry_views(
    evidence: Seq<(Seq<char>, EvidenceStatus, Seq<char>)>,
    proofs: Seq<Seq<char>>,
    note: Seq<char>,
) -> Result<Seq<(Seq<char>, EvidenceStatus, Seq<char>)>, Seq<char>>
    decreases proofs.len(),
{
    if proofs.len() == 0 {
        Ok(evidence)
    } else {
        match carry_views(evidence, proofs.drop_last(), note) {
            Err(p) => Err(p),
            Ok(current) => {
                let p = proofs.last();
                match first_with_id(current, p, 0) {
                    Some(k) => if current[k].1 != EvidenceStatus::Supported {
                        Err(p)
                    } else {
                        Ok(current)
                    },
                    None => Ok(current.push((p, EvidenceStatus::Supported, note))),
                }
            },
        }
    }
}

fn find_evidence(evidence: &Vec<EvidenceRef>, id: &String) -> (r: Option<usize>)
    ensures
        match r {
            Some(k) => first_with_id(evidence_views(evidence@), id@, 0) == Some(k as int) && k
                < evidence@.len() && evidence@[k as int].id@ == id@,
            None => first_with_id(evidence_views(evidence@), id@, 0) is None,
        },
{
    let ghost views = evidence_views(evidence@);
    let mut i: usize = 0;
    while i < evidence.len()
        invariant
            views == evidence_views(evidence@),
            i <= evidence@.len(),
            first_with_id(views, id@, 0) == first_with_id(views, id@, i as int),
        decreases evidence@.len() - i,
    {
        if evidence[i].id.eq(id) {
            return Some(i);
        }
        i = i + 1;
    }
    None
}

/// A linear proof-carrying sequence of bounded local realities.
///
/// The chain permits temporal gaps but rejects overlap. A gap is an explicit
/// absence of modeled context; it is not silently rewritten as continuity.
#[derive(Debug)]
pub struct BeadChain<G> {
    beads: Vec<TrajectoryBead<G>>,
    carries: Vec<ProofCarry>,
}

/// Each bead starts no earlier than the bead before it ends.
pub open spec fn no_overlap<G>(beads: Seq<TrajectoryBead<G>>) -> bool {
    forall|i: int| 0 <= i < beads.len() - 1 ==> (#[trigger] beads[i + 1]).starts_at@ >= beads[i].ends_at@
}

/// Appending `bead` would start it before the last bead ends.
pub open spec fn overlaps<G>(beads: Seq<TrajectoryBead<G>>, bead: TrajectoryBead<G>) -> bool {
    beads.len() > 0 && bead.starts_at@ < beads.last().ends_at@
}

/// The first bead at or after `k` with the id `id`.
pub open spec fn first_bead_with_id<G>(beads: Seq<TrajectoryBead<G>>, id: Seq<char>, k: int) -> Option<int>
    decreases beads.len() - k,
{
    if k < 0 || k >= beads.len() {
        None
    } else if beads[k].id@ == id {
        Some(k)
    } else {
        first_bead_with_id(beads, id, k + 1)
    }
}

/// Evidence holds `id` as supported evidence.
pub open spec fn holds_supported(evidence: Seq<EvidenceRef>, id: Seq<char>) -> bool {
    exists|k: int|
        0 <= k < evidence.len() && (#[trigger] evidence[k]).id@ == id && evidence[k].status
            == EvidenceStatus::Supported
}

/// The bead a carry leads to holds every carried proof as supported evidence.
pub open spec fn carry_intact<G>(beads: Seq<TrajectoryBead<G>>, carry: ProofCarry) -> bool {
    match first_bead_with_id(beads, carry.to_bead@, 0) {
        None => false,
        Some(j) => forall|p: int|
            0 <= p < carry.proof_refs@.len() ==> holds_supported(
                beads[j].evidence@,
                (#[trigger] carry.proof_refs@[p])@,
            ),
    }
}

fn holds_supported_exec(evidence: &Vec<EvidenceRef>, id: &String) -> (b: bool)
    ensures
        b == holds_supported(evidence@, id@),
{
    let mut k: usize = 0;
    while k < evidence.len()
        invariant
            k <= evidence@.len(),
            forall|m: int|
                0 <= m < k ==> !((#[trigger] evidence@[m]).id@ == id@ && evidence@[m].status
                    == EvidenceStatus::Supported),
        decreases evidence@.len() - k,
    {
        if evidence[k].id.eq(id) && evidence[k].status == EvidenceStatus::Supported {
            return true;
        }
        k = k + 1;
    }
    false
}

fn all_held(evidence: &Vec<EvidenceRef>, proofs: &Vec<String>) -> (b: bool)
    ensures
        b == forall|p: int| 0 <= p < proofs@.len() ==> holds_supported(evidence@, (#[trigger] proofs@[p])@),
{
    let mut p: usize = 0;
    while p < proofs.len()
        invariant
            p <= proofs@.len(),
            forall|q: int| 0 <= q < p ==> holds_supported(evidence@, (#[trigger] proofs@[q])@),
        decreases proofs@.len() - p,
    {
        if !holds_supported_exec(evidence, &proofs[p]) {
            return false;
        }
        p = p + 1;
    }
    true
}

/// A provenance-preserving result of causal zoom: the zoomed bead, and the
/// source beads and proofs it was drawn from.
#[derive(Debug)]
pub struct BeadAggregate<G> {
    pub bead: TrajectoryBead<G>,
    pub source_beads: Vec<BeadId>,
    pub source_proofs: Vec<String>,
}

impl<G> BeadAggregate<G> {
    pub fn into_bead(self) -> (b: TrajectoryBead<G>)
        ensures
            b == self.bead,
    {
        self.bead
    }
}

/// The supported proof ids of the beads `start..end`, in order.
pub open spec fn window_supported<G>(beads: Seq<TrajectoryBead<G>>, start: int, end: int) -> Seq<Seq<char>>
    decreases end - start,
{
    if end <= start {
        Seq::empty()
    } else {
        window_supported(beads, start, end - 1) + ids_with_status(
            beads[end - 1].evidence@,
            EvidenceStatus::Supported,
        )
    }
}

/// The unresolved unknowns of the beads `start..end`, in order.
pub open spec fn window_unknowns<G>(beads: Seq<TrajectoryBead<G>>, start: int, end: int) -> Seq<Seq<char>>
    decreases end - start,
{
    if end <= start {
        Seq::empty()
    } else {
        window_unknowns(beads, start, end - 1) + texts_of(beads[end - 1].unresolved_unknowns@)
    }
}

/// The first bead from `k` up to `end` whose scale `target` is not coarser than.
pub open spec fn first_finer<G>(beads: Seq<TrajectoryBead<G>>, target: BeadScale, k: int, end: int) -> Option<int>
    decreases end - k,
{
    if k >= end {
        None
    } else if !spec_scale_is_coarser(target, beads[k].scale) {
        Some(k)
    } else {
        first_finer(beads, target, k + 1, end)
    }
}

/// `out` holds exactly the texts of `from`, in strictly increasing order.
pub open spec fn sorted_set_of(out: Seq<Seq<char>>, from: Seq<Seq<char>>) -> bool {
    &&& strictly_sorted(out)
    &&& forall|t: Seq<char>| #[trigger] out.contains(t) <==> from.contains(t)
}

fn append_texts(out: &mut Vec<String>, more: &Vec<String>)
    ensures
        texts_of(final(out)@) == texts_of(old(out)@) + texts_of(more@),
{
    let ghost start = texts_of(out@);
    let mut i: usize = 0;
    while i < more.len()
        invariant
            i <= more@.len(),
            texts_of(out@) == start + texts_of(more@.subrange(0, i as int)),
        decreases more@.len() - i,
    {
        let ghost before = texts_of(out@);
        out.push(more[i].clone());
        assert(texts_of(out@) =~= before.push(more@[i as int]@));
        assert(texts_of(more@.subrange(0, i + 1)) =~= texts_of(more@.subrange(0, i as int)).push(
            more@[i as int]@,
        ));
        i = i + 1;
    }
    assert(more@.subrange(0, more@.len() as int) =~= more@);
}

fn sorted_set(v: &Vec<String>) -> (r: Vec<String>)
    ensures
        sorted_set_of(texts_of(r@), texts_of(v@)),
{
    let mut out: Vec<String> = Vec::new();
    let ghost all = texts_of(v@);
    let mut i: usize = 0;
    assert(texts_of(out@) =~= Seq::<Seq<char>>::empty());
    while i < v.len()
        invariant
            i <= v@.len(),
            all == texts_of(v@),
            strictly_sorted(texts_of(out@)),
            forall|t: Seq<char>|
                #[trigger] texts_of(out@).contains(t) <==> all.subrange(0, i as int).contains(t),
        decreases v@.len() - i,
    {
        insert_sorted(&mut out, v[i].as_str());
        assert forall|t: Seq<char>| #[trigger] all.subrange(0, i + 1).contains(t) <==> (all.subrange(
            0,
            i as int,
        ).contains(t) || t == v@[i as int]@) by {
            let next = all.subrange(0, i + 1);
            if next.contains(t) {
                let k = choose|k: int| 0 <= k < next.len() && next[k] == t;
                if k < i {
                    assert(all.subrange(0, i as int)[k] == t);
                }
            }
            if all.subrange(0, i as int).contains(t) {
                let k = choose|k: int| 0 <= k < i && all.subrange(0, i as int)[k] == t;
                assert(next[k] == t);
            }
            if t == v@[i as int]@ {
                assert(next[i as int] == t);
            }
        }
        i = i + 1;
    }
    assert(all.subrange(0, all.len() as int) =~= all);
    out
}

impl<G> BeadChain<G> {
    pub closed spec fn spec_beads(&self) -> Seq<TrajectoryBead<G>> {
        self.beads@
    }

    pub closed spec fn spec_carries(&self) -> Seq<ProofCarry> {
        self.carries@
    }

    /// The chain's invariant: no bead overlaps the bead before it.
    pub open spec fn wf(&self) -> bool {
        no_overlap(self.spec_beads())
    }

    pub fn new() -> (c: Self)
        ensures
            c.wf(),
            c.spec_beads() == Seq::<TrajectoryBead<G>>::empty(),
            c.spec_carries() == Seq::<ProofCarry>::empty(),
    {
        BeadChain { beads: Vec::new(), carries: Vec::new() }
    }

    pub fn beads(&self) -> (r: &[TrajectoryBead<G>])
        ensures
            r@ == self.spec_beads(),
    {
        self.beads.as_slice()
    }

    pub fn carries(&self) -> (r: &[ProofCarry])
        ensures
            r@ == self.spec_carries(),
    {
        self.carries.as_slice()
    }

    pub fn latest(&self) -> (r: Option<&TrajectoryBead<G>>)
        ensures
            r == if self.spec_beads().len() == 0 {
                None
            } else {
                Some(&self.spec_beads().last())
            },
    {
        if self.beads.len() == 0 {
            None
        } else {
            Some(&self.beads[self.beads.len() - 1])
        }
    }

    fn validate_temporal_append(&self, bead: &TrajectoryBead<G>) -> (r: Result<(), ChainBlock>)
        ensures
            r is Ok <==> !overlaps(self.spec_beads(), *bead),
            r matches Err(e) ==> (e matches ChainBlock::TemporalOverlap { previous_bead, next_bead }
                && previous_bead == self.spec_beads().last().id && next_bead == bead.id),
    {
        if self.beads.len() > 0 {
            let previous = &self.beads[self.beads.len() - 1];
            if bead.starts_at.epoch_seconds() < previous.ends_at.epoch_seconds() {
                return Err(
                    ChainBlock::TemporalOverlap {
                        previous_bead: previous.id.clone(),
                        next_bead: bead.id.clone(),
                    },
                );
            }
        }
        Ok(())
    }

    /// Appends a bead that does not start before the last bead ends.
    pub fn append(&mut self, bead: TrajectoryBead<G>) -> (r: Result<(), ChainBlock>)
        requires
            old(self).wf(),
        ensures
            final(self).wf(),
            r is Ok <==> !overlaps(old(self).spec_beads(), bead),
            r is Ok ==> final(self).spec_beads() == old(self).spec_beads().push(bead)
                && final(self).spec_carries() == old(self).spec_carries(),
            r matches Err(e) ==> (e matches ChainBlock::TemporalOverlap { previous_bead, next_bead }
                && previous_bead == old(self).spec_beads().last().id && next_bead == bead.id),
            r is Err ==> *final(self) == *old(self),
    {
        self.validate_temporal_append(&bead)?;
        self.beads.push(bead);
        Ok(())
    }

    /// Appends a bead while carrying the previous bead's verified proof refs
    /// forward as explicit supported evidence.
    ///
    /// Existing supported evidence with the same id is reused. Existing
    /// unknown or contradicted evidence with the same id blocks the carry
    /// instead of being overwritten.
    pub fn append_with_commit(&mut self, bead: TrajectoryBead<G>, previous_commit: &BeadCommit) -> (r:
        Result<(), ChainBlock>)
        requires
            old(self).wf(),
        ensures
            final(self).wf(),
            r is Err ==> *final(self) == *old(self),
            old(self).spec_beads().len() == 0 ==> r == Err::<(), ChainBlock>(ChainBlock::NoPreviousBead),
            old(self).spec_beads().len() > 0 ==> {
                let previous = old(self).spec_beads().last();
                let carried = carry_views(
                    evidence_views(bead.evidence@),
                    texts_of(previous_commit.proof_refs@),
                    carried_note(previous.id@),
                );
                if previous_commit.bead_id@ != previous.id@ {
                    r matches Err(ChainBlock::CommitSourceMismatch { expected_bead, commit_bead })
                        && expected_bead == previous.id && commit_bead == previous_commit.bead_id
                } else if overlaps(old(self).spec_beads(), bead) {
                    r matches Err(ChainBlock::TemporalOverlap { previous_bead, next_bead })
                        && previous_bead == previous.id && next_bead == bead.id
                } else {
                    match carried {
                        Err(p) => r matches Err(ChainBlock::ConflictingCarriedProof { proof_ref })
                            && proof_ref@ == p,
                        Ok(evidence) => {
                            &&& r is Ok
                            &&& final(self).spec_beads().len() == old(self).spec_beads().len() + 1
                            &&& final(self).spec_beads().drop_last() == old(self).spec_beads()
                            &&& same_but_evidence(final(self).spec_beads().last(), bead)
                            &&& evidence_views(final(self).spec_beads().last().evidence@) == evidence
                            &&& final(self).spec_carries().drop_last() == old(self).spec_carries()
                            &&& final(self).spec_carries().len() == old(self).spec_carries().len() + 1
                            &&& final(self).spec_carries().last().from_bead == previous.id
                            &&& final(self).spec_carries().last().to_bead == bead.id
                            &&& final(self).spec_carries().last().proof_refs@
                                == previous_commit.proof_refs@
                        },
                    }
                }
            },
    {
        let n = self.beads.len();
        if n == 0 {
            return Err(ChainBlock::NoPreviousBead);
        }
        let previous_id = self.beads[n - 1].id.clone();
        if previous_commit.bead_id != previous_id {
            return Err(
                ChainBlock::CommitSourceMismatch {
                    expected_bead: previous_id,
                    commit_bead: previous_commit.bead_id.clone(),
                },
            );
        }
        self.validate_temporal_append(&bead)?;
        let mut note = String::from_str("carried from ");
        note.append(previous_id.as_str());
        let carried_bead = match carry_into(bead, &previous_commit.proof_refs, &note) {
            Ok(carried_bead) => carried_bead,
            Err(proof_ref) => {
                return Err(ChainBlock::ConflictingCarriedProof { proof_ref });
            },
        };
        let carry = ProofCarry {
            from_bead: previous_id,
            to_bead: carried_bead.id.clone(),
            proof_refs: copy_texts(&previous_commit.proof_refs),
        };
        self.carries.push(carry);
        self.beads.push(carried_bead);
        proof {
            assert(self.beads@.drop_last() =~= old(self).beads@);
            assert(self.carries@.drop_last() =~= old(self).carries@);
        }
        Ok(())
    }

    /// The unmodeled time between consecutive beads, in seconds; zero means
    /// the beads touch exactly.
    pub fn temporal_gaps(&self) -> (r: Vec<i64>)
        requires
            forall|i: int|
                0 <= i < self.spec_beads().len() - 1 ==> (#[trigger] self.spec_beads()[i + 1]).starts_at@
                    - self.spec_beads()[i].ends_at@ <= i64::MAX,
            forall|i: int|
                0 <= i < self.spec_beads().len() - 1 ==> (#[trigger] self.spec_beads()[i + 1]).starts_at@
                    - self.spec_beads()[i].ends_at@ >= i64::MIN,
        ensures
            r@.len() == if self.spec_beads().len() == 0 {
                0
            } else {
                self.spec_beads().len() - 1
            },
            forall|i: int|
                0 <= i < r@.len() ==> #[trigger] r@[i] == self.spec_beads()[i + 1].starts_at@
                    - self.spec_beads()[i].ends_at@,
    {
        let mut gaps: Vec<i64> = Vec::new();
        if self.beads.len() == 0 {
            return gaps;
        }
        let mut i: usize = 1;
        while i < self.beads.len()
            invariant
                1 <= i <= self.beads@.len(),
                gaps@.len() == i - 1,
                forall|i: int|
                    0 <= i < self.spec_beads().len() - 1 ==> (#[trigger] self.spec_beads()[i + 1]).starts_at@
                        - self.spec_beads()[i].ends_at@ <= i64::MAX,
                forall|i: int|
                    0 <= i < self.spec_beads().len() - 1 ==> (#[trigger] self.spec_beads()[i + 1]).starts_at@
                        - self.spec_beads()[i].ends_at@ >= i64::MIN,
                forall|k: int|
                    0 <= k < gaps@.len() ==> #[trigger] gaps@[k] == self.spec_beads()[k + 1].starts_at@
                        - self.spec_beads()[k].ends_at@,
            decreases self.beads@.len() - i,
        {
            let later = self.beads[i].starts_at.epoch_seconds();
            let earlier = self.beads[i - 1].ends_at.epoch_seconds();
            assert(self.spec_beads()[(i - 1) + 1].starts_at@ - self.spec_beads()[i - 1].ends_at@ <= i64::MAX);
            gaps.push(later - earlier);
            i = i + 1;
        }
        gaps
    }

    /// Whether every recorded carried proof still exists as supported
    /// evidence in its destination bead.
    pub fn proof_continuity_is_intact(&self) -> (b: bool)
        ensures
            b == forall|c: int|
                0 <= c < self.spec_carries().len() ==> carry_intact(
                    self.spec_beads(),
                    #[trigger] self.spec_carries()[c],
                ),
    {
        let mut c: usize = 0;
        while c < self.carries.len()
            invariant
                c <= self.carries@.len(),
                forall|d: int| 0 <= d < c ==> carry_intact(self.spec_beads(), #[trigger] self.spec_carries()[d]),
            decreases self.carries@.len() - c,
        {
            if !self.carry_is_intact(&self.carries[c]) {
                assert(!carry_intact(self.spec_beads(), self.spec_carries()[c as int]));
                return false;
            }
            c = c + 1;
        }
        true
    }

    /// Aggregates the half-open range `start..end` into a coarser bead while
    /// preserving source bead ids, supported proof refs, and unresolved unknowns.
    pub fn aggregate_window(
        &self,
        aggregate_id: BeadId,
        target_scale: BeadScale,
        start: usize,
        end: usize,
    ) -> (r: Result<BeadAggregate<G>, AggregationBlock>)
        ensures
            start >= end ==> r == Err::<BeadAggregate<G>, AggregationBlock>(AggregationBlock::EmptyWindow),
            start < end && end > self.spec_beads().len() ==> r == Err::<
                BeadAggregate<G>,
                AggregationBlock,
            >(AggregationBlock::InvalidWindow),
            start < end <= self.spec_beads().len() ==> match first_finer(
                self.spec_beads(),
                target_scale,
                start as int,
                end as int,
            ) {
                Some(i) => r == Err::<BeadAggregate<G>, AggregationBlock>(
                    AggregationBlock::TargetScaleNotCoarser {
                        source_scale: self.spec_beads()[i].scale,
                        target_scale,
                    },
                ),
                None => r matches Ok(aggregate) && {
                    let beads = self.spec_beads();
                    let proofs = texts_of(aggregate.source_proofs@);
                    &&& aggregate.source_beads@ == Seq::new(
                        (end - start) as nat,
                        |k: int| beads[start + k].id,
                    )
                    &&& sorted_set_of(proofs, window_supported(beads, start as int, end as int))
                    &&& aggregate.bead.id == aggregate_id
                    &&& aggregate.bead.scale == target_scale
                    &&& aggregate.bead.starts_at == beads[start as int].starts_at
                    &&& aggregate.bead.ends_at == beads[end - 1].ends_at
                    &&& aggregate.bead.sectors@ == Seq::<G>::empty()
                    &&& evidence_views(aggregate.bead.evidence@) == Seq::new(
                        proofs.len(),
                        |k: int| (proofs[k], EvidenceStatus::Supported, "preserved by causal zoom"@),
                    )
                    &&& sorted_set_of(
                        texts_of(aggregate.bead.unresolved_unknowns@),
                        window_unknowns(beads, start as int, end as int),
                    )
                },
            },
    {
        if start >= end {
            return Err(AggregationBlock::EmptyWindow);
        }
        if end > self.beads.len() {
            return Err(AggregationBlock::InvalidWindow);
        }
        let ghost beads = self.spec_beads();
        let mut i: usize = start;
        while i < end
            invariant
                beads == self.spec_beads(),
                start <= i <= end <= beads.len(),
                first_finer(beads, target_scale, start as int, end as int) == first_finer(
                    beads,
                    target_scale,
                    i as int,
                    end as int,
                ),
            decreases end - i,
        {
            if !scale_is_coarser(&target_scale, &self.beads[i].scale) {
                return Err(
                    AggregationBlock::TargetScaleNotCoarser {
                        source_scale: self.beads[i].scale.clone(),
                        target_scale: target_scale.clone(),
                    },
                );
            }
            i = i + 1;
        }
        let mut flat_proofs: Vec<String> = Vec::new();
        let mut flat_unknowns: Vec<String> = Vec::new();
        let mut source_beads: Vec<BeadId> = Vec::new();
        i = start;
        assert(texts_of(flat_proofs@) =~= Seq::<Seq<char>>::empty());
        assert(texts_of(flat_unknowns@) =~= Seq::<Seq<char>>::empty());
        while i < end
            invariant
                beads == self.spec_beads(),
                start <= i <= end <= beads.len(),
                texts_of(flat_proofs@) == window_supported(beads, start as int, i as int),
                texts_of(flat_unknowns@) == window_unknowns(beads, start as int, i as int),
                source_beads@ == Seq::new((i - start) as nat, |k: int| beads[start + k].id),
            decreases end - i,
        {
            source_beads.push(self.beads[i].id.clone());
            let ids = ids_with(&self.beads[i].evidence, EvidenceStatus::Supported);
            append_texts(&mut flat_proofs, &ids);
            append_texts(&mut flat_unknowns, &self.beads[i].unresolved_unknowns);
            assert(source_beads@ =~= Seq::new((i + 1 - start) as nat, |k: int| beads[start + k].id));
            i = i + 1;
        }
        let source_proofs = sorted_set(&flat_proofs);
        let unknowns = sorted_set(&flat_unknowns);
        let ghost proofs = texts_of(source_proofs@);
        let mut evidence: Vec<EvidenceRef> = Vec::new();
        let mut k: usize = 0;
        while k < source_proofs.len()
            invariant
                k <= source_proofs@.len(),
                proofs == texts_of(source_proofs@),
                evidence_views(evidence@) == Seq::new(
                    k as nat,
                    |m: int| (proofs[m], EvidenceStatus::Supported, "preserved by causal zoom"@),
                ),
            decreases source_proofs@.len() - k,
        {
            let ghost before = evidence_views(evidence@);
            evidence.push(
                EvidenceRef::new(
                    source_proofs[k].as_str(),
                    EvidenceStatus::Supported,
                    "preserved by causal zoom",
                ),
            );
            assert(proofs[k as int] == source_proofs@[k as int]@);
            assert(evidence_views(evidence@) =~= before.push(evidence_view(evidence@[k as int])));
            assert(evidence_views(evidence@) =~= Seq::new(
                (k + 1) as nat,
                |m: int| (proofs[m], EvidenceStatus::Supported, "preserved by causal zoom"@),
            ));
            k = k + 1;
        }
        let bead = TrajectoryBead {
            id: aggregate_id,
            scale: target_scale,
            starts_at: self.beads[start].starts_at,
            ends_at: self.beads[end - 1].ends_at,
            sectors: Vec::new(),
            evidence,
            unresolved_unknowns: unknowns,
        };
        Ok(BeadAggregate { bead, source_beads, source_proofs })
    }

    fn carry_is_intact(&self, carry: &ProofCarry) -> (b: bool)
        ensures
            b == carry_intact(self.spec_beads(), *carry),
    {
        let ghost beads = self.spec_beads();
        let mut j: usize = 0;
        while j < self.beads.len()
            invariant
                beads == self.spec_beads(),
                j <= beads.len(),
                first_bead_with_id(beads, carry.to_bead@, 0) == first_bead_with_id(beads, carry.to_bead@, j as int),
            decreases beads.len() - j,
        {
            if self.beads[j].id == carry.to_bead {
                assert(first_bead_with_id(beads, carry.to_bead@, j as int) == Some(j as int));
                return all_held(&self.beads[j].evidence, &carry.proof_refs);
            }
            j = j + 1;
        }
        false
    }

}

/// Carries proofs into a bead's evidence as `carry_views` says.
fn carry_into<G>(bead: TrajectoryBead<G>, proofs: &Vec<String>, note: &String) -> (r: Result<
    TrajectoryBead<G>,
    String,
>)
    ensures
        match carry_views(evidence_views(bead.evidence@), texts_of(proofs@), note@) {
            Err(p) => r matches Err(q) && q@ == p,
            Ok(evidence) => r matches Ok(b) && same_but_evidence(b, bead) && evidence_views(
                b.evidence@,
            ) == evidence,
        },
{
    let ghost start = evidence_views(bead.evidence@);
    let ghost all = texts_of(proofs@);
    let ghost original = bead;
    let mut carried = bead;
    let mut j: usize = 0;
    while j < proofs.len()
        invariant
            j <= proofs@.len(),
            original == bead,
            start == evidence_views(original.evidence@),
            all == texts_of(proofs@),
            same_but_evidence(carried, original),
            carry_views(start, all.subrange(0, j as int), note@) == Ok::<
                Seq<(Seq<char>, EvidenceStatus, Seq<char>)>,
                Seq<char>,
            >(evidence_views(carried.evidence@)),
        decreases proofs@.len() - j,
    {
        let proof_ref = &proofs[j];
        assert(all.subrange(0, j + 1).drop_last() =~= all.subrange(0, j as int));
        assert(all.subrange(0, j + 1).last() == proof_ref@);
        match find_evidence(&carried.evidence, proof_ref) {
            Some(k) => {
                assert(evidence_views(carried.evidence@)[k as int] == evidence_view(carried.evidence@[k as int]));
                if carried.evidence[k].status != EvidenceStatus::Supported {
                    proof {
                        lemma_carry_fails_later(start, all, j as int + 1, note@);
                    }
                    return Err(proof_ref.clone());
                }
            },
            None => {
                let ghost before = evidence_views(carried.evidence@);
                carried.evidence.push(
                    EvidenceRef {
                        id: proof_ref.clone(),
                        status: EvidenceStatus::Supported,
                        note: note.clone(),
                    },
                );
                assert(evidence_views(carried.evidence@) =~= before.push(
                    (proof_ref@, EvidenceStatus::Supported, note@),
                ));
            },
        }
        j = j + 1;
    }
    assert(all.subrange(0, all.len() as int) =~= all);
    Ok(carried)
}

/// Once a carry stops at a proof, carrying more proofs stops too.
proof fn lemma_carry_fails_later(
    start: Seq<(Seq<char>, EvidenceStatus, Seq<char>)>,
    proofs: Seq<Seq<char>>,
    k: int,
    note: Seq<char>,
)
    requires
        0 <= k <= proofs.len(),
        carry_views(start, proofs.subrange(0, k), note) is Err,
    ensures
        carry_views(start, proofs, note) == carry_views(start, proofs.subrange(0, k), note),
    decreases proofs.len() - k,
{
    if k < proofs.len() {
        let next = proofs.subrange(0, k + 1);
        assert(next.drop_last() =~= proofs.subrange(0, k));
        lemma_carry_fails_later(start, proofs, k + 1, note);
    } else {
        assert(proofs.subrange(0, k) =~= proofs);
    }
}

/// Every proof a carry brings into a bead is held there as supported
/// evidence once the carry succeeds.
pub proof fn law_carried_proofs_are_supported(
    evidence: Seq<(Seq<char>, EvidenceStatus, Seq<char>)>,
    proofs: Seq<Seq<char>>,
    note: Seq<char>,
)
    requires
        carry_views(evidence, proofs, note) is Ok,
    ensures
        forall|p: int|
            0 <= p < proofs.len() ==> exists|k: int|
                0 <= k < carry_views(evidence, proofs, note)->Ok_0.len() && carry_views(
                    evidence,
                    proofs,
                    note,
                )->Ok_0[k].0 == #[trigger] proofs[p] && carry_views(evidence, proofs, note)->Ok_0[k].1
                    == EvidenceStatus::Supported,
    decreases proofs.len(),
{
    if proofs.len() > 0 {
        let prior = proofs.drop_last();
        law_carried_proofs_are_supported(evidence, prior, note);
        let current = carry_views(evidence, prior, note)->Ok_0;
        let out = carry_views(evidence, proofs, note)->Ok_0;
        let last = proofs.last();
        lemma_first_with_id(current, last, 0);
        assert(current.len() <= out.len() && forall|k: int| 0 <= k < current.len() ==> out[k] == current[k]);
        assert forall|p: int| 0 <= p < proofs.len() implies exists|k: int|
            0 <= k < out.len() && out[k].0 == #[trigger] proofs[p] && out[k].1 == EvidenceStatus::Supported by {
            if p < proofs.len() - 1 {
                assert(prior[p] == proofs[p]);
                let k = choose|k: int| 0 <= k < current.len() && current[k].0 == prior[p] && current[k].1
                    == EvidenceStatus::Supported;
                assert(out[k] == current[k]);
            } else {
                match first_with_id(current, last, 0) {
                    Some(k) => {
                        assert(out[k] == current[k]);
                    },
                    None => {
                        assert(out[current.len() as int].0 == last);
                    },
                }
            }
        }
    }
}

/// Where `first_with_id` finds an id, the evidence there has it.
proof fn lemma_first_with_id(evidence: Seq<(Seq<char>, EvidenceStatus, Seq<char>)>, id: Seq<char>, k: int)
    ensures
        first_with_id(evidence, id, k) matches Some(i) ==> k <= i < evidence.len() && evidence[i].0 == id,
    decreases evidence.len() - k,
{
    if 0 <= k < evidence.len() && evidence[k].0 != id {
        lemma_first_with_id(evidence, id, k + 1);
    }
}

/// Zooming a window that holds an unresolved unknown gives a bead that holds
/// one too, so its transition stays blocked.
pub proof fn law_zoom_keeps_unknowns_blocking(unknowns: Seq<Seq<char>>, window: Seq<Seq<char>>)
    requires
        sorted_set_of(unknowns, window),
        window.len() > 0,
    ensures
        unknowns.len() > 0,
{
    assert(window.contains(window[0]));
    assert(unknowns.contains(window[0]));
}

/// A window that `aggregate_window` accepts for `target` (no bead the target
/// fails to coarsen) holds only beads the target is coarser than.
proof fn lemma_no_finer_bead<G>(beads: Seq<TrajectoryBead<G>>, target: BeadScale, k: int, end: int)
    requires
        first_finer(beads, target, k, end) is None,
    ensures
        forall|j: int| k <= j < end ==> spec_scale_is_coarser(target, (#[trigger] beads[j]).scale),
    decreases end - k,
{
    if k < end {
        lemma_no_finer_bead(beads, target, k + 1, end);
    }
}

/// Zooming only coarsens: when `aggregate_window` aggregates a window into a
/// calendar target scale, no calendar bead of the window has the target's
/// scale or a coarser one, so an hour bead is never zoomed into minutes.
pub proof fn law_zoom_only_coarsens<G>(beads: Seq<TrajectoryBead<G>>, target: BeadScale, start: int, end: int)
    requires
        first_finer(beads, target, start, end) is None,
    ensures
        forall|k: int|
            start <= k < end && is_calendar_scale(target) && is_calendar_scale(
                (#[trigger] beads[k]).scale,
            ) ==> beads[k].scale != target && !spec_scale_is_coarser(beads[k].scale, target),
{
    lemma_no_finer_bead(beads, target, start, end);
    assert forall|k: int|
        start <= k < end && is_calendar_scale(target) && is_calendar_scale(
            (#[trigger] beads[k]).scale,
        ) implies beads[k].scale != target && !spec_scale_is_coarser(beads[k].scale, target) by {
        law_calendar_coarsening_is_strict(target, beads[k].scale, target);
    }
}

} // verus!
