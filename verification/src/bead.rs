//! Evidence-gated trajectory beads: identities, evidence references, commits
//! and the blocks a proof-carrying chain can report.
use vstd::prelude::*;

use crate::trajectory::StateTransition;

verus! {

/// Stable identifier for one bounded trajectory context (a "bead").
#[derive(Debug, Hash)]
pub struct BeadId(String);

impl View for BeadId {
    type V = Seq<char>;

    closed spec fn view(&self) -> Seq<char> {
        self.0@
    }
}

impl BeadId {
    pub fn new(value: &str) -> (id: Self)
        ensures
            id@ == value@,
    {
        BeadId(value.to_owned())
    }

    pub fn as_str(&self) -> (s: &str)
        ensures
            s@ == self@,
    {
        self.0.as_str()
    }
}

impl Clone for BeadId {
    fn clone(&self) -> (r: Self)
        ensures
            r == *self,
    {
        BeadId(self.0.clone())
    }
}

impl PartialEq for BeadId {
    fn eq(&self, other: &Self) -> (r: bool) {
        self.0.eq(&other.0)
    }
}

impl Eq for BeadId {}

impl vstd::std_specs::cmp::PartialEqSpecImpl for BeadId {
    open spec fn obeys_eq_spec() -> bool {
        true
    }

    open spec fn eq_spec(&self, other: &Self) -> bool {
        self@ == other@
    }
}

/// Temporal or semantic scale used to bound a bead.
#[derive(Debug, PartialEq, Eq)]
pub enum BeadScale {
    Event,
    Minute,
    Hour,
    Day,
    Week,
    Custom(String),
}

impl Clone for BeadScale {
    fn clone(&self) -> (r: Self)
        ensures
            r == *self,
    {
        match self {
            BeadScale::Event => BeadScale::Event,
            BeadScale::Minute => BeadScale::Minute,
            BeadScale::Hour => BeadScale::Hour,
            BeadScale::Day => BeadScale::Day,
            BeadScale::Week => BeadScale::Week,
            BeadScale::Custom(label) => BeadScale::Custom(label.clone()),
        }
    }
}

/// A sector is one projection of reality inside a bead.
#[derive(Debug, Clone, PartialEq, Eq)]
pub enum SectorKind {
    Causality,
    Orientation,
    State,
    Agent,
    Evidence,
    Environment,
    Risk,
    Outcome,
    Reflection,
    Resonance,
    Synergy,
    Custom(String),
}

/// Evidence remains explicitly three-valued: unknown is not false.
#[derive(Debug, Clone, Copy, PartialEq, Eq, Structural)]
pub enum EvidenceStatus {
    Unknown,
    Supported,
    Contradicted,
}

#[derive(Debug, PartialEq, Eq)]
pub struct EvidenceRef {
    pub id: String,
    pub status: EvidenceStatus,
    pub note: String,
}

impl EvidenceRef {
    pub fn new(id: &str, status: EvidenceStatus, note: &str) -> (e: Self)
        ensures
            e.id@ == id@,
            e.status == status,
            e.note@ == note@,
    {
        EvidenceRef { id: id.to_owned(), status, note: note.to_owned() }
    }
}

impl Clone for EvidenceRef {
    fn clone(&self) -> (r: Self)
        ensures
            r == *self,
    {
        EvidenceRef { id: self.id.clone(), status: self.status, note: self.note.clone() }
    }
}

/// Why a bead cannot commit a trajectory transition.
#[derive(Debug, Clone, PartialEq, Eq)]
pub enum CommitBlock {
    NoSupportedEvidence,
    UnresolvedUnknowns(Vec<String>),
    ContradictedEvidence(Vec<String>),
}

/// The evidence-carrying output that is allowed to move the trajectory forward.
#[derive(Debug, Clone, PartialEq)]
pub struct BeadCommit {
    pub bead_id: BeadId,
    pub proof_refs: Vec<String>,
    pub transition: StateTransition,
}

/// A proof-preserving link between two consecutive beads on one linear trajectory.
#[derive(Debug, Clone, PartialEq, Eq)]
pub struct ProofCarry {
    pub from_bead: BeadId,
    pub to_bead: BeadId,
    pub proof_refs: Vec<String>,
}

/// Reasons why a bead cannot be appended to the current linear chain.
#[derive(Debug, Clone, PartialEq, Eq)]
pub enum ChainBlock {
    NoPreviousBead,
    TemporalOverlap { previous_bead: BeadId, next_bead: BeadId },
    CommitSourceMismatch { expected_bead: BeadId, commit_bead: BeadId },
    ConflictingCarriedProof { proof_ref: String },
}

/// Reasons why a set of lower-level beads cannot be aggregated into a zoomed bead.
#[derive(Debug, Clone, PartialEq, Eq)]
pub enum AggregationBlock {
    EmptyWindow,
    InvalidWindow,
    TargetScaleNotCoarser { source_scale: BeadScale, target_scale: BeadScale },
}

/// Rank of the calendar scales; event and custom scales carry no rank.
pub open spec fn scale_rank(scale: BeadScale) -> Option<u8> {
    match scale {
        BeadScale::Minute => Some(0u8),
        BeadScale::Hour => Some(1u8),
        BeadScale::Day => Some(2u8),
        BeadScale::Week => Some(3u8),
        _ => None,
    }
}

/// A target scale is coarser than a source scale when both are ranked and the
/// target ranks strictly higher; unranked scales never block aggregation.
pub open spec fn spec_scale_is_coarser(target: BeadScale, source: BeadScale) -> bool {
    match (scale_rank(target), scale_rank(source)) {
        (Some(t), Some(s)) => t > s,
        _ => true,
    }
}

/// Minute, hour, day and week: the scales of the calendar.
pub open spec fn is_calendar_scale(scale: BeadScale) -> bool {
    ||| scale is Minute
    ||| scale is Hour
    ||| scale is Day
    ||| scale is Week
}

/// Among the calendar scales, "coarser" is the strict order minute, hour,
/// day, week: no scale is coarser than itself, of two different scales
/// exactly one is coarser than the other, the order is transitive, and each
/// scale of the sequence is coarser than the one before it.
pub proof fn law_calendar_coarsening_is_strict(a: BeadScale, b: BeadScale, c: BeadScale)
    requires
        is_calendar_scale(a),
        is_calendar_scale(b),
        is_calendar_scale(c),
    ensures
        !spec_scale_is_coarser(a, a),
        spec_scale_is_coarser(a, b) ==> !spec_scale_is_coarser(b, a),
        spec_scale_is_coarser(a, b) && spec_scale_is_coarser(b, c) ==> spec_scale_is_coarser(a, c),
        a != b ==> spec_scale_is_coarser(a, b) || spec_scale_is_coarser(b, a),
        spec_scale_is_coarser(BeadScale::Hour, BeadScale::Minute),
        spec_scale_is_coarser(BeadScale::Day, BeadScale::Hour),
        spec_scale_is_coarser(BeadScale::Week, BeadScale::Day),
{
}

pub fn temporal_rank(scale: &BeadScale) -> (r: Option<u8>)
    ensures
        r == scale_rank(*scale),
{
    match scale {
        BeadScale::Minute => Some(0),
        BeadScale::Hour => Some(1),
        BeadScale::Day => Some(2),
        BeadScale::Week => Some(3),
        BeadScale::Event | BeadScale::Custom(_) => None,
    }
}

pub fn scale_is_coarser(target: &BeadScale, source: &BeadScale) -> (r: bool)
    ensures
        r == spec_scale_is_coarser(*target, *source),
{
    match (temporal_rank(target), temporal_rank(source)) {
        (Some(target_rank), Some(source_rank)) => target_rank > source_rank,
        _ => true,
    }
}

} // verus!
