//! Trajectory vocabulary: lifecycle stages, named transitions and time windows.
use vstd::prelude::*;

use crate::primitives::Timestamp;

verus! {

/// High-level lifecycle phase of an entity.
#[derive(Debug, Clone, PartialEq, Eq, Structural)]
pub enum LifecycleStage {
    Emerging,
    Stabilizing,
    Evolving,
    Transforming,
    Dormant,
}

/// A named change in the trajectory history of an entity.
#[derive(Debug, PartialEq)]
pub struct StateTransition {
    pub label: String,
    pub occurred_at: Timestamp,
    pub note: String,
}

impl StateTransition {
    /// Creates a transition event with a label, timestamp, and note.
    pub fn new(label: &str, occurred_at: Timestamp, note: &str) -> (t: Self)
        ensures
            t.label@ == label@,
            t.occurred_at == occurred_at,
            t.note@ == note@,
    {
        StateTransition { label: label.to_owned(), occurred_at, note: note.to_owned() }
    }
}

impl Clone for StateTransition {
    fn clone(&self) -> (r: Self)
        ensures
            r == *self,
    {
        StateTransition {
            label: self.label.clone(),
            occurred_at: self.occurred_at,
            note: self.note.clone(),
        }
    }
}

/// Time scale represented by one bead on a trajectory thread.
#[derive(Debug, Clone, PartialEq, Eq)]
pub enum TemporalGranularity {
    Frame,
    Iteration,
    Session,
    Hour,
    Day,
    Week,
    Custom(String),
}

/// Closed temporal interval covered by a trajectory bead.
#[derive(Debug, Clone, Copy, PartialEq, Eq, Structural)]
pub struct TimeWindow {
    pub start: Timestamp,
    pub end: Timestamp,
}

impl TimeWindow {
    /// A window must not run backwards.
    pub fn new(start: Timestamp, end: Timestamp) -> (w: Self)
        requires
            start@ <= end@,
        ensures
            w.start == start,
            w.end == end,
    {
        TimeWindow { start, end }
    }

    /// Seconds from the start of the window to its end.
    pub fn duration_seconds(self) -> (d: i64)
        requires
            i64::MIN <= self.end@ - self.start@ <= i64::MAX,
        ensures
            d == self.end@ - self.start@,
    {
        self.end.epoch_seconds() - self.start.epoch_seconds()
    }
}

/// Kind of movement from one bead to another.
#[derive(Debug, Clone, PartialEq, Eq)]
pub enum BeadTransitionKind {
    Observation,
    Refinement,
    Divergence,
    Recovery,
    Branch,
    Merge,
    Custom(String),
}

} // verus!
