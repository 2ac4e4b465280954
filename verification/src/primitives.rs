//! Foundational primitives: entity identity and second-resolution timestamps.
use vstd::prelude::*;

verus! {

/// Stable identity of a modeled entity.
#[derive(Debug, Clone, Hash)]
pub struct EntityId(String);

impl View for EntityId {
    type V = Seq<char>;

    closed spec fn view(&self) -> Seq<char> {
        self.0@
    }
}

impl EntityId {
    pub fn new(value: &str) -> (id: Self)
        ensures
            id@ == value@,
    {
        EntityId(value.to_owned())
    }

    pub fn as_str(&self) -> (s: &str)
        ensures
            s@ == self@,
    {
        self.0.as_str()
    }
}

impl PartialEq for EntityId {
    fn eq(&self, other: &Self) -> (r: bool) {
        self.0.eq(&other.0)
    }
}

impl Eq for EntityId {}

impl vstd::std_specs::cmp::PartialEqSpecImpl for EntityId {
    open spec fn obeys_eq_spec() -> bool {
        true
    }

    open spec fn eq_spec(&self, other: &Self) -> bool {
        self@ == other@
    }
}

/// A point in time, in whole seconds since the Unix epoch.
#[derive(Debug, Clone, Copy, PartialEq, Eq, Structural, PartialOrd, Ord, Hash)]
pub struct Timestamp(i64);

impl View for Timestamp {
    type V = int;

    closed spec fn view(&self) -> int {
        self.0 as int
    }
}

impl Timestamp {
    pub fn new(epoch_seconds: i64) -> (t: Self)
        ensures
            t@ == epoch_seconds,
    {
        Timestamp(epoch_seconds)
    }

    pub fn epoch_seconds(self) -> (s: i64)
        ensures
            s == self@,
    {
        self.0
    }

    /// A timestamp's second lies in the range of `i64`.
    pub proof fn lemma_view_range(t: Timestamp)
        ensures
            i64::MIN <= t@ <= i64::MAX,
    {
    }

    /// Two timestamps with the same second are the same value.
    pub broadcast proof fn lemma_view_injective(a: Timestamp, b: Timestamp)
        ensures
            #[trigger] a@ == #[trigger] b@ ==> a == b,
    {
    }
}

} // verus!
