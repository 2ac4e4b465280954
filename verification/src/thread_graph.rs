//! Checks over a trajectory thread that only compare identities and times:
//! whether links point only at known ids, which bead ends latest, and the
//! time the beads span.
use vstd::prelude::*;

use crate::codec::texts_of;
use crate::primitives::Timestamp;
use crate::trajectory::TimeWindow;

verus! {

/// Whether `id` is one of `ids`.
fn holds_id(ids: &Vec<String>, id: &String) -> (b: bool)
    ensures
        b == texts_of(ids@).contains(id@),
{
    let mut i: usize = 0;
    while i < ids.len()
        invariant
            i <= ids@.len(),
            forall|j: int| 0 <= j < i ==> texts_of(ids@)[j] != id@,
        decreases ids@.len() - i,
    {
        if crate::text::text_is(ids[i].as_str(), id.as_str()) {
            assert(texts_of(ids@)[i as int] == id@);
            return true;
        }
        i = i + 1;
    }
    false
}

/// Every link joins two of the known ids.
pub open spec fn links_within(ids: Seq<Seq<char>>, links: Seq<(String, String)>) -> bool {
    forall|k: int|
        0 <= k < links.len() ==> ids.contains((#[trigger] links[k]).0@) && ids.contains(links[k].1@)
}

/// Whether every link (an edge of a sector graph between two nodes, or a
/// transition between two beads) joins two of `ids`.
pub fn links_are_within(ids: &Vec<String>, links: &Vec<(String, String)>) -> (b: bool)
    ensures
        b == links_within(texts_of(ids@), links@),
{
    let mut k: usize = 0;
    while k < links.len()
        invariant
            k <= links@.len(),
            forall|j: int|
                0 <= j < k ==> texts_of(ids@).contains((#[trigger] links@[j]).0@) && texts_of(
                    ids@,
                ).contains(links@[j].1@),
        decreases links@.len() - k,
    {
        if !holds_id(ids, &links[k].0) || !holds_id(ids, &links[k].1) {
            return false;
        }
        k = k + 1;
    }
    true
}

/// The position of the latest end among `ends`: the last of the ends that
/// no other end follows.
pub open spec fn is_latest(ends: Seq<Timestamp>, i: int) -> bool {
    &&& 0 <= i < ends.len()
    &&& forall|j: int| 0 <= j < ends.len() ==> (#[trigger] ends[j])@ <= ends[i]@
    &&& forall|j: int| i < j < ends.len() ==> (#[trigger] ends[j])@ < ends[i]@
}

/// Which of the beads, given by their ends, ends latest; of several that end
/// together, the last one.
pub fn latest_index(ends: &Vec<Timestamp>) -> (r: Option<usize>)
    ensures
        match r {
            None => ends@.len() == 0,
            Some(i) => is_latest(ends@, i as int),
        },
{
    if ends.len() == 0 {
        return None;
    }
    let mut best: usize = 0;
    let mut k: usize = 1;
    while k < ends.len()
        invariant
            1 <= k <= ends@.len(),
            best < k,
            forall|j: int| 0 <= j < k ==> (#[trigger] ends@[j])@ <= ends@[best as int]@,
            forall|j: int| best < j < k ==> (#[trigger] ends@[j])@ < ends@[best as int]@,
        decreases ends@.len() - k,
    {
        if ends[k].epoch_seconds() >= ends[best].epoch_seconds() {
            best = k;
        }
        k = k + 1;
    }
    Some(best)
}

/// The earliest start and the latest end among `windows` do not run backwards.
pub open spec fn spans_forward(windows: Seq<TimeWindow>) -> bool {
    exists|i: int, j: int|
        0 <= i < windows.len() && 0 <= j < windows.len() && (#[trigger] windows[i]).start@ <= (
        #[trigger] windows[j]).end@
}

/// The time the windows cover together: from the earliest start to the
/// latest end, or nothing when there is no window.
pub fn span_of(windows: &Vec<TimeWindow>) -> (r: Option<TimeWindow>)
    requires
        windows@.len() > 0 ==> spans_forward(windows@),
    ensures
        match r {
            None => windows@.len() == 0,
            Some(w) => {
                &&& exists|i: int| 0 <= i < windows@.len() && (#[trigger] windows@[i]).start == w.start
                &&& exists|i: int| 0 <= i < windows@.len() && (#[trigger] windows@[i]).end == w.end
                &&& forall|i: int| 0 <= i < windows@.len() ==> w.start@ <= (#[trigger] windows@[i]).start@
                &&& forall|i: int| 0 <= i < windows@.len() ==> (#[trigger] windows@[i]).end@ <= w.end@
            },
        },
{
    if windows.len() == 0 {
        return None;
    }
    let mut start = windows[0].start;
    let mut end = windows[0].end;
    let mut first: usize = 0;
    let mut last: usize = 0;
    let mut k: usize = 1;
    while k < windows.len()
        invariant
            1 <= k <= windows@.len(),
            first < k,
            last < k,
            windows@[first as int].start == start,
            windows@[last as int].end == end,
            forall|i: int| 0 <= i < k ==> start@ <= (#[trigger] windows@[i]).start@,
            forall|i: int| 0 <= i < k ==> (#[trigger] windows@[i]).end@ <= end@,
        decreases windows@.len() - k,
    {
        if windows[k].start.epoch_seconds() < start.epoch_seconds() {
            start = windows[k].start;
            first = k;
        }
        if windows[k].end.epoch_seconds() > end.epoch_seconds() {
            end = windows[k].end;
            last = k;
        }
        k = k + 1;
    }
    proof {
        let (i, j) = choose|i: int, j: int|
            0 <= i < windows@.len() && 0 <= j < windows@.len() && (#[trigger] windows@[i]).start@
                <= (#[trigger] windows@[j]).end@;
        assert(start@ <= windows@[i].start@);
        assert(windows@[j].end@ <= end@);
    }
    Some(TimeWindow::new(start, end))
}

} // verus!
