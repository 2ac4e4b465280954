//! The durable journal apart from its file: the identity it was opened with,
//! the next sequence number, and the decisions behind each operation. Every
//! operation reads the journal's current bytes, replays them, decides, and
//! returns the one line to append; the caller appends and syncs that line and
//! then commits it here.
use vstd::prelude::*;

use crate::attempt_ledger::AttemptId;
use crate::durable_journal::{
    binding_from_events, check_decision_identity, decision_identity, dispatch_admission_in_journal,
    events_binding, external_admission, plan_dispatch_record, plan_external_record, plan_preparation,
    plan_reconciliation_record, preparation_admission, reconciliation_admission, replay_events,
    replay_result, JournalError, JournalEvent, RecoveredRuntime,
};
use crate::execution_receipt::{same_ticket, AuthorityTicket, ExecutionOutcome};
use crate::journal_format::{
    complete_length, encode_event, event_text, file_lines, nonempty_pieces, parse_records,
    parse_refused, record_line, record_line_text, records_decoded,
};
use crate::primitives::Timestamp;
use crate::reconciliation::{IdempotencyBinding, ReconciliationOutcome, RetryDecision};
use crate::text::{blank, is_blank};

verus! {

/// What an appended record does to the attempt this process prepared.
#[derive(Debug, Clone, Copy, PartialEq, Eq, Structural)]
pub enum PreparedInProcess {
    Keep,
    Hold(u32),
    Clear,
}

/// One line to append, and its effect once durable.
#[derive(Debug)]
pub struct JournalAppend {
    pub sequence: u64,
    pub line: String,
    pub prepared_in_process: PreparedInProcess,
}

/// Durable journal state held alongside the file.
#[derive(Debug)]
pub struct JournalCore {
    pub ticket: AuthorityTicket,
    pub binding: IdempotencyBinding,
    pub next_sequence: u64,
    pub repaired_truncated_tail: bool,
    pub prepared_in_process: Option<u32>,
}

/// The journal file holds complete lines reading as `events`.
pub open spec fn journal_events(bytes: Seq<u8>, events: Seq<JournalEvent>) -> bool {
    &&& complete_length(bytes) > 0
    &&& exists|pieces: Seq<Seq<u8>>|
        #[trigger] file_lines(bytes, pieces) && records_decoded(nonempty_pieces(pieces), events)
}

/// The journal file refuses to be read or replayed with `e`.
pub open spec fn recovery_refused(bytes: Seq<u8>, e: JournalError) -> bool {
    parse_refused(bytes, e) || (exists|events: Seq<JournalEvent>|
        #[trigger] journal_events(bytes, events) && replay_result(events, Err(e)))
}

/// `rt` is the replay of the journal file, with the tail flag and the last
/// sequence number filled in.
pub open spec fn recovered_from(bytes: Seq<u8>, repaired_before: bool, rt: RecoveredRuntime) -> bool {
    exists|events: Seq<JournalEvent>, base: RecoveredRuntime|
        #[trigger] journal_events(bytes, events) && #[trigger] replay_result(events, Ok(base))
            && rt.ledger == base.ledger && rt.pending_prepared == base.pending_prepared
            && rt.prepared_reconciliations == base.prepared_reconciliations
            && rt.next_attempt_ordinal == base.next_attempt_ordinal && rt.directive == base.directive
            && rt.repaired_truncated_tail == (repaired_before || bytes.last() != 10)
            && rt.last_sequence == (if events.len() == 0 {
            0
        } else {
            events.len() - 1
        })
}

/// A recovery outcome: the replayed runtime, or the refusal.
pub open spec fn recovery_outcome(
    bytes: Seq<u8>,
    repaired_before: bool,
    r: Result<RecoveredRuntime, JournalError>,
) -> bool {
    match r {
        Ok(rt) => recovered_from(bytes, repaired_before, rt),
        Err(e) => recovery_refused(bytes, e),
    }
}

/// `append` writes `event` as record `sequence`.
pub open spec fn appends(append: JournalAppend, sequence: u64, event: JournalEvent) -> bool {
    &&& append.sequence == sequence
    &&& append.line@ == record_line_text(sequence, event_text(event))
}

fn line_for(sequence: u64, event: &JournalEvent) -> (s: String)
    ensures
        s@ == record_line_text(sequence, event_text(*event)),
{
    let payload = encode_event(event);
    record_line(sequence, payload.as_str())
}

/// What planning the write-ahead record of the next attempt gives: the
/// decision must carry the journal's identity; then the journal must replay,
/// the replay must admit the preparation, and the line to append records the
/// prepared attempt at the next sequence.
pub open spec fn attempt_prepared(
    core: JournalCore,
    bytes: Seq<u8>,
    decision: RetryDecision,
    prepared_at: Timestamp,
    r: Result<(AttemptId, JournalAppend), JournalError>,
) -> bool {
    match decision_identity(core.ticket, core.binding, decision) {
        Err(e) => r == Err::<(AttemptId, JournalAppend), JournalError>(e),
        Ok(_) => match r {
            Ok((id, append)) => exists|rt: RecoveredRuntime|
                #[trigger] recovered_from(bytes, core.repaired_truncated_tail, rt)
                    && preparation_admission(rt, decision, prepared_at) == Ok::<u32, JournalError>(
                    id.ordinal,
                ) && id.action_id == rt.ledger.spec_ticket().action_id && append.prepared_in_process
                    == PreparedInProcess::Hold(id.ordinal) && exists|event: JournalEvent|
                    appends(append, core.next_sequence, event) && (event matches JournalEvent::Prepared(p)
                        && p.id == id && p.prepared_at == prepared_at && p.authorization_proof_refs@
                        == decision.proof_refs@),
            Err(e) => recovery_refused(bytes, e) || exists|rt: RecoveredRuntime|
                #[trigger] recovered_from(bytes, core.repaired_truncated_tail, rt)
                    && preparation_admission(rt, decision, prepared_at) == Err::<u32, JournalError>(e),
        },
    }
}

/// What planning a dispatch record gives: a proof is needed; then the
/// journal must replay, the replay must admit the dispatch by this process,
/// and the line to append records it.
pub open spec fn dispatch_planned(
    core: JournalCore,
    bytes: Seq<u8>,
    ordinal: u32,
    dispatched_at: Timestamp,
    proof_ref: Seq<char>,
    r: Result<JournalAppend, JournalError>,
) -> bool {
    if blank(proof_ref) {
        r == Err::<JournalAppend, JournalError>(JournalError::EmptyProof)
    } else {
        match r {
            Ok(append) => exists|rt: RecoveredRuntime|
                #[trigger] recovered_from(bytes, core.repaired_truncated_tail, rt)
                    && dispatch_admission_in_journal(
                    rt,
                    core.prepared_in_process,
                    ordinal,
                    dispatched_at,
                    proof_ref,
                ) is Ok && append.prepared_in_process == PreparedInProcess::Clear && exists|
                    event: JournalEvent,
                | appends(append, core.next_sequence, event) && (event matches JournalEvent::Dispatch {
                    ordinal: o,
                    dispatched_at: t,
                    proof_ref: p,
                } && o == ordinal && t == dispatched_at && p@ == proof_ref),
            Err(e) => recovery_refused(bytes, e) || exists|rt: RecoveredRuntime|
                #[trigger] recovered_from(bytes, core.repaired_truncated_tail, rt)
                    && dispatch_admission_in_journal(
                    rt,
                    core.prepared_in_process,
                    ordinal,
                    dispatched_at,
                    proof_ref,
                ) == Err::<(), JournalError>(e),
        }
    }
}

/// What planning a reconciliation record gives: a proof is needed; then the
/// journal must replay, the replay must admit the observation, and the line
/// to append records it; evidence that resolves a prepared attempt clears it.
pub open spec fn reconciliation_planned(
    core: JournalCore,
    bytes: Seq<u8>,
    ordinal: u32,
    observed_at: Timestamp,
    outcome: ReconciliationOutcome,
    proof_ref: Seq<char>,
    r: Result<JournalAppend, JournalError>,
) -> bool {
    if blank(proof_ref) {
        r == Err::<JournalAppend, JournalError>(JournalError::EmptyProof)
    } else {
        match r {
            Ok(append) => exists|rt: RecoveredRuntime|
                #[trigger] recovered_from(bytes, core.repaired_truncated_tail, rt)
                    && (reconciliation_admission(rt, ordinal, observed_at, proof_ref) matches Ok(
                    resolves,
                ) && append.prepared_in_process == (if resolves {
                    PreparedInProcess::Clear
                } else {
                    PreparedInProcess::Keep
                }) && exists|event: JournalEvent|
                    appends(append, core.next_sequence, event) && (event matches JournalEvent::Reconciliation {
                        ordinal: o,
                        observed_at: t,
                        outcome: c,
                        proof_ref: p,
                    } && o == ordinal && t == observed_at && c == outcome && p@ == proof_ref)),
            Err(e) => recovery_refused(bytes, e) || exists|rt: RecoveredRuntime|
                #[trigger] recovered_from(bytes, core.repaired_truncated_tail, rt)
                    && reconciliation_admission(rt, ordinal, observed_at, proof_ref) == Err::<
                    bool,
                    JournalError,
                >(e),
        }
    }
}

/// What planning an external-outcome record gives: a proof is needed; then
/// the journal must replay, the replay must admit the outcome, and the line
/// to append records it.
pub open spec fn external_planned(
    core: JournalCore,
    bytes: Seq<u8>,
    ordinal: u32,
    observed_at: Timestamp,
    outcome: ExecutionOutcome,
    proof_ref: Seq<char>,
    r: Result<JournalAppend, JournalError>,
) -> bool {
    if blank(proof_ref) {
        r == Err::<JournalAppend, JournalError>(JournalError::EmptyProof)
    } else {
        match r {
            Ok(append) => exists|rt: RecoveredRuntime|
                #[trigger] recovered_from(bytes, core.repaired_truncated_tail, rt)
                    && external_admission(rt, ordinal, observed_at, proof_ref) is Ok
                    && append.prepared_in_process == PreparedInProcess::Keep && exists|
                    event: JournalEvent,
                | appends(append, core.next_sequence, event) && (event matches JournalEvent::External {
                    ordinal: o,
                    observed_at: t,
                    outcome: c,
                    proof_ref: p,
                } && o == ordinal && t == observed_at && c == outcome && p@ == proof_ref),
            Err(e) => recovery_refused(bytes, e) || exists|rt: RecoveredRuntime|
                #[trigger] recovered_from(bytes, core.repaired_truncated_tail, rt)
                    && external_admission(rt, ordinal, observed_at, proof_ref) == Err::<
                    (),
                    JournalError,
                >(e),
        }
    }
}

impl JournalCore {
    /// Starts a journal for `ticket` under `binding`, with its binding record
    /// as the first line.
    pub fn create(ticket: AuthorityTicket, binding: IdempotencyBinding) -> (r: Result<
        (JournalCore, JournalAppend),
        JournalError,
    >)
        ensures
            match r {
                Ok((core, append)) => {
                    &&& binding.action_id@ == ticket.action_id@
                    &&& !blank(binding.key@)
                    &&& same_ticket(core.ticket, ticket)
                    &&& core.binding == binding
                    &&& core.next_sequence == 0
                    &&& !core.repaired_truncated_tail
                    &&& core.prepared_in_process is None
                    &&& appends(append, 0, JournalEvent::Binding { ticket, binding })
                    &&& append.prepared_in_process == PreparedInProcess::Keep
                },
                Err(e) => if binding.action_id@ != ticket.action_id@ {
                    e == JournalError::BindingActionMismatch
                } else {
                    blank(binding.key@) && e == JournalError::EmptyIdempotencyKey
                },
            },
    {
        if binding.action_id != ticket.action_id {
            return Err(JournalError::BindingActionMismatch);
        }
        if is_blank(binding.key.as_str()) {
            return Err(JournalError::EmptyIdempotencyKey);
        }
        let event = JournalEvent::Binding { ticket: ticket.clone(), binding: binding.clone() };
        let line = line_for(0, &event);
        let core = JournalCore {
            ticket,
            binding,
            next_sequence: 0,
            repaired_truncated_tail: false,
            prepared_in_process: None,
        };
        Ok((core, JournalAppend { sequence: 0, line, prepared_in_process: PreparedInProcess::Keep }))
    }

    /// Opens a journal from its bytes: the identity of its binding record,
    /// the next sequence number, and how much of the file is complete.
    pub fn open(bytes: &[u8]) -> (r: Result<(JournalCore, usize, bool), JournalError>)
        ensures
            match r {
                Ok((core, valid_len, truncated)) => {
                    &&& valid_len == complete_length(bytes@)
                    &&& truncated == (bytes@.last() != 10)
                    &&& core.repaired_truncated_tail == truncated
                    &&& core.prepared_in_process is None
                    &&& exists|events: Seq<JournalEvent>|
                        #[trigger] journal_events(bytes@, events) && (events_binding(events) matches Ok(
                            (t, b),
                        ) && same_ticket(core.ticket, t) && core.binding == b && core.next_sequence
                            == events.len())
                },
                Err(e) => recovery_refused(bytes@, e),
            },
    {
        let parsed = match parse_records(bytes) {
            Ok(parsed) => parsed,
            Err(e) => {
                return Err(e);
            },
        };
        assert(journal_events(bytes@, parsed.events@));
        let (ticket, binding) = match binding_from_events(&parsed.events) {
            Ok(found) => found,
            Err(e) => {
                assert(replay_result(parsed.events@, Err::<RecoveredRuntime, JournalError>(e)));
                assert(recovery_refused(bytes@, e));
                return Err(e);
            },
        };
        Ok(
            (
                JournalCore {
                    ticket,
                    binding,
                    next_sequence: parsed.next_sequence,
                    repaired_truncated_tail: parsed.truncated_tail,
                    prepared_in_process: None,
                },
                parsed.valid_len,
                parsed.truncated_tail,
            ),
        )
    }

    /// Replays the journal's bytes into restart state.
    pub fn recover(&self, bytes: &[u8]) -> (r: Result<RecoveredRuntime, JournalError>)
        ensures
            recovery_outcome(bytes@, self.repaired_truncated_tail, r),
    {
        let parsed = match parse_records(bytes) {
            Ok(parsed) => parsed,
            Err(e) => {
                return Err(e);
            },
        };
        let mut rt = match replay_events(&parsed.events) {
            Ok(rt) => rt,
            Err(e) => {
                assert(journal_events(bytes@, parsed.events@));
                assert(recovery_refused(bytes@, e));
                return Err(e);
            },
        };
        assert(journal_events(bytes@, parsed.events@));
        let ghost base = rt;
        rt.repaired_truncated_tail = self.repaired_truncated_tail || parsed.truncated_tail;
        rt.last_sequence = parsed.next_sequence.saturating_sub(1);
        assert(replay_result(parsed.events@, Ok::<RecoveredRuntime, JournalError>(base)));
        Ok(rt)
    }

    /// Plans the write-ahead record of the next attempt; the caller appends
    /// and syncs it before performing the side effect.
    pub fn prepare_attempt(&self, bytes: &[u8], decision: &RetryDecision, prepared_at: Timestamp) -> (r:
        Result<(AttemptId, JournalAppend), JournalError>)
        ensures
            attempt_prepared(*self, bytes@, *decision, prepared_at, r),
    {
        check_decision_identity(&self.ticket, &self.binding, decision)?;
        let rt = self.recover(bytes)?;
        let prepared = plan_preparation(&rt, decision, prepared_at)?;
        let id = prepared.id.clone();
        let ordinal = id.ordinal;
        let event = JournalEvent::Prepared(prepared);
        let line = line_for(self.next_sequence, &event);
        let append = JournalAppend {
            sequence: self.next_sequence,
            line,
            prepared_in_process: PreparedInProcess::Hold(ordinal),
        };
        assert(appends(append, self.next_sequence, event));
        Ok((id, append))
    }

    /// Plans the record that the prepared call crossed the dispatch boundary.
    /// A prepared attempt recovered from a prior process cannot be marked
    /// dispatched without reconciliation.
    pub fn record_dispatch(&self, bytes: &[u8], ordinal: u32, dispatched_at: Timestamp, proof_ref: &str) -> (r:
        Result<JournalAppend, JournalError>)
        ensures
            dispatch_planned(*self, bytes@, ordinal, dispatched_at, proof_ref@, r),
    {
        if is_blank(proof_ref) {
            return Err(JournalError::EmptyProof);
        }
        let rt = self.recover(bytes)?;
        let event = plan_dispatch_record(&rt, self.prepared_in_process, ordinal, dispatched_at, proof_ref)?;
        let line = line_for(self.next_sequence, &event);
        let append = JournalAppend {
            sequence: self.next_sequence,
            line,
            prepared_in_process: PreparedInProcess::Clear,
        };
        assert(appends(append, self.next_sequence, event));
        Ok(append)
    }

    /// Plans a reconciliation record. Evidence about a pending prepared
    /// attempt stays prepared-scoped and does not invent a dispatch.
    pub fn record_reconciliation(
        &self,
        bytes: &[u8],
        ordinal: u32,
        observed_at: Timestamp,
        outcome: ReconciliationOutcome,
        proof_ref: &str,
    ) -> (r: Result<JournalAppend, JournalError>)
        ensures
            reconciliation_planned(*self, bytes@, ordinal, observed_at, outcome, proof_ref@, r),
    {
        if is_blank(proof_ref) {
            return Err(JournalError::EmptyProof);
        }
        let rt = self.recover(bytes)?;
        let (event, resolves) = plan_reconciliation_record(&rt, ordinal, observed_at, outcome, proof_ref)?;
        let line = line_for(self.next_sequence, &event);
        let append = JournalAppend {
            sequence: self.next_sequence,
            line,
            prepared_in_process: if resolves {
                PreparedInProcess::Clear
            } else {
                PreparedInProcess::Keep
            },
        };
        assert(appends(append, self.next_sequence, event));
        Ok(append)
    }

    /// Plans an external-outcome record.
    pub fn record_external_outcome(
        &self,
        bytes: &[u8],
        ordinal: u32,
        observed_at: Timestamp,
        outcome: ExecutionOutcome,
        proof_ref: &str,
    ) -> (r: Result<JournalAppend, JournalError>)
        ensures
            external_planned(*self, bytes@, ordinal, observed_at, outcome, proof_ref@, r),
    {
        if is_blank(proof_ref) {
            return Err(JournalError::EmptyProof);
        }
        let rt = self.recover(bytes)?;
        let event = plan_external_record(&rt, ordinal, observed_at, outcome, proof_ref)?;
        let line = line_for(self.next_sequence, &event);
        let append = JournalAppend {
            sequence: self.next_sequence,
            line,
            prepared_in_process: PreparedInProcess::Keep,
        };
        assert(appends(append, self.next_sequence, event));
        Ok(append)
    }

    /// Records that `append` is durable: the sequence advances and the
    /// prepared-in-process marker follows the record.
    pub fn commit(&mut self, append: &JournalAppend)
        requires
            old(self).next_sequence < u64::MAX,
        ensures
            final(self).ticket == old(self).ticket,
            final(self).binding == old(self).binding,
            final(self).repaired_truncated_tail == old(self).repaired_truncated_tail,
            final(self).next_sequence == old(self).next_sequence + 1,
            final(self).prepared_in_process == match append.prepared_in_process {
                PreparedInProcess::Keep => old(self).prepared_in_process,
                PreparedInProcess::Hold(ordinal) => Some(ordinal),
                PreparedInProcess::Clear => None,
            },
    {
        self.next_sequence = self.next_sequence + 1;
        match append.prepared_in_process {
            PreparedInProcess::Keep => {},
            PreparedInProcess::Hold(ordinal) => {
                self.prepared_in_process = Some(ordinal);
            },
            PreparedInProcess::Clear => {
                self.prepared_in_process = None;
            },
        }
    }
}

} // verus!
