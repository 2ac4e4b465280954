//! Identity-preserving execution receipts: an authority ticket names an action,
//! a dispatch receipt proves the call crossed the boundary, and an external
//! receipt proves the effect's outcome. Dispatch alone never implies success.
use vstd::prelude::*;

use crate::authority::{AuthorityVerdict, ExecutionMode};
use crate::bead::BeadId;
use crate::primitives::Timestamp;
use crate::text::{blank, copy_texts, is_blank};

verus! {

/// Stable identity for one authorized external action.
#[derive(Debug, Hash)]
pub struct ActionId(String);

impl View for ActionId {
    type V = Seq<char>;

    closed spec fn view(&self) -> Seq<char> {
        self.0@
    }
}

impl ActionId {
    /// An action identity is never blank.
    #[verifier::type_invariant]
    pub open spec fn named(self) -> bool {
        !blank(self@)
    }

    pub fn new(value: &str) -> (r: Result<Self, ExecutionBlock>)
        ensures
            match r {
                Ok(id) => !blank(value@) && id@ == value@,
                Err(e) => blank(value@) && e == ExecutionBlock::EmptyActionId,
            },
    {
        if is_blank(value) {
            return Err(ExecutionBlock::EmptyActionId);
        }
        Ok(ActionId(value.to_owned()))
    }

    pub fn as_str(&self) -> (s: &str)
        ensures
            s@ == self@,
    {
        self.0.as_str()
    }
}

impl Clone for ActionId {
    fn clone(&self) -> (r: Self)
        ensures
            r == *self,
    {
        proof {
            use_type_invariant(self);
        }
        ActionId(self.0.clone())
    }
}

impl PartialEq for ActionId {
    fn eq(&self, other: &Self) -> (r: bool) {
        self.0.eq(&other.0)
    }
}

impl Eq for ActionId {}

impl vstd::std_specs::cmp::PartialEqSpecImpl for ActionId {
    open spec fn obeys_eq_spec() -> bool {
        true
    }

    open spec fn eq_spec(&self, other: &Self) -> bool {
        self@ == other@
    }
}

/// Permission receipt issued only from an allowed authority decision.
///
/// A ticket authorizes an action identity. It is not proof that dispatch or
/// any external effect has occurred.
#[derive(Debug, PartialEq)]
pub struct AuthorityTicket {
    pub action_id: ActionId,
    pub source_bead: BeadId,
    pub execution_mode: ExecutionMode,
    pub authority_proof_refs: Vec<String>,
    pub issued_at: Timestamp,
}

impl Clone for AuthorityTicket {
    fn clone(&self) -> (r: Self)
        ensures
            same_ticket(r, *self),
    {
        AuthorityTicket {
            action_id: self.action_id.clone(),
            source_bead: self.source_bead.clone(),
            execution_mode: self.execution_mode,
            authority_proof_refs: copy_texts(&self.authority_proof_refs),
            issued_at: self.issued_at,
        }
    }
}

impl AuthorityTicket {
    /// Issues a ticket for `action_id` from an authority decision about
    /// `source_bead` with its proof references. Only an `Allow` verdict issues
    /// one; the ticket carries the allowed execution mode.
    pub fn issue(
        action_id: ActionId,
        verdict: AuthorityVerdict,
        source_bead: &BeadId,
        proof_refs: &Vec<String>,
        issued_at: Timestamp,
    ) -> (r: Result<Self, ExecutionBlock>)
        ensures
            match verdict {
                AuthorityVerdict::Allow(mode) => r matches Ok(t) && t.action_id == action_id
                    && t.source_bead == *source_bead && t.execution_mode == mode
                    && t.authority_proof_refs@ == proof_refs@ && t.issued_at == issued_at,
                _ => r == Err::<AuthorityTicket, ExecutionBlock>(ExecutionBlock::AuthorityDidNotAllow),
            },
    {
        let execution_mode = match verdict {
            AuthorityVerdict::Allow(mode) => mode,
            _ => {
                return Err(ExecutionBlock::AuthorityDidNotAllow);
            },
        };
        Ok(AuthorityTicket {
            action_id,
            source_bead: source_bead.clone(),
            execution_mode,
            authority_proof_refs: copy_texts(proof_refs),
            issued_at,
        })
    }
}

/// Evidence that an authorized action was actually dispatched.
#[derive(Debug, PartialEq, Eq)]
pub struct DispatchReceipt {
    pub action_id: ActionId,
    pub dispatched_at: Timestamp,
    pub proof_ref: String,
}

impl Clone for DispatchReceipt {
    fn clone(&self) -> (r: Self)
        ensures
            r == *self,
    {
        DispatchReceipt {
            action_id: self.action_id.clone(),
            dispatched_at: self.dispatched_at,
            proof_ref: self.proof_ref.clone(),
        }
    }
}

/// Externally observed result for the dispatched action.
#[derive(Debug, Clone, Copy, PartialEq, Eq, Structural)]
pub enum ExecutionOutcome {
    Succeeded,
    Failed,
}

/// Evidence that the external effect reached a known outcome.
#[derive(Debug, PartialEq, Eq)]
pub struct ExternalExecutionReceipt {
    pub action_id: ActionId,
    pub observed_at: Timestamp,
    pub outcome: ExecutionOutcome,
    pub proof_ref: String,
}

impl Clone for ExternalExecutionReceipt {
    fn clone(&self) -> (r: Self)
        ensures
            r == *self,
    {
        ExternalExecutionReceipt {
            action_id: self.action_id.clone(),
            observed_at: self.observed_at,
            outcome: self.outcome,
            proof_ref: self.proof_ref.clone(),
        }
    }
}

/// Explicit execution state. Dispatch without an external outcome remains
/// unknown instead of being collapsed into success or failure.
#[derive(Debug, Clone, Copy, PartialEq, Eq, Structural)]
pub enum ExecutionStatus {
    AuthorizedNotDispatched,
    DispatchedEffectUnknown,
    EffectConfirmed(ExecutionOutcome),
}

#[derive(Debug, Clone, Copy, PartialEq, Eq, Structural)]
pub enum ExecutionBlock {
    EmptyActionId,
    AuthorityDidNotAllow,
    EmptyDispatchProof,
    EmptyExternalProof,
    DispatchAlreadyRecorded,
    ExternalOutcomeAlreadyRecorded,
    DispatchNotRecorded,
    TemporalOrderViolation,
}

/// Identity-preserving execution trace from authority through external effect.
#[derive(Debug, PartialEq)]
pub struct ExecutionTrace {
    pub ticket: AuthorityTicket,
    pub dispatch: Option<DispatchReceipt>,
    pub external: Option<ExternalExecutionReceipt>,
}

/// The status a trace reports: a recorded external outcome wins, then a
/// recorded dispatch, else the action is only authorized.
pub open spec fn trace_status(
    dispatch: Option<DispatchReceipt>,
    external: Option<ExternalExecutionReceipt>,
) -> ExecutionStatus {
    match external {
        Some(receipt) => ExecutionStatus::EffectConfirmed(receipt.outcome),
        None => match dispatch {
            Some(_) => ExecutionStatus::DispatchedEffectUnknown,
            None => ExecutionStatus::AuthorizedNotDispatched,
        },
    }
}

impl ExecutionTrace {
    pub fn new(ticket: AuthorityTicket) -> (t: Self)
        ensures
            t.ticket == ticket,
            t.dispatch is None,
            t.external is None,
    {
        ExecutionTrace { ticket, dispatch: None, external: None }
    }

    pub open spec fn spec_status(&self) -> ExecutionStatus {
        trace_status(self.dispatch, self.external)
    }

    pub fn status(&self) -> (s: ExecutionStatus)
        ensures
            s == self.spec_status(),
    {
        match (&self.dispatch, &self.external) {
            (_, Some(receipt)) => ExecutionStatus::EffectConfirmed(receipt.outcome),
            (Some(_), None) => ExecutionStatus::DispatchedEffectUnknown,
            (None, None) => ExecutionStatus::AuthorizedNotDispatched,
        }
    }

    /// Records proof that the authorized action crossed the dispatch boundary.
    /// The returned receipt is the one now held by the trace.
    pub fn record_dispatch(&mut self, dispatched_at: Timestamp, proof_ref: &str) -> (r: Result<
        DispatchReceipt,
        ExecutionBlock,
    >)
        ensures
            final(self).ticket == old(self).ticket,
            final(self).external == old(self).external,
            match r {
                Ok(receipt) => {
                    &&& old(self).dispatch is None
                    &&& old(self).ticket.issued_at@ <= dispatched_at@
                    &&& !blank(proof_ref@)
                    &&& receipt.action_id == old(self).ticket.action_id
                    &&& receipt.dispatched_at == dispatched_at
                    &&& receipt.proof_ref@ == proof_ref@
                    &&& final(self).dispatch == Some(receipt)
                },
                Err(e) => {
                    &&& final(self).dispatch == old(self).dispatch
                    &&& e == if old(self).dispatch is Some {
                        ExecutionBlock::DispatchAlreadyRecorded
                    } else if dispatched_at@ < old(self).ticket.issued_at@ {
                        ExecutionBlock::TemporalOrderViolation
                    } else {
                        ExecutionBlock::EmptyDispatchProof
                    }
                    &&& (old(self).dispatch is None && old(self).ticket.issued_at@
                        <= dispatched_at@ ==> blank(proof_ref@))
                },
            },
    {
        if self.dispatch.is_some() {
            return Err(ExecutionBlock::DispatchAlreadyRecorded);
        }
        if dispatched_at.epoch_seconds() < self.ticket.issued_at.epoch_seconds() {
            return Err(ExecutionBlock::TemporalOrderViolation);
        }
        if is_blank(proof_ref) {
            return Err(ExecutionBlock::EmptyDispatchProof);
        }
        let receipt = DispatchReceipt {
            action_id: self.ticket.action_id.clone(),
            dispatched_at,
            proof_ref: proof_ref.to_owned(),
        };
        self.dispatch = Some(receipt.clone());
        Ok(receipt)
    }

    /// Records an externally verifiable outcome after dispatch.
    /// The returned receipt is the one now held by the trace.
    pub fn record_external_outcome(
        &mut self,
        observed_at: Timestamp,
        outcome: ExecutionOutcome,
        proof_ref: &str,
    ) -> (r: Result<ExternalExecutionReceipt, ExecutionBlock>)
        ensures
            final(self).ticket == old(self).ticket,
            final(self).dispatch == old(self).dispatch,
            match r {
                Ok(receipt) => {
                    &&& old(self).external is None
                    &&& old(self).dispatch is Some
                    &&& old(self).dispatch->0.dispatched_at@ <= observed_at@
                    &&& !blank(proof_ref@)
                    &&& receipt.action_id == old(self).ticket.action_id
                    &&& receipt.observed_at == observed_at
                    &&& receipt.outcome == outcome
                    &&& receipt.proof_ref@ == proof_ref@
                    &&& final(self).external == Some(receipt)
                },
                Err(e) => {
                    &&& final(self).external == old(self).external
                    &&& e == if old(self).external is Some {
                        ExecutionBlock::ExternalOutcomeAlreadyRecorded
                    } else if old(self).dispatch is None {
                        ExecutionBlock::DispatchNotRecorded
                    } else if observed_at@ < old(self).dispatch->0.dispatched_at@ {
                        ExecutionBlock::TemporalOrderViolation
                    } else {
                        ExecutionBlock::EmptyExternalProof
                    }
                    &&& (old(self).external is None && old(self).dispatch is Some
                        && old(self).dispatch->0.dispatched_at@ <= observed_at@ ==> blank(
                        proof_ref@,
                    ))
                },
            },
    {
        if self.external.is_some() {
            return Err(ExecutionBlock::ExternalOutcomeAlreadyRecorded);
        }
        let dispatched_at = match &self.dispatch {
            Some(dispatch) => dispatch.dispatched_at,
            None => return Err(ExecutionBlock::DispatchNotRecorded),
        };
        if observed_at.epoch_seconds() < dispatched_at.epoch_seconds() {
            return Err(ExecutionBlock::TemporalOrderViolation);
        }
        if is_blank(proof_ref) {
            return Err(ExecutionBlock::EmptyExternalProof);
        }
        let receipt = ExternalExecutionReceipt {
            action_id: self.ticket.action_id.clone(),
            observed_at,
            outcome,
            proof_ref: proof_ref.to_owned(),
        };
        self.external = Some(receipt.clone());
        Ok(receipt)
    }
}

} // verus!

verus! {

/// Two tickets name the same authority: same action, bead, mode, proof
/// references and issue time.
pub open spec fn same_ticket(a: AuthorityTicket, b: AuthorityTicket) -> bool {
    &&& a.action_id == b.action_id
    &&& a.source_bead == b.source_bead
    &&& a.execution_mode == b.execution_mode
    &&& a.authority_proof_refs@ == b.authority_proof_refs@
    &&& a.issued_at == b.issued_at
}

/// Dispatch alone never reports an outcome: without an external receipt a
/// dispatched action's effect stays unknown, and only an external receipt
/// confirms success or failure.
pub proof fn law_dispatch_does_not_imply_outcome(
    dispatch: Option<DispatchReceipt>,
    external: Option<ExternalExecutionReceipt>,
)
    ensures
        dispatch is Some && external is None ==> trace_status(dispatch, external)
            == ExecutionStatus::DispatchedEffectUnknown,
        (trace_status(dispatch, external) is EffectConfirmed) <==> external is Some,
{
}

} // verus!
