//! The actuator bridge's event format and the replay of its records.
//!
//! Each event is one tab-separated line starting with the format version and
//! the event kind. Texts are lower-case hex of their UTF-8 bytes, numbers are
//! decimal. Only the binding event carries the action's identity; the other
//! events take it back from the binding when the records are read.
use vstd::prelude::*;
use vstd::string::StringExecFns;
use vstd::utf8::encode_utf8;

use crate::actuator_receipt_bridge::{
    ActuatorBridgeBinding, ActuatorBridgeError, ActuatorRecoveryObservation,
    ActuatorRecoveryOutcome, ActuatorRecoveryQuery, DurableActuatorEvidence, PreparedActuatorCall,
    RecoveredActuatorBridge,
};
use crate::codec::{
    hex_decode, hex_encode, i64_text, join_texts, join_with, parse_i64, parse_unsigned,
    signed_decimal, signed_value, split_char, split_text, tab_free, texts_of, unhex_text, unsigned_value,
    FieldError,
};
use crate::execution_receipt::ActionId;
use crate::fenced_actuator::{
    FencedActuatorOutcome, FencedActuatorReceipt, FencedActuatorRejection, FencedActuatorRequest,
};
use crate::journal_format::{hex_text, is_code, literal};
use crate::primitives::Timestamp;
use crate::recovery_lease::{FencedAttemptPermit, RecoveryWorkerId};
use crate::text::{blank, decimal, decimal_text, is_blank};

verus! {

/// One durable bridge event.
#[derive(Debug, PartialEq, Eq)]
pub enum BridgeEvent {
    Binding(ActuatorBridgeBinding),
    Prepared(PreparedActuatorCall),
    Receipt(FencedActuatorReceipt),
    Recovery(ActuatorRecoveryObservation),
    Synced { evidence_sequence: u64 },
}

impl Clone for BridgeEvent {
    fn clone(&self) -> (r: Self)
        ensures
            r == *self,
    {
        match self {
            BridgeEvent::Binding(b) => BridgeEvent::Binding(b.clone()),
            BridgeEvent::Prepared(p) => BridgeEvent::Prepared(p.clone()),
            BridgeEvent::Receipt(r) => BridgeEvent::Receipt(r.clone()),
            BridgeEvent::Recovery(o) => BridgeEvent::Recovery(o.clone()),
            BridgeEvent::Synced { evidence_sequence } => BridgeEvent::Synced {
                evidence_sequence: *evidence_sequence,
            },
        }
    }
}

/// A bridge event under the sequence of the file that holds it.
#[derive(Debug, PartialEq, Eq)]
pub struct BridgeRecord {
    pub sequence: u64,
    pub event: BridgeEvent,
}

impl Clone for BridgeRecord {
    fn clone(&self) -> (r: Self)
        ensures
            r == *self,
    {
        BridgeRecord { sequence: self.sequence, event: self.event.clone() }
    }
}

/// The code, first and second number a receipt outcome is written as.
pub open spec fn receipt_code(outcome: FencedActuatorOutcome) -> (Seq<char>, u64, u32) {
    match outcome {
        FencedActuatorOutcome::Applied => ("A"@, 0, 0),
        FencedActuatorOutcome::AlreadyApplied { applied_epoch, applied_attempt_ordinal } => (
            "D"@,
            applied_epoch,
            applied_attempt_ordinal,
        ),
        FencedActuatorOutcome::Rejected(rejection) => match rejection {
            FencedActuatorRejection::StaleEpoch { current_epoch } => ("S"@, current_epoch, 0),
            FencedActuatorRejection::FutureEpoch { current_epoch } => ("F"@, current_epoch, 0),
            FencedActuatorRejection::WrongOwner => ("W"@, 0, 0),
            FencedActuatorRejection::LeaseExpired { current_epoch } => ("L"@, current_epoch, 0),
            FencedActuatorRejection::IdentityConflict => ("I"@, 0, 0),
        },
    }
}

/// The code, first and second number a recovery outcome is written as.
pub open spec fn recovery_code(outcome: ActuatorRecoveryOutcome) -> (Seq<char>, u64, u32) {
    match outcome {
        ActuatorRecoveryOutcome::EffectSucceeded { applied_epoch, applied_attempt_ordinal } => (
            "S"@,
            applied_epoch,
            applied_attempt_ordinal,
        ),
        ActuatorRecoveryOutcome::StillUnknown => ("U"@, 0, 0),
        ActuatorRecoveryOutcome::IdentityConflict => ("I"@, 0, 0),
    }
}

/// The fields of a bridge event's line.
pub open spec fn bridge_fields(event: BridgeEvent) -> Seq<Seq<char>> {
    match event {
        BridgeEvent::Binding(binding) => seq![
            "AB1"@,
            "BIND"@,
            hex_text(binding.action_id@),
            hex_text(binding.idempotency_key@),
            hex_text(binding.operation_ref@),
        ],
        BridgeEvent::Prepared(prepared) => seq![
            "AB1"@,
            "PREP"@,
            hex_text(prepared.permit.owner@),
            decimal(prepared.permit.fencing_epoch as nat),
            decimal(prepared.permit.attempt_ordinal as nat),
            signed_decimal(prepared.prepared_at@),
        ],
        BridgeEvent::Receipt(receipt) => {
            let (code, first, second) = receipt_code(receipt.outcome);
            seq![
                "AB1"@,
                "RCPT"@,
                hex_text(receipt.request.owner@),
                decimal(receipt.request.fencing_epoch as nat),
                decimal(receipt.request.attempt_ordinal as nat),
                signed_decimal(receipt.observed_at@),
                code,
                decimal(first as nat),
                decimal(second as nat),
                hex_text(receipt.proof_ref@),
            ]
        },
        BridgeEvent::Recovery(observation) => {
            let (code, first, second) = recovery_code(observation.outcome);
            seq![
                "AB1"@,
                "RECO"@,
                hex_text(observation.query.prepared_owner@),
                decimal(observation.query.prepared_epoch as nat),
                decimal(observation.query.attempt_ordinal as nat),
                signed_decimal(observation.observed_at@),
                code,
                decimal(first as nat),
                decimal(second as nat),
                hex_text(observation.proof_ref@),
            ]
        },
        BridgeEvent::Synced { evidence_sequence } => seq![
            "AB1"@,
            "SYNC"@,
            decimal(evidence_sequence as nat),
        ],
    }
}

/// The line a bridge event is written as, without its final newline.
pub open spec fn bridge_event_text(event: BridgeEvent) -> Seq<char> {
    join_with(bridge_fields(event), "\t"@)
}

fn receipt_code_fields(outcome: FencedActuatorOutcome) -> (r: (String, u64, u32))
    ensures
        (r.0@, r.1, r.2) == receipt_code(outcome),
{
    match outcome {
        FencedActuatorOutcome::Applied => (literal("A"), 0, 0),
        FencedActuatorOutcome::AlreadyApplied { applied_epoch, applied_attempt_ordinal } => (
            literal("D"),
            applied_epoch,
            applied_attempt_ordinal,
        ),
        FencedActuatorOutcome::Rejected(rejection) => match rejection {
            FencedActuatorRejection::StaleEpoch { current_epoch } => (
                literal("S"),
                current_epoch,
                0,
            ),
            FencedActuatorRejection::FutureEpoch { current_epoch } => (
                literal("F"),
                current_epoch,
                0,
            ),
            FencedActuatorRejection::WrongOwner => (literal("W"), 0, 0),
            FencedActuatorRejection::LeaseExpired { current_epoch } => (
                literal("L"),
                current_epoch,
                0,
            ),
            FencedActuatorRejection::IdentityConflict => (literal("I"), 0, 0),
        },
    }
}

fn recovery_code_fields(outcome: ActuatorRecoveryOutcome) -> (r: (String, u64, u32))
    ensures
        (r.0@, r.1, r.2) == recovery_code(outcome),
{
    match outcome {
        ActuatorRecoveryOutcome::EffectSucceeded { applied_epoch, applied_attempt_ordinal } => (
            literal("S"),
            applied_epoch,
            applied_attempt_ordinal,
        ),
        ActuatorRecoveryOutcome::StillUnknown => (literal("U"), 0, 0),
        ActuatorRecoveryOutcome::IdentityConflict => (literal("I"), 0, 0),
    }
}

/// Writes the line of a bridge event.
pub fn encode_bridge_event(event: &BridgeEvent) -> (r: String)
    ensures
        r@ == bridge_event_text(*event),
{
    let mut fields: Vec<String> = Vec::new();
    fields.push(literal("AB1"));
    match event {
        BridgeEvent::Binding(binding) => {
            fields.push(literal("BIND"));
            fields.push(hex_encode(binding.action_id.as_str()));
            fields.push(hex_encode(binding.idempotency_key.as_str()));
            fields.push(hex_encode(binding.operation_ref.as_str()));
        },
        BridgeEvent::Prepared(prepared) => {
            fields.push(literal("PREP"));
            fields.push(hex_encode(prepared.permit.owner.as_str()));
            fields.push(decimal_text(prepared.permit.fencing_epoch));
            fields.push(decimal_text(prepared.permit.attempt_ordinal as u64));
            fields.push(i64_text(prepared.prepared_at.epoch_seconds()));
        },
        BridgeEvent::Receipt(receipt) => {
            let (code, first, second) = receipt_code_fields(receipt.outcome);
            fields.push(literal("RCPT"));
            fields.push(hex_encode(receipt.request.owner.as_str()));
            fields.push(decimal_text(receipt.request.fencing_epoch));
            fields.push(decimal_text(receipt.request.attempt_ordinal as u64));
            fields.push(i64_text(receipt.observed_at.epoch_seconds()));
            fields.push(code);
            fields.push(decimal_text(first));
            fields.push(decimal_text(second as u64));
            fields.push(hex_encode(receipt.proof_ref.as_str()));
        },
        BridgeEvent::Recovery(observation) => {
            let (code, first, second) = recovery_code_fields(observation.outcome);
            fields.push(literal("RECO"));
            fields.push(hex_encode(observation.query.prepared_owner.as_str()));
            fields.push(decimal_text(observation.query.prepared_epoch));
            fields.push(decimal_text(observation.query.attempt_ordinal as u64));
            fields.push(i64_text(observation.observed_at.epoch_seconds()));
            fields.push(code);
            fields.push(decimal_text(first));
            fields.push(decimal_text(second as u64));
            fields.push(hex_encode(observation.proof_ref.as_str()));
        },
        BridgeEvent::Synced { evidence_sequence } => {
            fields.push(literal("SYNC"));
            fields.push(decimal_text(*evidence_sequence));
        },
    }
    assert(texts_of(fields@) =~= bridge_fields(*event));
    join_texts(&fields, "\t")
}


/// The text a hex field holds, or why it cannot be read.
pub open spec fn bridge_text(f: Seq<char>) -> Result<Seq<char>, ActuatorBridgeError> {
    match unhex_text(encode_utf8(f)) {
        Ok(t) => Ok(t),
        Err(FieldError::InvalidHex) => Err(ActuatorBridgeError::InvalidHex),
        Err(FieldError::InvalidUtf8) => Err(ActuatorBridgeError::InvalidUtf8),
    }
}

/// The worker a hex field names: its text, which must not be blank.
pub open spec fn bridge_worker(f: Seq<char>) -> Result<Seq<char>, ActuatorBridgeError> {
    match bridge_text(f) {
        Err(e) => Err(e),
        Ok(t) => if blank(t) {
            Err(ActuatorBridgeError::InvalidWorkerId)
        } else {
            Ok(t)
        },
    }
}

/// The unsigned number a field holds, no larger than `limit`.
pub open spec fn bridge_number(f: Seq<char>, limit: int) -> Result<int, ActuatorBridgeError> {
    match unsigned_value(f) {
        Some(v) => if v <= limit {
            Ok(v)
        } else {
            Err(ActuatorBridgeError::InvalidNumber)
        },
        None => Err(ActuatorBridgeError::InvalidNumber),
    }
}

/// The timestamp seconds a field holds.
pub open spec fn bridge_time(f: Seq<char>) -> Result<int, ActuatorBridgeError> {
    match signed_value(f) {
        Some(v) => if i64::MIN <= v <= i64::MAX {
            Ok(v)
        } else {
            Err(ActuatorBridgeError::InvalidNumber)
        },
        None => Err(ActuatorBridgeError::InvalidNumber),
    }
}

/// The action every event but the binding is read with until the records
/// give it the binding's identity.
pub open spec fn placeholder_action() -> Seq<char> {
    "bridge:placeholder"@
}

/// The receipt outcome a code and its two numbers name.
pub open spec fn receipt_outcome_of(code: Seq<char>, first: u64, second: u32) -> Option<
    FencedActuatorOutcome,
> {
    if code == "A"@ {
        Some(FencedActuatorOutcome::Applied)
    } else if code == "D"@ {
        Some(
            FencedActuatorOutcome::AlreadyApplied {
                applied_epoch: first,
                applied_attempt_ordinal: second,
            },
        )
    } else if code == "S"@ {
        Some(
            FencedActuatorOutcome::Rejected(
                FencedActuatorRejection::StaleEpoch { current_epoch: first },
            ),
        )
    } else if code == "F"@ {
        Some(
            FencedActuatorOutcome::Rejected(
                FencedActuatorRejection::FutureEpoch { current_epoch: first },
            ),
        )
    } else if code == "W"@ {
        Some(FencedActuatorOutcome::Rejected(FencedActuatorRejection::WrongOwner))
    } else if code == "L"@ {
        Some(
            FencedActuatorOutcome::Rejected(
                FencedActuatorRejection::LeaseExpired { current_epoch: first },
            ),
        )
    } else if code == "I"@ {
        Some(FencedActuatorOutcome::Rejected(FencedActuatorRejection::IdentityConflict))
    } else {
        None
    }
}

/// The recovery outcome a code and its two numbers name.
pub open spec fn recovery_outcome_of(code: Seq<char>, first: u64, second: u32) -> Option<
    ActuatorRecoveryOutcome,
> {
    if code == "S"@ {
        Some(
            ActuatorRecoveryOutcome::EffectSucceeded {
                applied_epoch: first,
                applied_attempt_ordinal: second,
            },
        )
    } else if code == "U"@ {
        Some(ActuatorRecoveryOutcome::StillUnknown)
    } else if code == "I"@ {
        Some(ActuatorRecoveryOutcome::IdentityConflict)
    } else {
        None
    }
}

/// How the fields after the kind of a binding event decode.
pub open spec fn binding_read(rest: Seq<Seq<char>>, r: Result<BridgeEvent, ActuatorBridgeError>) -> bool {
    if rest.len() != 3 {
        r == Err::<BridgeEvent, ActuatorBridgeError>(ActuatorBridgeError::InvalidRecord)
    } else {
        match bridge_text(rest[0]) {
            Err(e) => r == Err::<BridgeEvent, ActuatorBridgeError>(e),
            Ok(action) => if blank(action) {
                r == Err::<BridgeEvent, ActuatorBridgeError>(ActuatorBridgeError::InvalidActionId)
            } else {
                match bridge_text(rest[1]) {
                    Err(e) => r == Err::<BridgeEvent, ActuatorBridgeError>(e),
                    Ok(key) => match bridge_text(rest[2]) {
                        Err(e) => r == Err::<BridgeEvent, ActuatorBridgeError>(e),
                        Ok(operation) => if blank(key) {
                            r == Err::<BridgeEvent, ActuatorBridgeError>(
                                ActuatorBridgeError::EmptyIdempotencyKey,
                            )
                        } else if blank(operation) {
                            r == Err::<BridgeEvent, ActuatorBridgeError>(
                                ActuatorBridgeError::EmptyOperationRef,
                            )
                        } else {
                            r matches Ok(BridgeEvent::Binding(b)) && b.action_id@ == action
                                && b.idempotency_key@ == key && b.operation_ref@ == operation
                        },
                    },
                }
            },
        }
    }
}

/// How the fields after the kind of a preparation event decode.
pub open spec fn prepared_read(rest: Seq<Seq<char>>, r: Result<BridgeEvent, ActuatorBridgeError>) -> bool {
    if rest.len() != 4 {
        r == Err::<BridgeEvent, ActuatorBridgeError>(ActuatorBridgeError::InvalidRecord)
    } else {
        match bridge_worker(rest[0]) {
            Err(e) => r == Err::<BridgeEvent, ActuatorBridgeError>(e),
            Ok(owner) => match bridge_number(rest[1], u64::MAX as int) {
                Err(e) => r == Err::<BridgeEvent, ActuatorBridgeError>(e),
                Ok(epoch) => match bridge_number(rest[2], u32::MAX as int) {
                    Err(e) => r == Err::<BridgeEvent, ActuatorBridgeError>(e),
                    Ok(ordinal) => match bridge_time(rest[3]) {
                        Err(e) => r == Err::<BridgeEvent, ActuatorBridgeError>(e),
                        Ok(at) => r matches Ok(BridgeEvent::Prepared(p))
                            && p.permit.action_id@ == placeholder_action()
                            && p.permit.idempotency_key@ == Seq::<char>::empty()
                            && p.permit.owner@ == owner && p.permit.fencing_epoch == epoch
                            && p.permit.attempt_ordinal == ordinal && p.prepared_at@ == at,
                    },
                },
            },
        }
    }
}

/// How the fields after the kind of a receipt event decode.
pub open spec fn receipt_read(rest: Seq<Seq<char>>, r: Result<BridgeEvent, ActuatorBridgeError>) -> bool {
    if rest.len() != 8 {
        r == Err::<BridgeEvent, ActuatorBridgeError>(ActuatorBridgeError::InvalidRecord)
    } else {
        match bridge_worker(rest[0]) {
            Err(e) => r == Err::<BridgeEvent, ActuatorBridgeError>(e),
            Ok(owner) => match bridge_number(rest[1], u64::MAX as int) {
                Err(e) => r == Err::<BridgeEvent, ActuatorBridgeError>(e),
                Ok(epoch) => match bridge_number(rest[2], u32::MAX as int) {
                    Err(e) => r == Err::<BridgeEvent, ActuatorBridgeError>(e),
                    Ok(ordinal) => match bridge_time(rest[3]) {
                        Err(e) => r == Err::<BridgeEvent, ActuatorBridgeError>(e),
                        Ok(at) => match bridge_number(rest[5], u64::MAX as int) {
                            Err(e) => r == Err::<BridgeEvent, ActuatorBridgeError>(e),
                            Ok(first) => match bridge_number(rest[6], u32::MAX as int) {
                                Err(e) => r == Err::<BridgeEvent, ActuatorBridgeError>(e),
                                Ok(second) => match receipt_outcome_of(
                                    rest[4],
                                    first as u64,
                                    second as u32,
                                ) {
                                    None => r == Err::<BridgeEvent, ActuatorBridgeError>(
                                        ActuatorBridgeError::InvalidReceiptOutcome,
                                    ),
                                    Some(outcome) => match bridge_text(rest[7]) {
                                        Err(e) => r == Err::<BridgeEvent, ActuatorBridgeError>(e),
                                        Ok(proof) => r matches Ok(BridgeEvent::Receipt(c))
                                            && c.request.action_id@ == placeholder_action()
                                            && c.request.idempotency_key@ == Seq::<char>::empty()
                                            && c.request.operation_ref@ == Seq::<char>::empty()
                                            && c.request.owner@ == owner
                                            && c.request.fencing_epoch == epoch
                                            && c.request.attempt_ordinal == ordinal
                                            && c.observed_at@ == at && c.outcome == outcome
                                            && c.proof_ref@ == proof,
                                    },
                                },
                            },
                        },
                    },
                },
            },
        }
    }
}

/// How the fields after the kind of a recovery event decode.
pub open spec fn recovery_read(rest: Seq<Seq<char>>, r: Result<BridgeEvent, ActuatorBridgeError>) -> bool {
    if rest.len() != 8 {
        r == Err::<BridgeEvent, ActuatorBridgeError>(ActuatorBridgeError::InvalidRecord)
    } else {
        match bridge_worker(rest[0]) {
            Err(e) => r == Err::<BridgeEvent, ActuatorBridgeError>(e),
            Ok(owner) => match bridge_number(rest[2], u32::MAX as int) {
                Err(e) => r == Err::<BridgeEvent, ActuatorBridgeError>(e),
                Ok(ordinal) => match bridge_number(rest[1], u64::MAX as int) {
                    Err(e) => r == Err::<BridgeEvent, ActuatorBridgeError>(e),
                    Ok(epoch) => match bridge_time(rest[3]) {
                        Err(e) => r == Err::<BridgeEvent, ActuatorBridgeError>(e),
                        Ok(at) => match bridge_number(rest[5], u64::MAX as int) {
                            Err(e) => r == Err::<BridgeEvent, ActuatorBridgeError>(e),
                            Ok(first) => match bridge_number(rest[6], u32::MAX as int) {
                                Err(e) => r == Err::<BridgeEvent, ActuatorBridgeError>(e),
                                Ok(second) => match recovery_outcome_of(
                                    rest[4],
                                    first as u64,
                                    second as u32,
                                ) {
                                    None => r == Err::<BridgeEvent, ActuatorBridgeError>(
                                        ActuatorBridgeError::InvalidRecoveryOutcome,
                                    ),
                                    Some(outcome) => match bridge_text(rest[7]) {
                                        Err(e) => r == Err::<BridgeEvent, ActuatorBridgeError>(e),
                                        Ok(proof) => r matches Ok(BridgeEvent::Recovery(o))
                                            && o.query.action_id@ == placeholder_action()
                                            && o.query.idempotency_key@ == Seq::<char>::empty()
                                            && o.query.operation_ref@ == Seq::<char>::empty()
                                            && o.query.prepared_owner@ == owner
                                            && o.query.prepared_epoch == epoch
                                            && o.query.attempt_ordinal == ordinal
                                            && o.observed_at@ == at && o.outcome == outcome
                                            && o.proof_ref@ == proof,
                                    },
                                },
                            },
                        },
                    },
                },
            },
        }
    }
}

/// How the fields of a bridge line decode.
pub open spec fn bridge_event_read(
    fields: Seq<Seq<char>>,
    r: Result<BridgeEvent, ActuatorBridgeError>,
) -> bool {
    if fields.len() < 2 || fields[0] != "AB1"@ {
        r == Err::<BridgeEvent, ActuatorBridgeError>(ActuatorBridgeError::InvalidRecord)
    } else {
        let kind = fields[1];
        let rest = fields.subrange(2, fields.len() as int);
        if kind == "BIND"@ {
            binding_read(rest, r)
        } else if kind == "PREP"@ {
            prepared_read(rest, r)
        } else if kind == "RCPT"@ {
            receipt_read(rest, r)
        } else if kind == "RECO"@ {
            recovery_read(rest, r)
        } else if kind == "SYNC"@ {
            if rest.len() != 1 {
                r == Err::<BridgeEvent, ActuatorBridgeError>(ActuatorBridgeError::InvalidRecord)
            } else {
                match bridge_number(rest[0], u64::MAX as int) {
                    Err(e) => r == Err::<BridgeEvent, ActuatorBridgeError>(e),
                    Ok(v) => r == Ok::<BridgeEvent, ActuatorBridgeError>(
                        BridgeEvent::Synced { evidence_sequence: v as u64 },
                    ),
                }
            }
        } else {
            r == Err::<BridgeEvent, ActuatorBridgeError>(ActuatorBridgeError::InvalidRecord)
        }
    }
}

fn read_text(f: &String) -> (r: Result<String, ActuatorBridgeError>)
    ensures
        match r {
            Ok(t) => bridge_text(f@) == Ok::<Seq<char>, ActuatorBridgeError>(t@),
            Err(e) => bridge_text(f@) == Err::<Seq<char>, ActuatorBridgeError>(e),
        },
{
    match hex_decode(f.as_str()) {
        Ok(t) => Ok(t),
        Err(FieldError::InvalidHex) => Err(ActuatorBridgeError::InvalidHex),
        Err(FieldError::InvalidUtf8) => Err(ActuatorBridgeError::InvalidUtf8),
    }
}

fn read_worker(f: &String) -> (r: Result<RecoveryWorkerId, ActuatorBridgeError>)
    ensures
        match r {
            Ok(w) => bridge_worker(f@) == Ok::<Seq<char>, ActuatorBridgeError>(w@),
            Err(e) => bridge_worker(f@) == Err::<Seq<char>, ActuatorBridgeError>(e),
        },
{
    let raw = read_text(f)?;
    match RecoveryWorkerId::new(raw.as_str()) {
        Ok(owner) => Ok(owner),
        Err(_) => Err(ActuatorBridgeError::InvalidWorkerId),
    }
}

fn read_number(f: &String, limit: u64) -> (r: Result<u64, ActuatorBridgeError>)
    ensures
        match r {
            Ok(v) => bridge_number(f@, limit as int) == Ok::<int, ActuatorBridgeError>(v as int),
            Err(e) => bridge_number(f@, limit as int) == Err::<int, ActuatorBridgeError>(e),
        },
{
    match parse_unsigned(f.as_str(), limit) {
        Some(v) => Ok(v),
        None => Err(ActuatorBridgeError::InvalidNumber),
    }
}

fn read_time(f: &String) -> (r: Result<Timestamp, ActuatorBridgeError>)
    ensures
        match r {
            Ok(t) => bridge_time(f@) == Ok::<int, ActuatorBridgeError>(t@),
            Err(e) => bridge_time(f@) == Err::<int, ActuatorBridgeError>(e),
        },
{
    match parse_i64(f.as_str()) {
        Some(v) => Ok(Timestamp::new(v)),
        None => Err(ActuatorBridgeError::InvalidNumber),
    }
}

fn placeholder() -> (r: ActionId)
    ensures
        r@ == placeholder_action(),
{
    let text = "bridge:placeholder";
    proof {
        reveal_strlit("bridge:placeholder");
        assert(!crate::text::white_space(text@[0]));
    }
    let action = ActionId::new(text);
    action.unwrap()
}

fn read_receipt_outcome(code: &String, first: u64, second: u32) -> (r: Option<FencedActuatorOutcome>)
    ensures
        r == receipt_outcome_of(code@, first, second),
{
    if is_code(code, "A") {
        Some(FencedActuatorOutcome::Applied)
    } else if is_code(code, "D") {
        Some(
            FencedActuatorOutcome::AlreadyApplied {
                applied_epoch: first,
                applied_attempt_ordinal: second,
            },
        )
    } else if is_code(code, "S") {
        Some(
            FencedActuatorOutcome::Rejected(
                FencedActuatorRejection::StaleEpoch { current_epoch: first },
            ),
        )
    } else if is_code(code, "F") {
        Some(
            FencedActuatorOutcome::Rejected(
                FencedActuatorRejection::FutureEpoch { current_epoch: first },
            ),
        )
    } else if is_code(code, "W") {
        Some(FencedActuatorOutcome::Rejected(FencedActuatorRejection::WrongOwner))
    } else if is_code(code, "L") {
        Some(
            FencedActuatorOutcome::Rejected(
                FencedActuatorRejection::LeaseExpired { current_epoch: first },
            ),
        )
    } else if is_code(code, "I") {
        Some(FencedActuatorOutcome::Rejected(FencedActuatorRejection::IdentityConflict))
    } else {
        None
    }
}

fn read_recovery_outcome(code: &String, first: u64, second: u32) -> (r: Option<
    ActuatorRecoveryOutcome,
>)
    ensures
        r == recovery_outcome_of(code@, first, second),
{
    if is_code(code, "S") {
        Some(
            ActuatorRecoveryOutcome::EffectSucceeded {
                applied_epoch: first,
                applied_attempt_ordinal: second,
            },
        )
    } else if is_code(code, "U") {
        Some(ActuatorRecoveryOutcome::StillUnknown)
    } else if is_code(code, "I") {
        Some(ActuatorRecoveryOutcome::IdentityConflict)
    } else {
        None
    }
}

fn decode_binding(fields: &Vec<String>) -> (r: Result<BridgeEvent, ActuatorBridgeError>)
    requires
        fields@.len() >= 2,
    ensures
        binding_read(texts_of(fields@).subrange(2, fields@.len() as int), r),
{
    let ghost rest = texts_of(fields@).subrange(2, fields@.len() as int);
    if fields.len() - 2 != 3 {
        return Err(ActuatorBridgeError::InvalidRecord);
    }
    assert(rest[0] == fields@[2]@);
    assert(rest[1] == fields@[3]@);
    assert(rest[2] == fields@[4]@);
    let action_raw = read_text(&fields[2])?;
    let action_id = match ActionId::new(action_raw.as_str()) {
        Ok(action_id) => action_id,
        Err(_) => return Err(ActuatorBridgeError::InvalidActionId),
    };
    let idempotency_key = read_text(&fields[3])?;
    let operation_ref = read_text(&fields[4])?;
    if is_blank(idempotency_key.as_str()) {
        return Err(ActuatorBridgeError::EmptyIdempotencyKey);
    }
    if is_blank(operation_ref.as_str()) {
        return Err(ActuatorBridgeError::EmptyOperationRef);
    }
    Ok(BridgeEvent::Binding(ActuatorBridgeBinding { action_id, idempotency_key, operation_ref }))
}

fn decode_prepared(fields: &Vec<String>) -> (r: Result<BridgeEvent, ActuatorBridgeError>)
    requires
        fields@.len() >= 2,
    ensures
        prepared_read(texts_of(fields@).subrange(2, fields@.len() as int), r),
{
    let ghost rest = texts_of(fields@).subrange(2, fields@.len() as int);
    if fields.len() - 2 != 4 {
        return Err(ActuatorBridgeError::InvalidRecord);
    }
    assert(rest[0] == fields@[2]@);
    assert(rest[1] == fields@[3]@);
    assert(rest[2] == fields@[4]@);
    assert(rest[3] == fields@[5]@);
    let owner = read_worker(&fields[2])?;
    let fencing_epoch = read_number(&fields[3], u64::MAX)?;
    let attempt_ordinal = read_number(&fields[4], u32::MAX as u64)?;
    let prepared_at = read_time(&fields[5])?;
    Ok(
        BridgeEvent::Prepared(
            PreparedActuatorCall {
                permit: FencedAttemptPermit {
                    action_id: placeholder(),
                    owner,
                    fencing_epoch,
                    attempt_ordinal: attempt_ordinal as u32,
                    idempotency_key: String::new(),
                },
                prepared_at,
            },
        ),
    )
}

fn decode_receipt(fields: &Vec<String>) -> (r: Result<BridgeEvent, ActuatorBridgeError>)
    requires
        fields@.len() >= 2,
    ensures
        receipt_read(texts_of(fields@).subrange(2, fields@.len() as int), r),
{
    let ghost rest = texts_of(fields@).subrange(2, fields@.len() as int);
    if fields.len() - 2 != 8 {
        return Err(ActuatorBridgeError::InvalidRecord);
    }
    assert(rest[0] == fields@[2]@);
    assert(rest[1] == fields@[3]@);
    assert(rest[2] == fields@[4]@);
    assert(rest[3] == fields@[5]@);
    assert(rest[4] == fields@[6]@);
    assert(rest[5] == fields@[7]@);
    assert(rest[6] == fields@[8]@);
    assert(rest[7] == fields@[9]@);
    let owner = read_worker(&fields[2])?;
    let fencing_epoch = read_number(&fields[3], u64::MAX)?;
    let attempt_ordinal = read_number(&fields[4], u32::MAX as u64)?;
    let observed_at = read_time(&fields[5])?;
    let first = read_number(&fields[7], u64::MAX)?;
    let second = read_number(&fields[8], u32::MAX as u64)?;
    let outcome = match read_receipt_outcome(&fields[6], first, second as u32) {
        Some(outcome) => outcome,
        None => return Err(ActuatorBridgeError::InvalidReceiptOutcome),
    };
    let proof_ref = read_text(&fields[9])?;
    Ok(
        BridgeEvent::Receipt(
            FencedActuatorReceipt {
                request: FencedActuatorRequest {
                    action_id: placeholder(),
                    owner,
                    fencing_epoch,
                    attempt_ordinal: attempt_ordinal as u32,
                    idempotency_key: String::new(),
                    operation_ref: String::new(),
                },
                observed_at,
                outcome,
                proof_ref,
            },
        ),
    )
}

fn decode_recovery(fields: &Vec<String>) -> (r: Result<BridgeEvent, ActuatorBridgeError>)
    requires
        fields@.len() >= 2,
    ensures
        recovery_read(texts_of(fields@).subrange(2, fields@.len() as int), r),
{
    let ghost rest = texts_of(fields@).subrange(2, fields@.len() as int);
    if fields.len() - 2 != 8 {
        return Err(ActuatorBridgeError::InvalidRecord);
    }
    assert(rest[0] == fields@[2]@);
    assert(rest[1] == fields@[3]@);
    assert(rest[2] == fields@[4]@);
    assert(rest[3] == fields@[5]@);
    assert(rest[4] == fields@[6]@);
    assert(rest[5] == fields@[7]@);
    assert(rest[6] == fields@[8]@);
    assert(rest[7] == fields@[9]@);
    let prepared_owner = read_worker(&fields[2])?;
    let attempt_ordinal = read_number(&fields[4], u32::MAX as u64)?;
    let prepared_epoch = read_number(&fields[3], u64::MAX)?;
    let observed_at = read_time(&fields[5])?;
    let first = read_number(&fields[7], u64::MAX)?;
    let second = read_number(&fields[8], u32::MAX as u64)?;
    let outcome = match read_recovery_outcome(&fields[6], first, second as u32) {
        Some(outcome) => outcome,
        None => return Err(ActuatorBridgeError::InvalidRecoveryOutcome),
    };
    let proof_ref = read_text(&fields[9])?;
    Ok(
        BridgeEvent::Recovery(
            ActuatorRecoveryObservation {
                query: ActuatorRecoveryQuery {
                    action_id: placeholder(),
                    idempotency_key: String::new(),
                    operation_ref: String::new(),
                    attempt_ordinal: attempt_ordinal as u32,
                    prepared_owner,
                    prepared_epoch,
                },
                observed_at,
                outcome,
                proof_ref,
            },
        ),
    )
}

/// Reads a bridge event from the fields of its line.
pub fn decode_bridge_fields(fields: &Vec<String>) -> (r: Result<BridgeEvent, ActuatorBridgeError>)
    ensures
        bridge_event_read(texts_of(fields@), r),
{
    let ghost all = texts_of(fields@);
    if fields.len() < 2 || !is_code(&fields[0], "AB1") {
        return Err(ActuatorBridgeError::InvalidRecord);
    }
    assert(all[0] == fields@[0]@);
    assert(all[1] == fields@[1]@);
    if is_code(&fields[1], "BIND") {
        return decode_binding(fields);
    }
    if is_code(&fields[1], "PREP") {
        return decode_prepared(fields);
    }
    if is_code(&fields[1], "RCPT") {
        return decode_receipt(fields);
    }
    if is_code(&fields[1], "RECO") {
        return decode_recovery(fields);
    }
    if is_code(&fields[1], "SYNC") {
        let ghost rest = all.subrange(2, all.len() as int);
        if fields.len() - 2 != 1 {
            return Err(ActuatorBridgeError::InvalidRecord);
        }
        assert(rest[0] == fields@[2]@);
        let evidence_sequence = read_number(&fields[2], u64::MAX)?;
        return Ok(BridgeEvent::Synced { evidence_sequence });
    }
    Err(ActuatorBridgeError::InvalidRecord)
}

/// Reads a bridge event from its line, without the final newline.
pub fn decode_bridge_event(payload: &str) -> (r: Result<BridgeEvent, ActuatorBridgeError>)
    ensures
        bridge_event_read(split_char(payload@, '\t'), r),
{
    let fields = split_text(payload, '\t');
    decode_bridge_fields(&fields)
}

/// The sequence a file name gives: names that do not end in `.evt` are not
/// bridge records; the others must be a decimal sequence before it.
pub open spec fn entry_name_sequence(name: Seq<char>) -> Result<Option<u64>, ActuatorBridgeError> {
    if name.len() >= 4 && name.subrange(name.len() - 4, name.len() as int) == ".evt"@ {
        match unsigned_value(name.subrange(0, name.len() - 4)) {
            Some(v) => if v <= u64::MAX {
                Ok(Some(v as u64))
            } else {
                Err(ActuatorBridgeError::InvalidRecord)
            },
            None => Err(ActuatorBridgeError::InvalidRecord),
        }
    } else {
        Ok(None)
    }
}

/// Reads the sequence of a record file from its name.
pub fn entry_sequence(name: &str) -> (r: Result<Option<u64>, ActuatorBridgeError>)
    ensures
        r == entry_name_sequence(name@),
{
    let n = name.unicode_len();
    if n < 4 {
        return Ok(None);
    }
    let tail = name.substring_char(n - 4, n);
    if !crate::text::text_is(tail, ".evt") {
        return Ok(None);
    }
    match parse_unsigned(name.substring_char(0, n - 4), u64::MAX) {
        Some(v) => Ok(Some(v)),
        None => Err(ActuatorBridgeError::InvalidRecord),
    }
}

/// Orders record files by sequence with `slice::sort_by_key`: the entries
/// afterwards are the same entries, in non-decreasing sequence. Which of two
/// entries with the same sequence comes first is left unsaid.
#[verifier::external_body]
fn sort_by_sequence(entries: &mut Vec<(u64, String)>)
    ensures
        final(entries)@.to_multiset() == old(entries)@.to_multiset(),
        forall|i: int, j: int|
            0 <= i <= j < final(entries)@.len() ==> final(entries)@[i].0 <= final(entries)@[j].0,
{
    entries.sort_by_key(|entry| entry.0);
}

/// The line a record file holds: its text without the final newline, which
/// must be there.
pub open spec fn entry_line(text: Seq<char>) -> Option<Seq<char>> {
    if text.len() > 0 && text.last() == '\n' {
        Some(text.drop_last())
    } else {
        None
    }
}

/// The `i`-th file, in sequence order, holds `record`.
pub open spec fn entry_decodes(entry: (u64, String), i: int, record: BridgeRecord) -> bool {
    &&& entry.0 == i
    &&& record.sequence == entry.0
    &&& entry_line(entry.1@) matches Some(line) && bridge_event_read(
        split_char(line, '\t'),
        Ok::<BridgeEvent, ActuatorBridgeError>(record.event),
    )
}

/// Why the `i`-th file, in sequence order, cannot be read.
pub open spec fn entry_fails(entry: (u64, String), i: int, e: ActuatorBridgeError) -> bool {
    if entry.0 != i {
        e == ActuatorBridgeError::SequenceGap { expected: i as u64, received: entry.0 }
    } else {
        match entry_line(entry.1@) {
            None => e == ActuatorBridgeError::InvalidRecord,
            Some(line) => bridge_event_read(
                split_char(line, '\t'),
                Err::<BridgeEvent, ActuatorBridgeError>(e),
            ),
        }
    }
}

/// How files in sequence order read: every file in turn, or the first that
/// cannot be read.
pub open spec fn entries_read(
    entries: Seq<(u64, String)>,
    r: Result<Seq<BridgeRecord>, ActuatorBridgeError>,
) -> bool {
    match r {
        Ok(records) => records.len() == entries.len() && forall|i: int|
            0 <= i < entries.len() ==> entry_decodes(#[trigger] entries[i], i, records[i]),
        Err(e) => exists|k: int, prior: Seq<BridgeRecord>|
            #![trigger entries[k], prior.len()]
            0 <= k < entries.len() && prior.len() == k && (forall|i: int|
                0 <= i < k ==> entry_decodes(#[trigger] entries[i], i, prior[i])) && entry_fails(
                entries[k],
                k,
                e,
            ),
    }
}

fn decode_entries(entries: &Vec<(u64, String)>) -> (r: Result<Vec<BridgeRecord>, ActuatorBridgeError>)
    ensures
        match r {
            Ok(records) => entries_read(entries@, Ok(records@)),
            Err(e) => entries_read(entries@, Err(e)),
        },
{
    let mut records: Vec<BridgeRecord> = Vec::new();
    let mut i: usize = 0;
    while i < entries.len()
        invariant
            i <= entries@.len(),
            records@.len() == i,
            forall|k: int| 0 <= k < i ==> entry_decodes(#[trigger] entries@[k], k, records@[k]),
        decreases entries@.len() - i,
    {
        let sequence = entries[i].0;
        if sequence != i as u64 {
            let e = ActuatorBridgeError::SequenceGap { expected: i as u64, received: sequence };
            assert(entry_fails(entries@[i as int], i as int, e));
            assert(records@.len() == i);
            return Err(e);
        }
        let text = entries[i].1.as_str();
        let n = text.unicode_len();
        if n == 0 || text.get_char(n - 1) != '\n' {
            assert(entry_fails(entries@[i as int], i as int, ActuatorBridgeError::InvalidRecord));
            assert(records@.len() == i);
            return Err(ActuatorBridgeError::InvalidRecord);
        }
        let line = text.substring_char(0, n - 1);
        assert(line@ =~= text@.drop_last());
        match decode_bridge_event(line) {
            Ok(event) => {
                let record = BridgeRecord { sequence, event };
                assert(entry_decodes(entries@[i as int], i as int, record));
                records.push(record);
            },
            Err(e) => {
                assert(entry_fails(entries@[i as int], i as int, e));
                assert(records@.len() == i);
                return Err(e);
            },
        }
        i = i + 1;
    }
    Ok(records)
}

/// Why records cannot name the action they are about: none at all, a first
/// record that is not the binding, or a second binding.
pub open spec fn binding_refusal(records: Seq<BridgeRecord>) -> Option<ActuatorBridgeError> {
    if records.len() == 0 {
        Some(ActuatorBridgeError::MissingBinding)
    } else if !(records[0].event is Binding) {
        Some(ActuatorBridgeError::BindingMustBeFirst)
    } else if exists|i: int| 1 <= i < records.len() && #[trigger] records[i].event is Binding {
        Some(ActuatorBridgeError::DuplicateBinding)
    } else {
        None
    }
}

/// The binding the records open with.
pub fn binding_from_records(records: &Vec<BridgeRecord>) -> (r: Result<
    ActuatorBridgeBinding,
    ActuatorBridgeError,
>)
    ensures
        match r {
            Ok(binding) => binding_refusal(records@) is None && records@[0].event
                == BridgeEvent::Binding(binding),
            Err(e) => binding_refusal(records@) == Some(e),
        },
{
    if records.len() == 0 {
        return Err(ActuatorBridgeError::MissingBinding);
    }
    let binding = match &records[0].event {
        BridgeEvent::Binding(binding) => binding.clone(),
        _ => return Err(ActuatorBridgeError::BindingMustBeFirst),
    };
    let mut i: usize = 1;
    while i < records.len()
        invariant
            1 <= i <= records@.len(),
            records@[0].event == BridgeEvent::Binding(binding),
            forall|k: int| 1 <= k < i ==> !(#[trigger] records@[k].event is Binding),
        decreases records@.len() - i,
    {
        if let BridgeEvent::Binding(_) = &records[i].event {
            assert(records@[i as int].event is Binding);
            return Err(ActuatorBridgeError::DuplicateBinding);
        }
        i = i + 1;
    }
    Ok(binding)
}

/// An event with the identity of the binding, for the events that are
/// written without it.
pub open spec fn with_identity(event: BridgeEvent, binding: ActuatorBridgeBinding) -> BridgeEvent {
    match event {
        BridgeEvent::Prepared(p) => BridgeEvent::Prepared(
            PreparedActuatorCall {
                permit: FencedAttemptPermit {
                    action_id: binding.action_id,
                    owner: p.permit.owner,
                    fencing_epoch: p.permit.fencing_epoch,
                    attempt_ordinal: p.permit.attempt_ordinal,
                    idempotency_key: binding.idempotency_key,
                },
                prepared_at: p.prepared_at,
            },
        ),
        BridgeEvent::Receipt(c) => BridgeEvent::Receipt(
            FencedActuatorReceipt {
                request: FencedActuatorRequest {
                    action_id: binding.action_id,
                    owner: c.request.owner,
                    fencing_epoch: c.request.fencing_epoch,
                    attempt_ordinal: c.request.attempt_ordinal,
                    idempotency_key: binding.idempotency_key,
                    operation_ref: binding.operation_ref,
                },
                observed_at: c.observed_at,
                outcome: c.outcome,
                proof_ref: c.proof_ref,
            },
        ),
        BridgeEvent::Recovery(o) => BridgeEvent::Recovery(
            ActuatorRecoveryObservation {
                query: ActuatorRecoveryQuery {
                    action_id: binding.action_id,
                    idempotency_key: binding.idempotency_key,
                    operation_ref: binding.operation_ref,
                    attempt_ordinal: o.query.attempt_ordinal,
                    prepared_owner: o.query.prepared_owner,
                    prepared_epoch: o.query.prepared_epoch,
                },
                observed_at: o.observed_at,
                outcome: o.outcome,
                proof_ref: o.proof_ref,
            },
        ),
        other => other,
    }
}

/// `out` is `records` with every record after the binding given its identity.
pub open spec fn identity_restored(
    records: Seq<BridgeRecord>,
    binding: ActuatorBridgeBinding,
    out: Seq<BridgeRecord>,
) -> bool {
    &&& out.len() == records.len()
    &&& out.len() > 0 ==> out[0] == records[0]
    &&& forall|i: int|
        1 <= i < records.len() ==> #[trigger] out[i] == (BridgeRecord {
            sequence: records[i].sequence,
            event: with_identity(records[i].event, binding),
        })
}

fn restore_identity(event: &BridgeEvent, binding: &ActuatorBridgeBinding) -> (r: BridgeEvent)
    ensures
        r == with_identity(*event, *binding),
{
    match event {
        BridgeEvent::Prepared(p) => BridgeEvent::Prepared(
            PreparedActuatorCall {
                permit: FencedAttemptPermit {
                    action_id: binding.action_id.clone(),
                    owner: p.permit.owner.clone(),
                    fencing_epoch: p.permit.fencing_epoch,
                    attempt_ordinal: p.permit.attempt_ordinal,
                    idempotency_key: binding.idempotency_key.clone(),
                },
                prepared_at: p.prepared_at,
            },
        ),
        BridgeEvent::Receipt(c) => BridgeEvent::Receipt(
            FencedActuatorReceipt {
                request: FencedActuatorRequest {
                    action_id: binding.action_id.clone(),
                    owner: c.request.owner.clone(),
                    fencing_epoch: c.request.fencing_epoch,
                    attempt_ordinal: c.request.attempt_ordinal,
                    idempotency_key: binding.idempotency_key.clone(),
                    operation_ref: binding.operation_ref.clone(),
                },
                observed_at: c.observed_at,
                outcome: c.outcome,
                proof_ref: c.proof_ref.clone(),
            },
        ),
        BridgeEvent::Recovery(o) => BridgeEvent::Recovery(
            ActuatorRecoveryObservation {
                query: ActuatorRecoveryQuery {
                    action_id: binding.action_id.clone(),
                    idempotency_key: binding.idempotency_key.clone(),
                    operation_ref: binding.operation_ref.clone(),
                    attempt_ordinal: o.query.attempt_ordinal,
                    prepared_owner: o.query.prepared_owner.clone(),
                    prepared_epoch: o.query.prepared_epoch,
                },
                observed_at: o.observed_at,
                outcome: o.outcome,
                proof_ref: o.proof_ref.clone(),
            },
        ),
        other => other.clone(),
    }
}

/// Gives every record after the binding the binding's identity.
pub fn normalize_records(records: &Vec<BridgeRecord>) -> (r: Result<
    Vec<BridgeRecord>,
    ActuatorBridgeError,
>)
    ensures
        match r {
            Ok(out) => binding_refusal(records@) is None && identity_restored(
                records@,
                records@[0].event->Binding_0,
                out@,
            ),
            Err(e) => binding_refusal(records@) == Some(e),
        },
{
    let binding = binding_from_records(records)?;
    let mut out: Vec<BridgeRecord> = Vec::new();
    out.push(records[0].clone());
    let mut i: usize = 1;
    while i < records.len()
        invariant
            1 <= i <= records@.len(),
            records@[0].event == BridgeEvent::Binding(binding),
            out@.len() == i,
            out@[0] == records@[0],
            forall|k: int|
                1 <= k < i ==> #[trigger] out@[k] == (BridgeRecord {
                    sequence: records@[k].sequence,
                    event: with_identity(records@[k].event, binding),
                }),
        decreases records@.len() - i,
    {
        let event = restore_identity(&records[i].event, &binding);
        out.push(BridgeRecord { sequence: records[i].sequence, event });
        i = i + 1;
    }
    Ok(out)
}

/// The records of the files of a bridge, each entry the sequence its file
/// name gives and the text it holds: in sequence order, gapless from zero,
/// every record read and given the binding's identity.
///
/// Entries with the same sequence are taken in an order left open; such
/// entries always end in a sequence gap.
pub fn read_bridge_records(entries: Vec<(u64, String)>) -> (r: Result<
    Vec<BridgeRecord>,
    ActuatorBridgeError,
>)
    ensures
        entries@.len() == 0 ==> r == Err::<Vec<BridgeRecord>, ActuatorBridgeError>(
            ActuatorBridgeError::EmptyBridge,
        ),
        entries@.len() > 0 ==> exists|sorted: Seq<(u64, String)>|
            #![trigger sorted.to_multiset()]
            sorted.to_multiset() == entries@.to_multiset() && (forall|i: int, j: int|
                0 <= i <= j < sorted.len() ==> sorted[i].0 <= sorted[j].0) && match r {
                Ok(out) => exists|raw: Seq<BridgeRecord>|
                    entries_read(sorted, Ok(raw)) && binding_refusal(raw) is None
                        && identity_restored(raw, raw[0].event->Binding_0, out@),
                Err(e) => entries_read(sorted, Err(e)) || exists|raw: Seq<BridgeRecord>|
                    entries_read(sorted, Ok(raw)) && binding_refusal(raw) == Some(e),
            },
{
    if entries.len() == 0 {
        return Err(ActuatorBridgeError::EmptyBridge);
    }
    let mut entries = entries;
    sort_by_sequence(&mut entries);
    let raw = decode_entries(&entries)?;
    normalize_records(&raw)
}

/// The calls prepared among the records after the binding, up to `n`.
pub open spec fn prepared_of(records: Seq<BridgeRecord>, n: int) -> Seq<PreparedActuatorCall>
    decreases n,
{
    if n <= 1 {
        Seq::empty()
    } else {
        let prior = prepared_of(records, n - 1);
        match records[n - 1].event {
            BridgeEvent::Prepared(p) => prior.push(p),
            _ => prior,
        }
    }
}

/// The evidence among the records after the binding, up to `n`, each under
/// its record's sequence.
pub open spec fn evidence_of(records: Seq<BridgeRecord>, n: int) -> Seq<DurableActuatorEvidence>
    decreases n,
{
    if n <= 1 {
        Seq::empty()
    } else {
        let prior = evidence_of(records, n - 1);
        let sequence = records[n - 1].sequence;
        match records[n - 1].event {
            BridgeEvent::Receipt(receipt) => prior.push(
                DurableActuatorEvidence::Receipt { sequence, receipt },
            ),
            BridgeEvent::Recovery(observation) => prior.push(
                DurableActuatorEvidence::Recovery { sequence, observation },
            ),
            _ => prior,
        }
    }
}

/// The evidence sequences marked as carried into the journal, up to `n`.
pub open spec fn synced_of(records: Seq<BridgeRecord>, n: int) -> Seq<u64>
    decreases n,
{
    if n <= 1 {
        Seq::empty()
    } else {
        let prior = synced_of(records, n - 1);
        match records[n - 1].event {
            BridgeEvent::Synced { evidence_sequence } => prior.push(evidence_sequence),
            _ => prior,
        }
    }
}

/// Replays the records of a bridge.
pub fn recover_bridge(records: &Vec<BridgeRecord>) -> (r: Result<
    RecoveredActuatorBridge,
    ActuatorBridgeError,
>)
    ensures
        match r {
            Ok(state) => {
                &&& binding_refusal(records@) is None
                &&& records@[0].event == BridgeEvent::Binding(state.binding)
                &&& state.prepared_calls@ == prepared_of(records@, records@.len() as int)
                &&& state.evidence@ == evidence_of(records@, records@.len() as int)
                &&& state.synced_sequences@ == synced_of(records@, records@.len() as int)
                &&& state.last_sequence == records@.last().sequence
            },
            Err(e) => binding_refusal(records@) == Some(e),
        },
{
    let binding = binding_from_records(records)?;
    let mut prepared_calls: Vec<PreparedActuatorCall> = Vec::new();
    let mut evidence: Vec<DurableActuatorEvidence> = Vec::new();
    let mut synced_sequences: Vec<u64> = Vec::new();
    let mut i: usize = 1;
    while i < records.len()
        invariant
            1 <= i <= records@.len(),
            binding_refusal(records@) is None,
            prepared_calls@ == prepared_of(records@, i as int),
            evidence@ == evidence_of(records@, i as int),
            synced_sequences@ == synced_of(records@, i as int),
        decreases records@.len() - i,
    {
        let sequence = records[i].sequence;
        match &records[i].event {
            BridgeEvent::Binding(_) => {
                assert(records@[i as int].event is Binding);
                return Err(ActuatorBridgeError::DuplicateBinding);
            },
            BridgeEvent::Prepared(prepared) => prepared_calls.push(prepared.clone()),
            BridgeEvent::Receipt(receipt) => evidence.push(
                DurableActuatorEvidence::Receipt { sequence, receipt: receipt.clone() },
            ),
            BridgeEvent::Recovery(observation) => evidence.push(
                DurableActuatorEvidence::Recovery { sequence, observation: observation.clone() },
            ),
            BridgeEvent::Synced { evidence_sequence } => synced_sequences.push(*evidence_sequence),
        }
        i = i + 1;
    }
    let last_sequence = records[records.len() - 1].sequence;
    Ok(RecoveredActuatorBridge { binding, prepared_calls, evidence, synced_sequences, last_sequence })
}

/// The sequence the next event is written under: one past the last record,
/// held at the largest sequence, or zero for no records.
pub fn next_sequence(records: &Vec<BridgeRecord>) -> (s: u64)
    ensures
        records@.len() == 0 ==> s == 0,
        records@.len() > 0 ==> s == if records@.last().sequence == u64::MAX {
            u64::MAX
        } else {
            (records@.last().sequence + 1) as u64
        },
{
    if records.len() == 0 {
        0
    } else {
        records[records.len() - 1].sequence.saturating_add(1)
    }
}

/// A bridge event whose identity texts are not blank, as the records demand
/// of a binding and of a worker.
pub open spec fn storable_bridge_event(event: BridgeEvent) -> bool {
    match event {
        BridgeEvent::Binding(b) => !blank(b.action_id@) && !blank(b.idempotency_key@) && !blank(
            b.operation_ref@,
        ),
        BridgeEvent::Prepared(p) => !blank(p.permit.owner@),
        BridgeEvent::Receipt(c) => !blank(c.request.owner@),
        BridgeEvent::Recovery(o) => !blank(o.query.prepared_owner@),
        BridgeEvent::Synced { .. } => true,
    }
}

proof fn lemma_hex_field_reads(t: Seq<char>)
    ensures
        !hex_text(t).contains('\t'),
        bridge_text(hex_text(t)) == Ok::<Seq<char>, ActuatorBridgeError>(t),
{
    crate::codec::lemma_hex_chars(encode_utf8(t));
    crate::codec::lemma_hex_round_trip(t);
    if hex_text(t).contains('\t') {
        let k = choose|k: int| 0 <= k < hex_text(t).len() && hex_text(t)[k] == '\t';
        assert(crate::codec::hex_digit_char(hex_text(t)[k]));
    }
}

proof fn lemma_decimal_field_reads(n: nat, limit: int)
    requires
        n <= limit,
    ensures
        !decimal(n).contains('\t'),
        bridge_number(decimal(n), limit) == Ok::<int, ActuatorBridgeError>(n as int),
{
    crate::codec::lemma_decimal_round_trip(n);
    if decimal(n).contains('\t') {
        let k = choose|k: int| 0 <= k < decimal(n).len() && decimal(n)[k] == '\t';
        assert('0' <= decimal(n)[k] <= '9');
    }
}

proof fn lemma_time_field_reads(t: Timestamp)
    ensures
        !signed_decimal(t@).contains('\t'),
        bridge_time(signed_decimal(t@)) == Ok::<int, ActuatorBridgeError>(t@),
{
    Timestamp::lemma_view_range(t);
    crate::codec::lemma_signed_round_trip(t@);
    let f = signed_decimal(t@);
    if f.contains('\t') {
        let k = choose|k: int| 0 <= k < f.len() && f[k] == '\t';
        assert('0' <= f[k] <= '9' || f[k] == '-');
    }
}

proof fn lemma_code_field(code: Seq<char>)
    requires
        code == "A"@ || code == "D"@ || code == "S"@ || code == "F"@ || code == "W"@ || code
            == "L"@ || code == "I"@ || code == "U"@,
    ensures
        !code.contains('\t'),
{
    reveal_strlit("A");
    reveal_strlit("D");
    reveal_strlit("S");
    reveal_strlit("F");
    reveal_strlit("W");
    reveal_strlit("L");
    reveal_strlit("I");
    reveal_strlit("U");
    if code.contains('\t') {
        let k = choose|k: int| 0 <= k < code.len() && code[k] == '\t';
        assert(code[k] != '\t');
    }
}

proof fn lemma_literals()
    ensures
        "\t"@ == seq!['\t'],
        !"AB1"@.contains('\t'),
        !"BIND"@.contains('\t'),
        !"PREP"@.contains('\t'),
        !"RCPT"@.contains('\t'),
        !"RECO"@.contains('\t'),
        !"SYNC"@.contains('\t'),
        "BIND"@ != "PREP"@,
        "BIND"@ != "RCPT"@,
        "BIND"@ != "RECO"@,
        "BIND"@ != "SYNC"@,
        "PREP"@ != "RCPT"@,
        "PREP"@ != "RECO"@,
        "PREP"@ != "SYNC"@,
        "RCPT"@ != "RECO"@,
        "RCPT"@ != "SYNC"@,
        "RECO"@ != "SYNC"@,
        "A"@ != "D"@ && "A"@ != "S"@ && "A"@ != "F"@ && "A"@ != "W"@ && "A"@ != "L"@ && "A"@
            != "I"@,
        "D"@ != "S"@ && "D"@ != "F"@ && "D"@ != "W"@ && "D"@ != "L"@ && "D"@ != "I"@,
        "S"@ != "F"@ && "S"@ != "W"@ && "S"@ != "L"@ && "S"@ != "I"@ && "S"@ != "U"@,
        "F"@ != "W"@ && "F"@ != "L"@ && "F"@ != "I"@,
        "W"@ != "L"@ && "W"@ != "I"@,
        "L"@ != "I"@,
        "U"@ != "I"@,
{
    reveal_strlit("\t");
    reveal_strlit("AB1");
    reveal_strlit("BIND");
    reveal_strlit("PREP");
    reveal_strlit("RCPT");
    reveal_strlit("RECO");
    reveal_strlit("SYNC");
    reveal_strlit("A");
    reveal_strlit("D");
    reveal_strlit("S");
    reveal_strlit("F");
    reveal_strlit("W");
    reveal_strlit("L");
    reveal_strlit("I");
    reveal_strlit("U");
    assert("\t"@ =~= seq!['\t']);
    assert("BIND"@[0] != "PREP"@[0]);
    assert("BIND"@[0] != "RCPT"@[0]);
    assert("BIND"@[0] != "RECO"@[0]);
    assert("BIND"@[0] != "SYNC"@[0]);
    assert("PREP"@[0] != "RCPT"@[0]);
    assert("PREP"@[0] != "RECO"@[0]);
    assert("PREP"@[0] != "SYNC"@[0]);
    assert("RCPT"@[1] != "RECO"@[1]);
    assert("RCPT"@[0] != "SYNC"@[0]);
    assert("RECO"@[0] != "SYNC"@[0]);
    assert("A"@[0] != "D"@[0]);
    assert("A"@[0] != "S"@[0]);
    assert("A"@[0] != "F"@[0]);
    assert("A"@[0] != "W"@[0]);
    assert("A"@[0] != "L"@[0]);
    assert("A"@[0] != "I"@[0]);
    assert("D"@[0] != "S"@[0]);
    assert("D"@[0] != "F"@[0]);
    assert("D"@[0] != "W"@[0]);
    assert("D"@[0] != "L"@[0]);
    assert("D"@[0] != "I"@[0]);
    assert("S"@[0] != "F"@[0]);
    assert("S"@[0] != "W"@[0]);
    assert("S"@[0] != "L"@[0]);
    assert("S"@[0] != "I"@[0]);
    assert("S"@[0] != "U"@[0]);
    assert("F"@[0] != "W"@[0]);
    assert("F"@[0] != "L"@[0]);
    assert("F"@[0] != "I"@[0]);
    assert("W"@[0] != "L"@[0]);
    assert("W"@[0] != "I"@[0]);
    assert("L"@[0] != "I"@[0]);
    assert("U"@[0] != "I"@[0]);
    let lits = seq!["AB1"@, "BIND"@, "PREP"@, "RCPT"@, "RECO"@, "SYNC"@];
    assert forall|j: int| 0 <= j < lits.len() implies !(#[trigger] lits[j]).contains('\t') by {
        if lits[j].contains('\t') {
            let k = choose|k: int| 0 <= k < lits[j].len() && lits[j][k] == '\t';
            assert(lits[j][k] != '\t');
        }
    }
    assert(lits[0] == "AB1"@);
    assert(lits[1] == "BIND"@);
    assert(lits[2] == "PREP"@);
    assert(lits[3] == "RCPT"@);
    assert(lits[4] == "RECO"@);
    assert(lits[5] == "SYNC"@);
}

proof fn lemma_binding_tab_free(b: ActuatorBridgeBinding)
    ensures
        tab_free(bridge_fields(BridgeEvent::Binding(b))),
{
    lemma_literals();
    lemma_hex_field_reads(b.action_id@);
    lemma_hex_field_reads(b.idempotency_key@);
    lemma_hex_field_reads(b.operation_ref@);
}

proof fn lemma_prepared_tab_free(p: PreparedActuatorCall)
    ensures
        tab_free(bridge_fields(BridgeEvent::Prepared(p))),
{
    lemma_literals();
    lemma_hex_field_reads(p.permit.owner@);
    lemma_decimal_field_reads(p.permit.fencing_epoch as nat, u64::MAX as int);
    lemma_decimal_field_reads(p.permit.attempt_ordinal as nat, u32::MAX as int);
    lemma_time_field_reads(p.prepared_at);
}

proof fn lemma_receipt_tab_free(c: FencedActuatorReceipt)
    ensures
        tab_free(bridge_fields(BridgeEvent::Receipt(c))),
{
    lemma_literals();
    let (code, first, second) = receipt_code(c.outcome);
    lemma_hex_field_reads(c.request.owner@);
    lemma_decimal_field_reads(c.request.fencing_epoch as nat, u64::MAX as int);
    lemma_decimal_field_reads(c.request.attempt_ordinal as nat, u32::MAX as int);
    lemma_time_field_reads(c.observed_at);
    lemma_code_field(code);
    lemma_decimal_field_reads(first as nat, u64::MAX as int);
    lemma_decimal_field_reads(second as nat, u32::MAX as int);
    lemma_hex_field_reads(c.proof_ref@);
    let fields = bridge_fields(BridgeEvent::Receipt(c));
    assert(fields[6] == code);
}

proof fn lemma_recovery_tab_free(o: ActuatorRecoveryObservation)
    ensures
        tab_free(bridge_fields(BridgeEvent::Recovery(o))),
{
    lemma_literals();
    let (code, first, second) = recovery_code(o.outcome);
    lemma_hex_field_reads(o.query.prepared_owner@);
    lemma_decimal_field_reads(o.query.prepared_epoch as nat, u64::MAX as int);
    lemma_decimal_field_reads(o.query.attempt_ordinal as nat, u32::MAX as int);
    lemma_time_field_reads(o.observed_at);
    lemma_code_field(code);
    lemma_decimal_field_reads(first as nat, u64::MAX as int);
    lemma_decimal_field_reads(second as nat, u32::MAX as int);
    lemma_hex_field_reads(o.proof_ref@);
    let fields = bridge_fields(BridgeEvent::Recovery(o));
    assert(fields[6] == code);
}

proof fn lemma_fields_tab_free(event: BridgeEvent)
    ensures
        tab_free(bridge_fields(event)),
{
    match event {
        BridgeEvent::Binding(b) => lemma_binding_tab_free(b),
        BridgeEvent::Prepared(p) => lemma_prepared_tab_free(p),
        BridgeEvent::Receipt(c) => lemma_receipt_tab_free(c),
        BridgeEvent::Recovery(o) => lemma_recovery_tab_free(o),
        BridgeEvent::Synced { evidence_sequence } => {
            lemma_literals();
            lemma_decimal_field_reads(evidence_sequence as nat, u64::MAX as int);
        },
    }
}

proof fn lemma_binding_reads_back(b: ActuatorBridgeBinding, r: Result<BridgeEvent, ActuatorBridgeError>)
    requires
        storable_bridge_event(BridgeEvent::Binding(b)),
        bridge_event_read(bridge_fields(BridgeEvent::Binding(b)), r),
    ensures
        r is Ok,
        bridge_fields(r->Ok_0) == bridge_fields(BridgeEvent::Binding(b)),
{
    lemma_literals();
    lemma_hex_field_reads(b.action_id@);
    lemma_hex_field_reads(b.idempotency_key@);
    lemma_hex_field_reads(b.operation_ref@);
    let fields = bridge_fields(BridgeEvent::Binding(b));
    let rest = fields.subrange(2, fields.len() as int);
    assert(rest[0] == hex_text(b.action_id@));
    assert(rest[1] == hex_text(b.idempotency_key@));
    assert(rest[2] == hex_text(b.operation_ref@));
}

proof fn lemma_prepared_reads_back(p: PreparedActuatorCall, r: Result<BridgeEvent, ActuatorBridgeError>)
    requires
        storable_bridge_event(BridgeEvent::Prepared(p)),
        bridge_event_read(bridge_fields(BridgeEvent::Prepared(p)), r),
    ensures
        r is Ok,
        bridge_fields(r->Ok_0) == bridge_fields(BridgeEvent::Prepared(p)),
{
    lemma_literals();
    lemma_hex_field_reads(p.permit.owner@);
    lemma_decimal_field_reads(p.permit.fencing_epoch as nat, u64::MAX as int);
    lemma_decimal_field_reads(p.permit.attempt_ordinal as nat, u32::MAX as int);
    lemma_time_field_reads(p.prepared_at);
    let fields = bridge_fields(BridgeEvent::Prepared(p));
    let rest = fields.subrange(2, fields.len() as int);
    assert(rest[0] == hex_text(p.permit.owner@));
    assert(rest[1] == decimal(p.permit.fencing_epoch as nat));
    assert(rest[2] == decimal(p.permit.attempt_ordinal as nat));
    assert(rest[3] == signed_decimal(p.prepared_at@));
}

proof fn lemma_receipt_reads_back(c: FencedActuatorReceipt, r: Result<BridgeEvent, ActuatorBridgeError>)
    requires
        storable_bridge_event(BridgeEvent::Receipt(c)),
        bridge_event_read(bridge_fields(BridgeEvent::Receipt(c)), r),
    ensures
        r is Ok,
        bridge_fields(r->Ok_0) == bridge_fields(BridgeEvent::Receipt(c)),
{
    lemma_literals();
    let (code, first, second) = receipt_code(c.outcome);
    lemma_hex_field_reads(c.request.owner@);
    lemma_decimal_field_reads(c.request.fencing_epoch as nat, u64::MAX as int);
    lemma_decimal_field_reads(c.request.attempt_ordinal as nat, u32::MAX as int);
    lemma_time_field_reads(c.observed_at);
    lemma_decimal_field_reads(first as nat, u64::MAX as int);
    lemma_decimal_field_reads(second as nat, u32::MAX as int);
    lemma_hex_field_reads(c.proof_ref@);
    assert(receipt_outcome_of(code, first, second) == Some(c.outcome));
    let fields = bridge_fields(BridgeEvent::Receipt(c));
    let rest = fields.subrange(2, fields.len() as int);
    assert(rest[0] == hex_text(c.request.owner@));
    assert(rest[1] == decimal(c.request.fencing_epoch as nat));
    assert(rest[2] == decimal(c.request.attempt_ordinal as nat));
    assert(rest[3] == signed_decimal(c.observed_at@));
    assert(rest[4] == code);
    assert(rest[5] == decimal(first as nat));
    assert(rest[6] == decimal(second as nat));
    assert(rest[7] == hex_text(c.proof_ref@));
}

proof fn lemma_recovery_reads_back(
    o: ActuatorRecoveryObservation,
    r: Result<BridgeEvent, ActuatorBridgeError>,
)
    requires
        storable_bridge_event(BridgeEvent::Recovery(o)),
        bridge_event_read(bridge_fields(BridgeEvent::Recovery(o)), r),
    ensures
        r is Ok,
        bridge_fields(r->Ok_0) == bridge_fields(BridgeEvent::Recovery(o)),
{
    lemma_literals();
    let (code, first, second) = recovery_code(o.outcome);
    lemma_hex_field_reads(o.query.prepared_owner@);
    lemma_decimal_field_reads(o.query.prepared_epoch as nat, u64::MAX as int);
    lemma_decimal_field_reads(o.query.attempt_ordinal as nat, u32::MAX as int);
    lemma_time_field_reads(o.observed_at);
    lemma_decimal_field_reads(first as nat, u64::MAX as int);
    lemma_decimal_field_reads(second as nat, u32::MAX as int);
    lemma_hex_field_reads(o.proof_ref@);
    assert(recovery_outcome_of(code, first, second) == Some(o.outcome));
    let fields = bridge_fields(BridgeEvent::Recovery(o));
    let rest = fields.subrange(2, fields.len() as int);
    assert(rest[0] == hex_text(o.query.prepared_owner@));
    assert(rest[1] == decimal(o.query.prepared_epoch as nat));
    assert(rest[2] == decimal(o.query.attempt_ordinal as nat));
    assert(rest[3] == signed_decimal(o.observed_at@));
    assert(rest[4] == code);
    assert(rest[5] == decimal(first as nat));
    assert(rest[6] == decimal(second as nat));
    assert(rest[7] == hex_text(o.proof_ref@));
}

/// Every bridge event whose identity texts are not blank reads back from its
/// line: reading succeeds, and the event read writes the same line. The line
/// of any event but the binding holds no identity; such an event is read with
/// the placeholder identity.
pub proof fn law_bridge_event_reads_back(event: BridgeEvent, r: Result<BridgeEvent, ActuatorBridgeError>)
    requires
        storable_bridge_event(event),
        bridge_event_read(split_char(bridge_event_text(event), '\t'), r),
    ensures
        r is Ok,
        bridge_fields(r->Ok_0) == bridge_fields(event),
{
    lemma_literals();
    lemma_fields_tab_free(event);
    crate::codec::lemma_split_join(bridge_fields(event), '\t');
    match event {
        BridgeEvent::Binding(b) => lemma_binding_reads_back(b, r),
        BridgeEvent::Prepared(p) => lemma_prepared_reads_back(p, r),
        BridgeEvent::Receipt(c) => lemma_receipt_reads_back(c, r),
        BridgeEvent::Recovery(o) => lemma_recovery_reads_back(o, r),
        BridgeEvent::Synced { evidence_sequence } => {
            lemma_decimal_field_reads(evidence_sequence as nat, u64::MAX as int);
        },
    }
}

/// Record files written in sequence order, each holding an event's line and
/// a newline, read back in full, and every record read writes the same line
/// as the event written to its file.
pub proof fn law_bridge_files_read_back(
    events: Seq<BridgeEvent>,
    entries: Seq<(u64, String)>,
    r: Result<Seq<BridgeRecord>, ActuatorBridgeError>,
)
    requires
        entries.len() == events.len(),
        forall|i: int| 0 <= i < events.len() ==> storable_bridge_event(#[trigger] events[i]),
        forall|i: int|
            0 <= i < entries.len() ==> (#[trigger] entries[i]).0 == i && entries[i].1@
                == bridge_event_text(events[i]).push('\n'),
        entries_read(entries, r),
    ensures
        r is Ok,
        forall|i: int|
            0 <= i < events.len() ==> (#[trigger] r->Ok_0[i]).sequence == i && bridge_fields(
                r->Ok_0[i].event,
            ) == bridge_fields(events[i]),
{
    assert forall|i: int| 0 <= i < entries.len() implies entry_line((#[trigger] entries[i]).1@)
        == Some(bridge_event_text(events[i])) by {
        assert(entries[i].1@.drop_last() =~= bridge_event_text(events[i]));
    }
    match r {
        Ok(records) => {
            assert forall|i: int| 0 <= i < events.len() implies (#[trigger] records[i]).sequence == i
                && bridge_fields(records[i].event) == bridge_fields(events[i]) by {
                assert(entry_decodes(entries[i], i, records[i]));
                law_bridge_event_reads_back(
                    events[i],
                    Ok::<BridgeEvent, ActuatorBridgeError>(records[i].event),
                );
            }
        },
        Err(e) => {
            let (k, prior) = choose|k: int, prior: Seq<BridgeRecord>|
                #![trigger entries[k], prior.len()]
                0 <= k < entries.len() && prior.len() == k && (forall|i: int|
                    0 <= i < k ==> entry_decodes(#[trigger] entries[i], i, prior[i])) && entry_fails(
                    entries[k],
                    k,
                    e,
                );
            assert(entry_line(entries[k].1@) == Some(bridge_event_text(events[k])));
            law_bridge_event_reads_back(events[k], Err::<BridgeEvent, ActuatorBridgeError>(e));
        },
    }
}

} // verus!
