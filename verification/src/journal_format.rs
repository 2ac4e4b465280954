//! The durable journal's line format.
//!
//! Each record is one line `sequence TAB checksum TAB payload` ending in a
//! newline. The payload is tab-separated fields starting with the format
//! version and the record kind; texts are stored as lower-case hex of their
//! UTF-8 bytes, numbers in decimal. The checksum is 64-bit FNV-1a over the
//! bytes of `sequence TAB payload`, written as sixteen hex digits.
use vstd::prelude::*;
use vstd::string::StringExecFns;
use vstd::string::StringSliceAdditionalSpecFns;
use vstd::utf8::encode_utf8;

use crate::authority::ExecutionMode;
use crate::codec::{
    bytes_of, find_char, first_index_of, hex_decode, hex_encode, hex_fixed, hex_fixed_text,
    hex_number, hex_of, i64_text, join_bytes, join_texts, join_with, parse_hex_u64, parse_i64,
    parse_unsigned, signed_decimal, signed_value, split_bytes, split_char, split_text, tab_free, texts_of, unhex_text,
    unsigned_value, utf8_string, FieldError,
};
use vstd::string::StrSliceExecFns;
use vstd::utf8::{decode_utf8, valid_utf8};
use crate::durable_journal::{JournalEvent, PreparedAttempt};
use crate::execution_receipt::{AuthorityTicket, ExecutionOutcome};
use crate::reconciliation::{IdempotencyBinding, ReconciliationOutcome};
use crate::attempt_ledger::AttemptId;
use crate::bead::BeadId;
use crate::durable_journal::JournalError;
use crate::execution_receipt::ActionId;
use crate::primitives::Timestamp;
use crate::text::{blank, decimal, decimal_text, is_blank, same_text};

verus! {

/// Lower-case hex of the UTF-8 bytes of a text.
pub open spec fn hex_text(t: Seq<char>) -> Seq<char> {
    hex_of(encode_utf8(t))
}

/// The hex fields of a list of texts.
pub open spec fn hex_fields(texts: Seq<String>) -> Seq<Seq<char>> {
    Seq::new(texts.len(), |i: int| hex_text(texts[i]@))
}

/// The code an execution mode is written as.
pub open spec fn mode_code(mode: ExecutionMode) -> Seq<char> {
    match mode {
        ExecutionMode::Automatic => "A"@,
        ExecutionMode::ApprovedManual => "M"@,
    }
}

/// The code a reconciliation outcome is written as.
pub open spec fn reconciliation_code(outcome: ReconciliationOutcome) -> Seq<char> {
    match outcome {
        ReconciliationOutcome::EffectSucceeded => "S"@,
        ReconciliationOutcome::EffectFailed => "F"@,
        ReconciliationOutcome::NoEffectConfirmed => "N"@,
        ReconciliationOutcome::StillUnknown => "U"@,
    }
}

/// The code an external outcome is written as.
pub open spec fn external_code(outcome: ExecutionOutcome) -> Seq<char> {
    match outcome {
        ExecutionOutcome::Succeeded => "S"@,
        ExecutionOutcome::Failed => "F"@,
    }
}

/// The fields of a journal record's payload.
pub open spec fn event_fields(event: JournalEvent) -> Seq<Seq<char>> {
    match event {
        JournalEvent::Binding { ticket, binding } => seq![
            "LJ1"@,
            "BIND"@,
            hex_text(ticket.action_id@),
            hex_text(ticket.source_bead@),
            mode_code(ticket.execution_mode),
            signed_decimal(ticket.issued_at@),
            hex_text(binding.key@),
            decimal(ticket.authority_proof_refs@.len()),
        ] + hex_fields(ticket.authority_proof_refs@),
        JournalEvent::Prepared(prepared) => seq![
            "LJ1"@,
            "PREP"@,
            hex_text(prepared.id.action_id@),
            decimal(prepared.id.ordinal as nat),
            signed_decimal(prepared.prepared_at@),
            decimal(prepared.authorization_proof_refs@.len()),
        ] + hex_fields(prepared.authorization_proof_refs@),
        JournalEvent::Dispatch { ordinal, dispatched_at, proof_ref } => seq![
            "LJ1"@,
            "DISP"@,
            decimal(ordinal as nat),
            signed_decimal(dispatched_at@),
            hex_text(proof_ref@),
        ],
        JournalEvent::Reconciliation { ordinal, observed_at, outcome, proof_ref } => seq![
            "LJ1"@,
            "RECON"@,
            decimal(ordinal as nat),
            signed_decimal(observed_at@),
            reconciliation_code(outcome),
            hex_text(proof_ref@),
        ],
        JournalEvent::External { ordinal, observed_at, outcome, proof_ref } => seq![
            "LJ1"@,
            "EXT"@,
            decimal(ordinal as nat),
            signed_decimal(observed_at@),
            external_code(outcome),
            hex_text(proof_ref@),
        ],
    }
}

/// The payload a journal record is written as.
pub open spec fn event_text(event: JournalEvent) -> Seq<char> {
    join_with(event_fields(event), "\t"@)
}

pub(crate) fn literal(s: &str) -> (r: String)
    ensures
        r@ == s@,
{
    String::from_str(s)
}

fn push_hex_fields(fields: &mut Vec<String>, texts: &Vec<String>)
    ensures
        texts_of(final(fields)@) == texts_of(old(fields)@) + hex_fields(texts@),
{
    let ghost start = texts_of(fields@);
    let mut i: usize = 0;
    while i < texts.len()
        invariant
            i <= texts@.len(),
            texts_of(fields@) == start + hex_fields(texts@.subrange(0, i as int)),
        decreases texts@.len() - i,
    {
        let ghost before = texts_of(fields@);
        fields.push(hex_encode(texts[i].as_str()));
        assert(texts_of(fields@) =~= before.push(hex_text(texts@[i as int]@)));
        assert(hex_fields(texts@.subrange(0, i + 1)) =~= hex_fields(texts@.subrange(0, i as int)).push(
            hex_text(texts@[i as int]@),
        ));
        i = i + 1;
    }
    assert(texts@.subrange(0, texts@.len() as int) =~= texts@);
}

fn reconciliation_code_text(outcome: ReconciliationOutcome) -> (r: String)
    ensures
        r@ == reconciliation_code(outcome),
{
    match outcome {
        ReconciliationOutcome::EffectSucceeded => literal("S"),
        ReconciliationOutcome::EffectFailed => literal("F"),
        ReconciliationOutcome::NoEffectConfirmed => literal("N"),
        ReconciliationOutcome::StillUnknown => literal("U"),
    }
}

fn external_code_text(outcome: ExecutionOutcome) -> (r: String)
    ensures
        r@ == external_code(outcome),
{
    match outcome {
        ExecutionOutcome::Succeeded => literal("S"),
        ExecutionOutcome::Failed => literal("F"),
    }
}

/// Writes the payload of a journal record.
pub fn encode_event(event: &JournalEvent) -> (r: String)
    ensures
        r@ == event_text(*event),
{
    let mut fields: Vec<String> = Vec::new();
    fields.push(literal("LJ1"));
    match event {
        JournalEvent::Binding { ticket, binding } => {
            fields.push(literal("BIND"));
            fields.push(hex_encode(ticket.action_id.as_str()));
            fields.push(hex_encode(ticket.source_bead.as_str()));
            fields.push(
                match ticket.execution_mode {
                    ExecutionMode::Automatic => literal("A"),
                    ExecutionMode::ApprovedManual => literal("M"),
                },
            );
            fields.push(i64_text(ticket.issued_at.epoch_seconds()));
            fields.push(hex_encode(binding.key.as_str()));
            fields.push(decimal_text(ticket.authority_proof_refs.len() as u64));
            let ghost head = texts_of(fields@);
            push_hex_fields(&mut fields, &ticket.authority_proof_refs);
            assert(head =~= seq![
                "LJ1"@,
                "BIND"@,
                hex_text(ticket.action_id@),
                hex_text(ticket.source_bead@),
                mode_code(ticket.execution_mode),
                signed_decimal(ticket.issued_at@),
                hex_text(binding.key@),
                decimal(ticket.authority_proof_refs@.len()),
            ]);
        },
        JournalEvent::Prepared(prepared) => {
            fields.push(literal("PREP"));
            fields.push(hex_encode(prepared.id.action_id.as_str()));
            fields.push(decimal_text(prepared.id.ordinal as u64));
            fields.push(i64_text(prepared.prepared_at.epoch_seconds()));
            fields.push(decimal_text(prepared.authorization_proof_refs.len() as u64));
            let ghost head = texts_of(fields@);
            push_hex_fields(&mut fields, &prepared.authorization_proof_refs);
            assert(head =~= seq![
                "LJ1"@,
                "PREP"@,
                hex_text(prepared.id.action_id@),
                decimal(prepared.id.ordinal as nat),
                signed_decimal(prepared.prepared_at@),
                decimal(prepared.authorization_proof_refs@.len()),
            ]);
        },
        JournalEvent::Dispatch { ordinal, dispatched_at, proof_ref } => {
            fields.push(literal("DISP"));
            fields.push(decimal_text(*ordinal as u64));
            fields.push(i64_text(dispatched_at.epoch_seconds()));
            fields.push(hex_encode(proof_ref.as_str()));
        },
        JournalEvent::Reconciliation { ordinal, observed_at, outcome, proof_ref } => {
            fields.push(literal("RECON"));
            fields.push(decimal_text(*ordinal as u64));
            fields.push(i64_text(observed_at.epoch_seconds()));
            fields.push(reconciliation_code_text(*outcome));
            fields.push(hex_encode(proof_ref.as_str()));
        },
        JournalEvent::External { ordinal, observed_at, outcome, proof_ref } => {
            fields.push(literal("EXT"));
            fields.push(decimal_text(*ordinal as u64));
            fields.push(i64_text(observed_at.epoch_seconds()));
            fields.push(external_code_text(*outcome));
            fields.push(hex_encode(proof_ref.as_str()));
        },
    }
    assert(texts_of(fields@) =~= event_fields(*event));
    join_texts(&fields, "\t")
}


/// The text a hex field holds, or why it cannot be read.
pub open spec fn text_field(f: Seq<char>) -> Result<Seq<char>, JournalError> {
    match unhex_text(encode_utf8(f)) {
        Ok(t) => Ok(t),
        Err(FieldError::InvalidHex) => Err(JournalError::InvalidHex),
        Err(FieldError::InvalidUtf8) => Err(JournalError::InvalidUtf8),
    }
}

/// The unsigned number a field holds, no larger than `limit`.
pub open spec fn number_field(f: Seq<char>, limit: int) -> Result<int, JournalError> {
    match unsigned_value(f) {
        Some(v) => if v <= limit {
            Ok(v)
        } else {
            Err(JournalError::InvalidNumber)
        },
        None => Err(JournalError::InvalidNumber),
    }
}

/// The timestamp seconds a field holds.
pub open spec fn time_field(f: Seq<char>) -> Result<int, JournalError> {
    match signed_value(f) {
        Some(v) => if i64::MIN <= v <= i64::MAX {
            Ok(v)
        } else {
            Err(JournalError::InvalidNumber)
        },
        None => Err(JournalError::InvalidNumber),
    }
}

/// The error of the first hex field that cannot be read.
pub open spec fn first_text_error(fields: Seq<Seq<char>>) -> Option<JournalError>
    decreases fields.len(),
{
    if fields.len() == 0 {
        None
    } else {
        match first_text_error(fields.drop_last()) {
            Some(e) => Some(e),
            None => match text_field(fields.last()) {
                Err(e) => Some(e),
                Ok(_) => None,
            },
        }
    }
}

/// `out` holds the texts the hex fields hold, in order.
pub open spec fn texts_decoded(out: Seq<String>, fields: Seq<Seq<char>>) -> bool {
    &&& out.len() == fields.len()
    &&& forall|k: int| 0 <= k < fields.len() ==> text_field(fields[k]) == Ok::<Seq<char>, JournalError>(
        (#[trigger] out[k])@,
    )
}

fn read_text(f: &String) -> (r: Result<String, JournalError>)
    ensures
        match r {
            Ok(t) => text_field(f@) == Ok::<Seq<char>, JournalError>(t@),
            Err(e) => text_field(f@) == Err::<Seq<char>, JournalError>(e),
        },
{
    match hex_decode(f.as_str()) {
        Ok(t) => Ok(t),
        Err(FieldError::InvalidHex) => Err(JournalError::InvalidHex),
        Err(FieldError::InvalidUtf8) => Err(JournalError::InvalidUtf8),
    }
}

fn read_number(f: &String, limit: u64) -> (r: Result<u64, JournalError>)
    ensures
        match r {
            Ok(v) => number_field(f@, limit as int) == Ok::<int, JournalError>(v as int),
            Err(e) => number_field(f@, limit as int) == Err::<int, JournalError>(e),
        },
{
    match parse_unsigned(f.as_str(), limit) {
        Some(v) => Ok(v),
        None => Err(JournalError::InvalidNumber),
    }
}

fn read_time(f: &String) -> (r: Result<Timestamp, JournalError>)
    ensures
        match r {
            Ok(t) => time_field(f@) == Ok::<int, JournalError>(t@),
            Err(e) => time_field(f@) == Err::<int, JournalError>(e),
        },
{
    match parse_i64(f.as_str()) {
        Some(v) => Ok(Timestamp::new(v)),
        None => Err(JournalError::InvalidNumber),
    }
}

fn read_texts(fields: &Vec<String>, from: usize) -> (r: Result<Vec<String>, JournalError>)
    requires
        from <= fields@.len(),
    ensures
        match r {
            Ok(out) => first_text_error(texts_of(fields@).subrange(from as int, fields@.len() as int))
                is None && texts_decoded(out@, texts_of(fields@).subrange(from as int, fields@.len() as int)),
            Err(e) => first_text_error(texts_of(fields@).subrange(from as int, fields@.len() as int))
                == Some(e),
        },
{
    let ghost all = texts_of(fields@);
    let mut out: Vec<String> = Vec::new();
    let mut i: usize = from;
    assert(all.subrange(from as int, from as int) =~= Seq::<Seq<char>>::empty());
    while i < fields.len()
        invariant
            all == texts_of(fields@),
            from <= i <= fields@.len(),
            first_text_error(all.subrange(from as int, i as int)) is None,
            texts_decoded(out@, all.subrange(from as int, i as int)),
        decreases fields@.len() - i,
    {
        let ghost next = all.subrange(from as int, i + 1);
        assert(next.drop_last() =~= all.subrange(from as int, i as int));
        assert(next.last() == fields@[i as int]@);
        match read_text(&fields[i]) {
            Ok(t) => {
                out.push(t);
            },
            Err(e) => {
                proof {
                    lemma_first_text_error_extends(all.subrange(from as int, fields@.len() as int), (i
                        - from) as int + 1);
                    assert(all.subrange(from as int, fields@.len() as int).subrange(0, (i - from) as int
                        + 1) =~= next);
                }
                return Err(e);
            },
        }
        i = i + 1;
    }
    Ok(out)
}

/// The first unreadable field of a prefix stays the first of the whole list.
proof fn lemma_first_text_error_extends(fields: Seq<Seq<char>>, k: int)
    requires
        0 <= k <= fields.len(),
        first_text_error(fields.subrange(0, k)) is Some,
    ensures
        first_text_error(fields) == first_text_error(fields.subrange(0, k)),
    decreases fields.len() - k,
{
    if k == fields.len() {
        assert(fields.subrange(0, k) =~= fields);
    } else {
        let t = fields.drop_last();
        assert(t.subrange(0, k) =~= fields.subrange(0, k));
        lemma_first_text_error_extends(t, k);
    }
}

/// The execution mode a code names.
pub open spec fn mode_of(code: Seq<char>) -> Option<ExecutionMode> {
    if code == "A"@ {
        Some(ExecutionMode::Automatic)
    } else if code == "M"@ {
        Some(ExecutionMode::ApprovedManual)
    } else {
        None
    }
}

/// The reconciliation outcome a code names.
pub open spec fn reconciliation_of(code: Seq<char>) -> Option<ReconciliationOutcome> {
    if code == "S"@ {
        Some(ReconciliationOutcome::EffectSucceeded)
    } else if code == "F"@ {
        Some(ReconciliationOutcome::EffectFailed)
    } else if code == "N"@ {
        Some(ReconciliationOutcome::NoEffectConfirmed)
    } else if code == "U"@ {
        Some(ReconciliationOutcome::StillUnknown)
    } else {
        None
    }
}

/// The external outcome a code names.
pub open spec fn external_of(code: Seq<char>) -> Option<ExecutionOutcome> {
    if code == "S"@ {
        Some(ExecutionOutcome::Succeeded)
    } else if code == "F"@ {
        Some(ExecutionOutcome::Failed)
    } else {
        None
    }
}

pub(crate) fn is_code(f: &String, code: &str) -> (b: bool)
    ensures
        b == (f@ == code@),
{
    same_text(f, &literal(code))
}

/// How the fields after the kind of a binding record decode.
pub open spec fn binding_decoded(rest: Seq<Seq<char>>, r: Result<JournalEvent, JournalError>) -> bool {
    if rest.len() < 6 {
        r == Err::<JournalEvent, JournalError>(JournalError::InvalidRecord)
    } else {
        match number_field(rest[5], usize::MAX as int) {
            Err(e) => r == Err::<JournalEvent, JournalError>(e),
            Ok(count) => if rest.len() != 6 + count {
                r == Err::<JournalEvent, JournalError>(JournalError::InvalidRecord)
            } else {
                match text_field(rest[0]) {
                    Err(e) => r == Err::<JournalEvent, JournalError>(e),
                    Ok(action) => if blank(action) {
                        r == Err::<JournalEvent, JournalError>(JournalError::InvalidActionId)
                    } else {
                        match text_field(rest[1]) {
                            Err(e) => r == Err::<JournalEvent, JournalError>(e),
                            Ok(bead) => match mode_of(rest[2]) {
                                None => r == Err::<JournalEvent, JournalError>(
                                    JournalError::InvalidExecutionMode,
                                ),
                                Some(mode) => match time_field(rest[3]) {
                                    Err(e) => r == Err::<JournalEvent, JournalError>(e),
                                    Ok(issued) => match text_field(rest[4]) {
                                        Err(e) => r == Err::<JournalEvent, JournalError>(e),
                                        Ok(key) => if blank(key) {
                                            r == Err::<JournalEvent, JournalError>(
                                                JournalError::EmptyIdempotencyKey,
                                            )
                                        } else {
                                            match first_text_error(rest.subrange(6, rest.len() as int)) {
                                                Some(e) => r == Err::<JournalEvent, JournalError>(e),
                                                None => r matches Ok(
                                                    JournalEvent::Binding { ticket, binding },
                                                ) && ticket.action_id@ == action
                                                    && ticket.source_bead@ == bead
                                                    && ticket.execution_mode == mode
                                                    && ticket.issued_at@ == issued && texts_decoded(
                                                    ticket.authority_proof_refs@,
                                                    rest.subrange(6, rest.len() as int),
                                                ) && binding.action_id == ticket.action_id
                                                    && binding.key@ == key,
                                            }
                                        },
                                    },
                                },
                            },
                        }
                    },
                }
            },
        }
    }
}

/// How the fields after the kind of a preparation record decode.
pub open spec fn prepared_decoded(rest: Seq<Seq<char>>, r: Result<JournalEvent, JournalError>) -> bool {
    if rest.len() < 4 {
        r == Err::<JournalEvent, JournalError>(JournalError::InvalidRecord)
    } else {
        match number_field(rest[3], usize::MAX as int) {
            Err(e) => r == Err::<JournalEvent, JournalError>(e),
            Ok(count) => if rest.len() != 4 + count {
                r == Err::<JournalEvent, JournalError>(JournalError::InvalidRecord)
            } else {
                match text_field(rest[0]) {
                    Err(e) => r == Err::<JournalEvent, JournalError>(e),
                    Ok(action) => if blank(action) {
                        r == Err::<JournalEvent, JournalError>(JournalError::InvalidActionId)
                    } else {
                        match first_text_error(rest.subrange(4, rest.len() as int)) {
                            Some(e) => r == Err::<JournalEvent, JournalError>(e),
                            None => match number_field(rest[1], u32::MAX as int) {
                                Err(e) => r == Err::<JournalEvent, JournalError>(e),
                                Ok(ordinal) => match time_field(rest[2]) {
                                    Err(e) => r == Err::<JournalEvent, JournalError>(e),
                                    Ok(prepared_at) => r matches Ok(JournalEvent::Prepared(prepared))
                                        && prepared.id.action_id@ == action && prepared.id.ordinal
                                        == ordinal && prepared.prepared_at@ == prepared_at
                                        && texts_decoded(
                                        prepared.authorization_proof_refs@,
                                        rest.subrange(4, rest.len() as int),
                                    ),
                                },
                            },
                        }
                    },
                }
            },
        }
    }
}

/// How the fields of a journal payload decode.
pub open spec fn event_decoded(fields: Seq<Seq<char>>, r: Result<JournalEvent, JournalError>) -> bool {
    if fields.len() < 1 || fields[0] != "LJ1"@ || fields.len() < 2 {
        r == Err::<JournalEvent, JournalError>(JournalError::InvalidRecord)
    } else {
        let kind = fields[1];
        let rest = fields.subrange(2, fields.len() as int);
        if kind == "BIND"@ {
            binding_decoded(rest, r)
        } else if kind == "PREP"@ {
            prepared_decoded(rest, r)
        } else if kind == "DISP"@ {
            if rest.len() != 3 {
                r == Err::<JournalEvent, JournalError>(JournalError::InvalidRecord)
            } else {
                match number_field(rest[0], u32::MAX as int) {
                    Err(e) => r == Err::<JournalEvent, JournalError>(e),
                    Ok(ordinal) => match time_field(rest[1]) {
                        Err(e) => r == Err::<JournalEvent, JournalError>(e),
                        Ok(at) => match text_field(rest[2]) {
                            Err(e) => r == Err::<JournalEvent, JournalError>(e),
                            Ok(proof) => r matches Ok(
                                JournalEvent::Dispatch { ordinal: o, dispatched_at: t, proof_ref: p },
                            ) && o == ordinal && t@ == at && p@ == proof,
                        },
                    },
                }
            }
        } else if kind == "RECON"@ {
            if rest.len() != 4 {
                r == Err::<JournalEvent, JournalError>(JournalError::InvalidRecord)
            } else {
                match number_field(rest[0], u32::MAX as int) {
                    Err(e) => r == Err::<JournalEvent, JournalError>(e),
                    Ok(ordinal) => match time_field(rest[1]) {
                        Err(e) => r == Err::<JournalEvent, JournalError>(e),
                        Ok(at) => match reconciliation_of(rest[2]) {
                            None => r == Err::<JournalEvent, JournalError>(
                                JournalError::InvalidReconciliationOutcome,
                            ),
                            Some(outcome) => match text_field(rest[3]) {
                                Err(e) => r == Err::<JournalEvent, JournalError>(e),
                                Ok(proof) => r matches Ok(
                                    JournalEvent::Reconciliation {
                                        ordinal: o,
                                        observed_at: t,
                                        outcome: c,
                                        proof_ref: p,
                                    },
                                ) && o == ordinal && t@ == at && c == outcome && p@ == proof,
                            },
                        },
                    },
                }
            }
        } else if kind == "EXT"@ {
            if rest.len() != 4 {
                r == Err::<JournalEvent, JournalError>(JournalError::InvalidRecord)
            } else {
                match number_field(rest[0], u32::MAX as int) {
                    Err(e) => r == Err::<JournalEvent, JournalError>(e),
                    Ok(ordinal) => match time_field(rest[1]) {
                        Err(e) => r == Err::<JournalEvent, JournalError>(e),
                        Ok(at) => match external_of(rest[2]) {
                            None => r == Err::<JournalEvent, JournalError>(
                                JournalError::InvalidExecutionOutcome,
                            ),
                            Some(outcome) => match text_field(rest[3]) {
                                Err(e) => r == Err::<JournalEvent, JournalError>(e),
                                Ok(proof) => r matches Ok(
                                    JournalEvent::External {
                                        ordinal: o,
                                        observed_at: t,
                                        outcome: c,
                                        proof_ref: p,
                                    },
                                ) && o == ordinal && t@ == at && c == outcome && p@ == proof,
                            },
                        },
                    },
                }
            }
        } else {
            r == Err::<JournalEvent, JournalError>(JournalError::InvalidRecord)
        }
    }
}


fn decode_binding(fields: &Vec<String>) -> (r: Result<JournalEvent, JournalError>)
    requires
        fields@.len() >= 2,
    ensures
        binding_decoded(texts_of(fields@).subrange(2, fields@.len() as int), r),
{
    let ghost rest = texts_of(fields@).subrange(2, fields@.len() as int);
    let n = fields.len();
    if n - 2 < 6 {
        return Err(JournalError::InvalidRecord);
    }
    assert(rest[5] == fields@[7]@);
    let count = read_number(&fields[7], usize::MAX as u64)?;
    if (n - 8) as u64 != count {
        return Err(JournalError::InvalidRecord);
    }
    assert(rest[0] == fields@[2]@);
    assert(rest[1] == fields@[3]@);
    assert(rest[2] == fields@[4]@);
    assert(rest[3] == fields@[5]@);
    assert(rest[4] == fields@[6]@);
    let action_raw = read_text(&fields[2])?;
    let action_id = match ActionId::new(action_raw.as_str()) {
        Ok(action_id) => action_id,
        Err(_) => return Err(JournalError::InvalidActionId),
    };
    let bead = read_text(&fields[3])?;
    let source_bead = BeadId::new(bead.as_str());
    let execution_mode = if is_code(&fields[4], "A") {
        ExecutionMode::Automatic
    } else if is_code(&fields[4], "M") {
        ExecutionMode::ApprovedManual
    } else {
        return Err(JournalError::InvalidExecutionMode);
    };
    let issued_at = read_time(&fields[5])?;
    let key = read_text(&fields[6])?;
    if is_blank(key.as_str()) {
        return Err(JournalError::EmptyIdempotencyKey);
    }
    let proofs = read_texts(fields, 8);
    assert(texts_of(fields@).subrange(8, fields@.len() as int) =~= rest.subrange(6, rest.len() as int));
    let proofs = proofs?;
    let ticket = AuthorityTicket {
        action_id: action_id.clone(),
        source_bead,
        execution_mode,
        authority_proof_refs: proofs,
        issued_at,
    };
    let binding = IdempotencyBinding { action_id, key };
    Ok(JournalEvent::Binding { ticket, binding })
}

fn decode_prepared(fields: &Vec<String>) -> (r: Result<JournalEvent, JournalError>)
    requires
        fields@.len() >= 2,
    ensures
        prepared_decoded(texts_of(fields@).subrange(2, fields@.len() as int), r),
{
    let ghost rest = texts_of(fields@).subrange(2, fields@.len() as int);
    let n = fields.len();
    if n - 2 < 4 {
        return Err(JournalError::InvalidRecord);
    }
    assert(rest[3] == fields@[5]@);
    let count = read_number(&fields[5], usize::MAX as u64)?;
    if (n - 6) as u64 != count {
        return Err(JournalError::InvalidRecord);
    }
    assert(rest[0] == fields@[2]@);
    assert(rest[1] == fields@[3]@);
    assert(rest[2] == fields@[4]@);
    let action_raw = read_text(&fields[2])?;
    let action_id = match ActionId::new(action_raw.as_str()) {
        Ok(action_id) => action_id,
        Err(_) => return Err(JournalError::InvalidActionId),
    };
    let proofs = read_texts(fields, 6);
    assert(texts_of(fields@).subrange(6, fields@.len() as int) =~= rest.subrange(4, rest.len() as int));
    let proofs = proofs?;
    let ordinal = read_number(&fields[3], u32::MAX as u64)?;
    let prepared_at = read_time(&fields[4])?;
    Ok(
        JournalEvent::Prepared(
            PreparedAttempt {
                id: AttemptId::new(action_id, ordinal as u32),
                prepared_at,
                authorization_proof_refs: proofs,
            },
        ),
    )
}

/// Reads a journal record from the fields of its payload.
pub fn decode_fields(fields: &Vec<String>) -> (r: Result<JournalEvent, JournalError>)
    ensures
        event_decoded(texts_of(fields@), r),
{
    let ghost all = texts_of(fields@);
    if fields.len() < 1 || !is_code(&fields[0], "LJ1") || fields.len() < 2 {
        return Err(JournalError::InvalidRecord);
    }
    assert(all[1] == fields@[1]@);
    let ghost rest = all.subrange(2, all.len() as int);
    if is_code(&fields[1], "BIND") {
        return decode_binding(fields);
    }
    if is_code(&fields[1], "PREP") {
        return decode_prepared(fields);
    }
    let n = fields.len();
    if is_code(&fields[1], "DISP") {
        if n - 2 != 3 {
            return Err(JournalError::InvalidRecord);
        }
        assert(rest[0] == fields@[2]@);
        assert(rest[1] == fields@[3]@);
        assert(rest[2] == fields@[4]@);
        let ordinal = read_number(&fields[2], u32::MAX as u64)?;
        let dispatched_at = read_time(&fields[3])?;
        let proof_ref = read_text(&fields[4])?;
        return Ok(JournalEvent::Dispatch { ordinal: ordinal as u32, dispatched_at, proof_ref });
    }
    if is_code(&fields[1], "RECON") {
        if n - 2 != 4 {
            return Err(JournalError::InvalidRecord);
        }
        assert(rest[0] == fields@[2]@);
        assert(rest[1] == fields@[3]@);
        assert(rest[2] == fields@[4]@);
        assert(rest[3] == fields@[5]@);
        let ordinal = read_number(&fields[2], u32::MAX as u64)?;
        let observed_at = read_time(&fields[3])?;
        let outcome = if is_code(&fields[4], "S") {
            ReconciliationOutcome::EffectSucceeded
        } else if is_code(&fields[4], "F") {
            ReconciliationOutcome::EffectFailed
        } else if is_code(&fields[4], "N") {
            ReconciliationOutcome::NoEffectConfirmed
        } else if is_code(&fields[4], "U") {
            ReconciliationOutcome::StillUnknown
        } else {
            return Err(JournalError::InvalidReconciliationOutcome);
        };
        let proof_ref = read_text(&fields[5])?;
        return Ok(
            JournalEvent::Reconciliation { ordinal: ordinal as u32, observed_at, outcome, proof_ref },
        );
    }
    if is_code(&fields[1], "EXT") {
        if n - 2 != 4 {
            return Err(JournalError::InvalidRecord);
        }
        assert(rest[0] == fields@[2]@);
        assert(rest[1] == fields@[3]@);
        assert(rest[2] == fields@[4]@);
        assert(rest[3] == fields@[5]@);
        let ordinal = read_number(&fields[2], u32::MAX as u64)?;
        let observed_at = read_time(&fields[3])?;
        let outcome = if is_code(&fields[4], "S") {
            ExecutionOutcome::Succeeded
        } else if is_code(&fields[4], "F") {
            ExecutionOutcome::Failed
        } else {
            return Err(JournalError::InvalidExecutionOutcome);
        };
        let proof_ref = read_text(&fields[5])?;
        return Ok(JournalEvent::External { ordinal: ordinal as u32, observed_at, outcome, proof_ref });
    }
    Err(JournalError::InvalidRecord)
}

/// Reads a journal record from its payload.
pub fn decode_event(payload: &str) -> (r: Result<JournalEvent, JournalError>)
    ensures
        event_decoded(split_char(payload@, '\t'), r),
{
    let fields = split_text(payload, '\t');
    decode_fields(&fields)
}


/// A journal event whose identity texts are not blank, as reading demands
/// of an action and an idempotency key.
pub open spec fn storable_journal_event(event: JournalEvent) -> bool {
    match event {
        JournalEvent::Binding { ticket, binding } => !blank(ticket.action_id@) && !blank(binding.key@)
            && ticket.authority_proof_refs@.len() <= usize::MAX,
        JournalEvent::Prepared(prepared) => !blank(prepared.id.action_id@)
            && prepared.authorization_proof_refs@.len() <= usize::MAX,
        _ => true,
    }
}

proof fn lemma_journal_hex(t: Seq<char>)
    ensures
        !hex_text(t).contains('\t'),
        text_field(hex_text(t)) == Ok::<Seq<char>, JournalError>(t),
{
    crate::codec::lemma_hex_chars(encode_utf8(t));
    crate::codec::lemma_hex_round_trip(t);
    if hex_text(t).contains('\t') {
        let k = choose|k: int| 0 <= k < hex_text(t).len() && hex_text(t)[k] == '\t';
        assert(crate::codec::hex_digit_char(hex_text(t)[k]));
    }
}

proof fn lemma_journal_number(n: nat, limit: int)
    requires
        n <= limit,
    ensures
        !decimal(n).contains('\t'),
        number_field(decimal(n), limit) == Ok::<int, JournalError>(n as int),
{
    crate::codec::lemma_decimal_round_trip(n);
    if decimal(n).contains('\t') {
        let k = choose|k: int| 0 <= k < decimal(n).len() && decimal(n)[k] == '\t';
        assert('0' <= decimal(n)[k] <= '9');
    }
}

proof fn lemma_journal_time(t: Timestamp)
    ensures
        !signed_decimal(t@).contains('\t'),
        time_field(signed_decimal(t@)) == Ok::<int, JournalError>(t@),
{
    Timestamp::lemma_view_range(t);
    crate::codec::lemma_signed_round_trip(t@);
    let f = signed_decimal(t@);
    if f.contains('\t') {
        let k = choose|k: int| 0 <= k < f.len() && f[k] == '\t';
        assert('0' <= f[k] <= '9' || f[k] == '-');
    }
}

/// Hex fields of texts are tab-free and all read back.
proof fn lemma_hex_fields_read(texts: Seq<String>)
    ensures
        tab_free(hex_fields(texts)),
        first_text_error(hex_fields(texts)) is None,
    decreases texts.len(),
{
    if texts.len() > 0 {
        lemma_hex_fields_read(texts.drop_last());
        assert(hex_fields(texts).drop_last() =~= hex_fields(texts.drop_last()));
        lemma_journal_hex(texts.last()@);
        assert forall|k: int| 0 <= k < hex_fields(texts).len() implies !(#[trigger] hex_fields(
            texts,
        )[k]).contains('\t') by {
            lemma_journal_hex(texts[k]@);
        }
    }
}

/// Texts read from hex fields are the texts written.
proof fn lemma_hex_fields_decoded(texts: Seq<String>, out: Seq<String>)
    requires
        texts_decoded(out, hex_fields(texts)),
    ensures
        hex_fields(out) == hex_fields(texts),
{
    assert forall|k: int| 0 <= k < texts.len() implies hex_fields(out)[k] == hex_fields(texts)[k] by {
        lemma_journal_hex(texts[k]@);
        assert(text_field(hex_fields(texts)[k]) == Ok::<Seq<char>, JournalError>((#[trigger] out[k])@));
    }
    assert(hex_fields(out) =~= hex_fields(texts));
}

proof fn lemma_journal_literals()
    ensures
        "\t"@ == seq!['\t'],
        tab_free(seq!["LJ1"@, "BIND"@, "PREP"@, "DISP"@, "RECON"@, "EXT"@]),
        tab_free(seq!["A"@, "M"@, "S"@, "F"@, "N"@, "U"@]),
        "BIND"@ != "PREP"@ && "BIND"@ != "DISP"@ && "BIND"@ != "RECON"@ && "BIND"@ != "EXT"@,
        "PREP"@ != "DISP"@ && "PREP"@ != "RECON"@ && "PREP"@ != "EXT"@,
        "DISP"@ != "RECON"@ && "DISP"@ != "EXT"@,
        "RECON"@ != "EXT"@,
        "A"@ != "M"@,
        "S"@ != "F"@ && "S"@ != "N"@ && "S"@ != "U"@,
        "F"@ != "N"@ && "F"@ != "U"@,
        "N"@ != "U"@,
{
    reveal_strlit("\t");
    reveal_strlit("LJ1");
    reveal_strlit("BIND");
    reveal_strlit("PREP");
    reveal_strlit("DISP");
    reveal_strlit("RECON");
    reveal_strlit("EXT");
    reveal_strlit("A");
    reveal_strlit("M");
    reveal_strlit("S");
    reveal_strlit("F");
    reveal_strlit("N");
    reveal_strlit("U");
    assert("\t"@ =~= seq!['\t']);
    assert("BIND"@[0] != "PREP"@[0]);
    assert("BIND"@[0] != "DISP"@[0]);
    assert("BIND"@[0] != "RECON"@[0]);
    assert("BIND"@[0] != "EXT"@[0]);
    assert("PREP"@[0] != "DISP"@[0]);
    assert("PREP"@[0] != "RECON"@[0]);
    assert("PREP"@[0] != "EXT"@[0]);
    assert("DISP"@[0] != "RECON"@[0]);
    assert("DISP"@[0] != "EXT"@[0]);
    assert("RECON"@[0] != "EXT"@[0]);
    assert("A"@[0] != "M"@[0]);
    assert("S"@[0] != "F"@[0]);
    assert("S"@[0] != "N"@[0]);
    assert("S"@[0] != "U"@[0]);
    assert("F"@[0] != "N"@[0]);
    assert("F"@[0] != "U"@[0]);
    assert("N"@[0] != "U"@[0]);
    let kinds = seq!["LJ1"@, "BIND"@, "PREP"@, "DISP"@, "RECON"@, "EXT"@];
    assert forall|j: int| 0 <= j < kinds.len() implies !(#[trigger] kinds[j]).contains('\t') by {
        if kinds[j].contains('\t') {
            let k = choose|k: int| 0 <= k < kinds[j].len() && kinds[j][k] == '\t';
            assert(kinds[j][k] != '\t');
        }
    }
    let codes = seq!["A"@, "M"@, "S"@, "F"@, "N"@, "U"@];
    assert forall|j: int| 0 <= j < codes.len() implies !(#[trigger] codes[j]).contains('\t') by {
        if codes[j].contains('\t') {
            let k = choose|k: int| 0 <= k < codes[j].len() && codes[j][k] == '\t';
            assert(codes[j][k] != '\t');
        }
    }
}

proof fn lemma_binding_event_reads_back(
    ticket: AuthorityTicket,
    binding: IdempotencyBinding,
    r: Result<JournalEvent, JournalError>,
)
    requires
        storable_journal_event(JournalEvent::Binding { ticket, binding }),
        event_decoded(event_fields(JournalEvent::Binding { ticket, binding }), r),
    ensures
        r is Ok,
        event_fields(r->Ok_0) == event_fields(JournalEvent::Binding { ticket, binding }),
{
    lemma_journal_literals();
    let refs = ticket.authority_proof_refs@;
    let fields = event_fields(JournalEvent::Binding { ticket, binding });
    let rest = fields.subrange(2, fields.len() as int);
    lemma_journal_hex(ticket.action_id@);
    lemma_journal_hex(ticket.source_bead@);
    lemma_journal_hex(binding.key@);
    lemma_journal_time(ticket.issued_at);
    lemma_journal_number(refs.len(), usize::MAX as int);
    lemma_hex_fields_read(refs);
    assert(rest.subrange(6, rest.len() as int) =~= hex_fields(refs));
    assert(rest[0] == hex_text(ticket.action_id@));
    assert(rest[1] == hex_text(ticket.source_bead@));
    assert(rest[2] == mode_code(ticket.execution_mode));
    assert(rest[3] == signed_decimal(ticket.issued_at@));
    assert(rest[4] == hex_text(binding.key@));
    assert(rest[5] == decimal(refs.len()));
    assert(mode_of(mode_code(ticket.execution_mode)) == Some(ticket.execution_mode));
    let read = r->Ok_0;
    if let JournalEvent::Binding { ticket: t, binding: b } = read {
        lemma_hex_fields_decoded(refs, t.authority_proof_refs@);
        assert(event_fields(read) =~= fields);
    }
}

proof fn lemma_prepared_event_reads_back(prepared: PreparedAttempt, r: Result<JournalEvent, JournalError>)
    requires
        storable_journal_event(JournalEvent::Prepared(prepared)),
        event_decoded(event_fields(JournalEvent::Prepared(prepared)), r),
    ensures
        r is Ok,
        event_fields(r->Ok_0) == event_fields(JournalEvent::Prepared(prepared)),
{
    lemma_journal_literals();
    let refs = prepared.authorization_proof_refs@;
    let fields = event_fields(JournalEvent::Prepared(prepared));
    let rest = fields.subrange(2, fields.len() as int);
    lemma_journal_hex(prepared.id.action_id@);
    lemma_journal_number(prepared.id.ordinal as nat, u32::MAX as int);
    lemma_journal_time(prepared.prepared_at);
    lemma_journal_number(refs.len(), usize::MAX as int);
    lemma_hex_fields_read(refs);
    assert(rest.subrange(4, rest.len() as int) =~= hex_fields(refs));
    assert(rest[0] == hex_text(prepared.id.action_id@));
    assert(rest[1] == decimal(prepared.id.ordinal as nat));
    assert(rest[2] == signed_decimal(prepared.prepared_at@));
    assert(rest[3] == decimal(refs.len()));
    let read = r->Ok_0;
    if let JournalEvent::Prepared(p) = read {
        lemma_hex_fields_decoded(refs, p.authorization_proof_refs@);
        assert(event_fields(read) =~= fields);
    }
}

proof fn lemma_outcome_event_reads_back(event: JournalEvent, r: Result<JournalEvent, JournalError>)
    requires
        !(event is Binding),
        !(event is Prepared),
        event_decoded(event_fields(event), r),
    ensures
        r is Ok,
        event_fields(r->Ok_0) == event_fields(event),
{
    lemma_journal_literals();
    let fields = event_fields(event);
    let rest = fields.subrange(2, fields.len() as int);
    match event {
        JournalEvent::Dispatch { ordinal, dispatched_at, proof_ref } => {
            lemma_journal_number(ordinal as nat, u32::MAX as int);
            lemma_journal_time(dispatched_at);
            lemma_journal_hex(proof_ref@);
            assert(rest[0] == decimal(ordinal as nat));
            assert(rest[1] == signed_decimal(dispatched_at@));
            assert(rest[2] == hex_text(proof_ref@));
        },
        JournalEvent::Reconciliation { ordinal, observed_at, outcome, proof_ref } => {
            lemma_journal_number(ordinal as nat, u32::MAX as int);
            lemma_journal_time(observed_at);
            lemma_journal_hex(proof_ref@);
            assert(rest[0] == decimal(ordinal as nat));
            assert(rest[1] == signed_decimal(observed_at@));
            assert(rest[2] == reconciliation_code(outcome));
            assert(rest[3] == hex_text(proof_ref@));
            assert(reconciliation_of(reconciliation_code(outcome)) == Some(outcome));
        },
        JournalEvent::External { ordinal, observed_at, outcome, proof_ref } => {
            lemma_journal_number(ordinal as nat, u32::MAX as int);
            lemma_journal_time(observed_at);
            lemma_journal_hex(proof_ref@);
            assert(rest[0] == decimal(ordinal as nat));
            assert(rest[1] == signed_decimal(observed_at@));
            assert(rest[2] == external_code(outcome));
            assert(rest[3] == hex_text(proof_ref@));
            assert(external_of(external_code(outcome)) == Some(outcome));
        },
        _ => {},
    }
}

proof fn lemma_binding_fields_tab_free(ticket: AuthorityTicket, binding: IdempotencyBinding)
    requires
        ticket.authority_proof_refs@.len() <= usize::MAX,
    ensures
        tab_free(event_fields(JournalEvent::Binding { ticket, binding })),
{
    lemma_journal_literals();
    let fields = event_fields(JournalEvent::Binding { ticket, binding });
    let kinds = seq!["LJ1"@, "BIND"@, "PREP"@, "DISP"@, "RECON"@, "EXT"@];
    let codes = seq!["A"@, "M"@, "S"@, "F"@, "N"@, "U"@];
    let refs = ticket.authority_proof_refs@;
    lemma_journal_hex(ticket.action_id@);
    lemma_journal_hex(ticket.source_bead@);
    lemma_journal_hex(binding.key@);
    lemma_journal_time(ticket.issued_at);
    lemma_journal_number(refs.len(), usize::MAX as int);
    lemma_hex_fields_read(refs);
    assert(!kinds[0].contains('\t'));
    assert(!kinds[1].contains('\t'));
    assert(!codes[0].contains('\t'));
    assert(!codes[1].contains('\t'));
    assert forall|k: int| 0 <= k < fields.len() implies !(#[trigger] fields[k]).contains('\t') by {
        if k >= 8 {
            assert(fields[k] == hex_fields(refs)[k - 8]);
        }
    }
}

proof fn lemma_prepared_fields_tab_free(prepared: PreparedAttempt)
    requires
        prepared.authorization_proof_refs@.len() <= usize::MAX,
    ensures
        tab_free(event_fields(JournalEvent::Prepared(prepared))),
{
    lemma_journal_literals();
    let fields = event_fields(JournalEvent::Prepared(prepared));
    let kinds = seq!["LJ1"@, "BIND"@, "PREP"@, "DISP"@, "RECON"@, "EXT"@];
    let refs = prepared.authorization_proof_refs@;
    lemma_journal_hex(prepared.id.action_id@);
    lemma_journal_number(prepared.id.ordinal as nat, u32::MAX as int);
    lemma_journal_time(prepared.prepared_at);
    lemma_journal_number(refs.len(), usize::MAX as int);
    lemma_hex_fields_read(refs);
    assert(!kinds[0].contains('\t'));
    assert(!kinds[2].contains('\t'));
    assert forall|k: int| 0 <= k < fields.len() implies !(#[trigger] fields[k]).contains('\t') by {
        if k >= 6 {
            assert(fields[k] == hex_fields(refs)[k - 6]);
        }
    }
}

proof fn lemma_outcome_fields_tab_free(event: JournalEvent)
    ensures
        !(event is Binding) && !(event is Prepared) ==> tab_free(event_fields(event)),
{
    lemma_journal_literals();
    let kinds = seq!["LJ1"@, "BIND"@, "PREP"@, "DISP"@, "RECON"@, "EXT"@];
    let codes = seq!["A"@, "M"@, "S"@, "F"@, "N"@, "U"@];
    assert(!kinds[0].contains('\t'));
    match event {
        JournalEvent::Dispatch { ordinal, dispatched_at, proof_ref } => {
            lemma_journal_number(ordinal as nat, u32::MAX as int);
            lemma_journal_time(dispatched_at);
            lemma_journal_hex(proof_ref@);
            assert(!kinds[3].contains('\t'));
        },
        JournalEvent::Reconciliation { ordinal, observed_at, outcome, proof_ref } => {
            lemma_journal_number(ordinal as nat, u32::MAX as int);
            lemma_journal_time(observed_at);
            lemma_journal_hex(proof_ref@);
            assert(!kinds[4].contains('\t'));
            assert(!codes[2].contains('\t'));
            assert(!codes[3].contains('\t'));
            assert(!codes[4].contains('\t'));
            assert(!codes[5].contains('\t'));
        },
        JournalEvent::External { ordinal, observed_at, outcome, proof_ref } => {
            lemma_journal_number(ordinal as nat, u32::MAX as int);
            lemma_journal_time(observed_at);
            lemma_journal_hex(proof_ref@);
            assert(!kinds[5].contains('\t'));
            assert(!codes[2].contains('\t'));
            assert(!codes[3].contains('\t'));
        },
        _ => {},
    }
}

/// Every journal event whose identity texts are not blank reads back from
/// its payload: reading succeeds, and the event read writes the same payload.
pub proof fn law_journal_event_reads_back(event: JournalEvent, r: Result<JournalEvent, JournalError>)
    requires
        storable_journal_event(event),
        event_decoded(split_char(event_text(event), '\t'), r),
    ensures
        r is Ok,
        event_text(r->Ok_0) == event_text(event),
{
    lemma_journal_literals();
    match event {
        JournalEvent::Binding { ticket, binding } => {
            lemma_binding_fields_tab_free(ticket, binding);
            crate::codec::lemma_split_join(event_fields(event), '\t');
            lemma_binding_event_reads_back(ticket, binding, r);
        },
        JournalEvent::Prepared(prepared) => {
            lemma_prepared_fields_tab_free(prepared);
            crate::codec::lemma_split_join(event_fields(event), '\t');
            lemma_prepared_event_reads_back(prepared, r);
        },
        _ => {
            lemma_outcome_fields_tab_free(event);
            crate::codec::lemma_split_join(event_fields(event), '\t');
            lemma_outcome_event_reads_back(event, r);
        },
    }
}

/// 64-bit FNV-1a over a byte sequence.
pub open spec fn fnv1a(bytes: Seq<u8>) -> u64
    decreases bytes.len(),
{
    if bytes.len() == 0 {
        0xcbf29ce484222325u64
    } else {
        (fnv1a(bytes.drop_last()) ^ (bytes.last() as u64)).wrapping_mul(0x100000001b3u64)
    }
}

/// The checksum of record `sequence` with `payload`: FNV-1a over the UTF-8
/// bytes of `sequence TAB payload`.
pub open spec fn record_checksum(sequence: u64, payload: Seq<char>) -> u64 {
    fnv1a(encode_utf8(decimal(sequence as nat) + "\t"@ + payload))
}

/// Computes the checksum of record `sequence` with `payload`.
pub fn checksum(sequence: u64, payload: &str) -> (h: u64)
    ensures
        h == record_checksum(sequence, payload@),
{
    let mut text = decimal_text(sequence);
    text.append("\t");
    text.append(payload);
    let bytes = text.as_str().as_bytes();
    let mut hash: u64 = 0xcbf29ce484222325;
    let mut i: usize = 0;
    while i < bytes.len()
        invariant
            i <= bytes@.len(),
            hash == fnv1a(bytes@.subrange(0, i as int)),
        decreases bytes@.len() - i,
    {
        let ghost next = bytes@.subrange(0, i + 1);
        assert(next.drop_last() =~= bytes@.subrange(0, i as int));
        hash = (hash ^ (bytes[i] as u64)).wrapping_mul(0x100000001b3);
        i = i + 1;
    }
    assert(bytes@.subrange(0, bytes@.len() as int) =~= bytes@);
    hash
}

/// The line a record is written as.
pub open spec fn record_line_text(sequence: u64, payload: Seq<char>) -> Seq<char> {
    decimal(sequence as nat) + "\t"@ + hex_fixed(record_checksum(sequence, payload) as nat, 16)
        + "\t"@ + payload + "\n"@
}

/// Writes record `sequence` with `payload` as one journal line.
pub fn record_line(sequence: u64, payload: &str) -> (s: String)
    ensures
        s@ == record_line_text(sequence, payload@),
{
    let mut line = decimal_text(sequence);
    line.append("\t");
    line.append(hex_fixed_text(checksum(sequence, payload), 16).as_str());
    line.append("\t");
    line.append(payload);
    line.append("\n");
    line
}

/// A line's sequence, checksum and payload parts: text up to the first tab,
/// up to the second tab, and the rest.
pub open spec fn line_parts(line: Seq<char>) -> (Seq<char>, Option<Seq<char>>, Option<Seq<char>>) {
    match first_index_of(line, '\t') {
        None => (line, None, None),
        Some(i) => {
            let rest = line.subrange(i + 1, line.len() as int);
            match first_index_of(rest, '\t') {
                None => (line.subrange(0, i), Some(rest), None),
                Some(j) => (
                    line.subrange(0, i),
                    Some(rest.subrange(0, j)),
                    Some(rest.subrange(j + 1, rest.len() as int)),
                ),
            }
        },
    }
}

/// How one journal line expected to carry record `expected` reads.
pub open spec fn line_parsed(line: Seq<char>, expected: u64, r: Result<JournalEvent, JournalError>) -> bool {
    let parts = line_parts(line);
    match number_field(parts.0, u64::MAX as int) {
        Err(e) => r == Err::<JournalEvent, JournalError>(e),
        Ok(sequence) => match parts.1 {
            None => r == Err::<JournalEvent, JournalError>(JournalError::InvalidRecord),
            Some(hex) => match parts.2 {
                None => r == Err::<JournalEvent, JournalError>(JournalError::InvalidRecord),
                Some(payload) => if sequence != expected {
                    r == Err::<JournalEvent, JournalError>(
                        JournalError::SequenceGap { expected, received: sequence as u64 },
                    )
                } else {
                    match hex_number(hex) {
                        None => r == Err::<JournalEvent, JournalError>(JournalError::InvalidRecord),
                        Some(v) => if v > u64::MAX {
                            r == Err::<JournalEvent, JournalError>(JournalError::InvalidRecord)
                        } else if v != record_checksum(expected, payload) {
                            r == Err::<JournalEvent, JournalError>(
                                JournalError::InvalidChecksum { sequence: expected },
                            )
                        } else {
                            event_decoded(split_char(payload, '\t'), r)
                        },
                    }
                },
            },
        },
    }
}

/// Reads one journal line expected to carry record `expected`.
pub fn parse_line(line: &str, expected: u64) -> (r: Result<JournalEvent, JournalError>)
    ensures
        line_parsed(line@, expected, r),
{
    let n = line.unicode_len();
    let first = find_char(line, '\t', 0);
    assert(line@.subrange(0, n as int) =~= line@);
    let first_end = match first {
        Some(i) => i,
        None => n,
    };
    let sequence_text = line.substring_char(0, first_end);
    let sequence = match parse_unsigned(sequence_text, u64::MAX) {
        Some(v) => v,
        None => return Err(JournalError::InvalidNumber),
    };
    let i = match first {
        Some(i) => i,
        None => return Err(JournalError::InvalidRecord),
    };
    let ghost rest = line@.subrange(i + 1, n as int);
    let second = find_char(line, '\t', i + 1);
    let j = match second {
        Some(j) => j,
        None => return Err(JournalError::InvalidRecord),
    };
    proof {
        assert(rest.subrange(0, j - (i + 1)) =~= line@.subrange(i + 1, j as int));
        assert(rest.subrange(j - (i + 1) + 1, rest.len() as int) =~= line@.subrange(j + 1, n as int));
    }
    let checksum_text = line.substring_char(i + 1, j);
    let payload = line.substring_char(j + 1, n);
    if sequence != expected {
        return Err(JournalError::SequenceGap { expected, received: sequence });
    }
    let recorded = match parse_hex_u64(checksum_text) {
        Some(v) => v,
        None => return Err(JournalError::InvalidRecord),
    };
    if recorded != checksum(sequence, payload) {
        return Err(JournalError::InvalidChecksum { sequence });
    }
    proof {
        let parts = line_parts(line@);
        assert(first_index_of(line@, '\t') == Some(i as int));
        assert(first_index_of(rest, '\t') == Some(j - (i + 1)));
        assert(parts.2 == Some(payload@));
        assert(parts.1 == Some(checksum_text@));
        assert(parts.0 == sequence_text@);
        assert(number_field(parts.0, u64::MAX as int) == Ok::<int, JournalError>(sequence as int));
        assert(hex_number(checksum_text@) == Some(recorded as int));
        assert(recorded == record_checksum(expected, payload@));
    }
    decode_event(payload)
}

/// The end of the last complete line: just past the last newline, or zero.
pub open spec fn complete_length(bytes: Seq<u8>) -> int
    decreases bytes.len(),
{
    if bytes.len() == 0 {
        0
    } else if bytes.last() == 10 {
        bytes.len() as int
    } else {
        complete_length(bytes.drop_last())
    }
}

/// The non-empty pieces, in order.
pub open spec fn nonempty_pieces(pieces: Seq<Seq<u8>>) -> Seq<Seq<u8>>
    decreases pieces.len(),
{
    if pieces.len() == 0 {
        Seq::empty()
    } else if pieces.last().len() == 0 {
        nonempty_pieces(pieces.drop_last())
    } else {
        nonempty_pieces(pieces.drop_last()).push(pieces.last())
    }
}

/// Line `k` reads as record `k`, giving `event`.
pub open spec fn record_reads(line: Seq<u8>, k: int, event: JournalEvent) -> bool {
    valid_utf8(line) && line_parsed(decode_utf8(line), k as u64, Ok::<JournalEvent, JournalError>(event))
}

/// Every line reads as the record with its position as sequence number.
pub open spec fn records_decoded(lines: Seq<Seq<u8>>, events: Seq<JournalEvent>) -> bool {
    &&& lines.len() == events.len()
    &&& forall|k: int| 0 <= k < lines.len() ==> #[trigger] record_reads(lines[k], k, events[k])
}

/// Line `j` reads as record `j`.
pub open spec fn reads_at(lines: Seq<Seq<u8>>, j: int) -> bool {
    exists|event: JournalEvent| #[trigger] record_reads(lines[j], j, event)
}

/// Line `k` is refused with `e`.
pub open spec fn refused_at(lines: Seq<Seq<u8>>, k: int, e: JournalError) -> bool {
    if !valid_utf8(lines[k]) {
        e == JournalError::InvalidUtf8
    } else {
        line_parsed(decode_utf8(lines[k]), k as u64, Err::<JournalEvent, JournalError>(e))
    }
}

/// The first line that does not read refuses the journal with `e`.
pub open spec fn records_refused(lines: Seq<Seq<u8>>, e: JournalError) -> bool {
    exists|k: int|
        0 <= k < lines.len() && (forall|j: int| 0 <= j < k ==> #[trigger] reads_at(lines, j))
            && #[trigger] refused_at(lines, k, e)
}

/// A journal file that does not read: it has no complete line, or one of
/// its lines is refused with `e`.
pub open spec fn parse_refused(bytes: Seq<u8>, e: JournalError) -> bool {
    if complete_length(bytes) == 0 {
        e == JournalError::EmptyJournal
    } else {
        exists|pieces: Seq<Seq<u8>>|
            #[trigger] file_lines(bytes, pieces) && records_refused(nonempty_pieces(pieces), e)
    }
}

/// The records of a journal file and how much of it is complete.
#[derive(Debug)]
pub struct ParsedRecords {
    pub events: Vec<JournalEvent>,
    pub next_sequence: u64,
    pub valid_len: usize,
    pub truncated_tail: bool,
}

/// The complete lines of a journal file split at newlines.
pub open spec fn file_lines(bytes: Seq<u8>, pieces: Seq<Seq<u8>>) -> bool {
    &&& join_bytes(pieces, 10) == bytes.subrange(0, complete_length(bytes))
    &&& forall|k: int| 0 <= k < pieces.len() ==> !(#[trigger] pieces[k]).contains(10u8)
}

proof fn lemma_complete_length(bytes: Seq<u8>)
    ensures
        0 <= complete_length(bytes) <= bytes.len(),
        complete_length(bytes) > 0 ==> bytes[complete_length(bytes) - 1] == 10,
        forall|i: int| complete_length(bytes) <= i < bytes.len() ==> bytes[i] != 10,
    decreases bytes.len(),
{
    if bytes.len() > 0 && bytes.last() != 10 {
        let t = bytes.drop_last();
        lemma_complete_length(t);
        assert(complete_length(bytes) == complete_length(t));
        assert forall|i: int| complete_length(bytes) <= i < bytes.len() implies bytes[i] != 10 by {
            if i < bytes.len() - 1 {
                assert(t[i] == bytes[i]);
            }
        }
    }
}

proof fn lemma_nonempty_prefix(all: Seq<Seq<u8>>, m: int)
    requires
        0 <= m <= all.len(),
    ensures
        nonempty_pieces(all.subrange(0, m)).len() <= nonempty_pieces(all).len(),
        nonempty_pieces(all).subrange(0, nonempty_pieces(all.subrange(0, m)).len() as int)
            == nonempty_pieces(all.subrange(0, m)),
    decreases all.len() - m,
{
    if m == all.len() {
        assert(all.subrange(0, m) =~= all);
        assert(nonempty_pieces(all).subrange(0, nonempty_pieces(all).len() as int) =~= nonempty_pieces(
            all,
        ));
    } else {
        let t = all.drop_last();
        assert(t.subrange(0, m) =~= all.subrange(0, m));
        lemma_nonempty_prefix(t, m);
        let pt = nonempty_pieces(t);
        let pm = nonempty_pieces(all.subrange(0, m));
        if all.last().len() == 0 {
        } else {
            assert(nonempty_pieces(all) == pt.push(all.last()));
            assert(pt.push(all.last()).subrange(0, pm.len() as int) =~= pt.subrange(0, pm.len() as int));
        }
    }
}

/// A refusal found among the first `m` pieces refuses the whole file.
proof fn lemma_refusal_persists(all: Seq<Seq<u8>>, m: int, e: JournalError)
    requires
        0 <= m <= all.len(),
        records_refused(nonempty_pieces(all.subrange(0, m)), e),
    ensures
        records_refused(nonempty_pieces(all), e),
{
    lemma_nonempty_prefix(all, m);
    let short = nonempty_pieces(all.subrange(0, m));
    let long = nonempty_pieces(all);
    let k = choose|k: int|
        0 <= k < short.len() && (forall|j: int| 0 <= j < k ==> #[trigger] reads_at(short, j))
            && #[trigger] refused_at(short, k, e);
    assert(long.subrange(0, short.len() as int) == short);
    assert(long[k] == short[k]);
    assert(refused_at(long, k, e));
    assert forall|j: int| 0 <= j < k implies #[trigger] reads_at(long, j) by {
        assert(long[j] == short[j]);
        assert(reads_at(short, j));
    }
}

/// Reads one complete line as record `expected`.
fn read_record(piece: &Vec<u8>, expected: u64) -> (r: Result<JournalEvent, JournalError>)
    ensures
        match r {
            Ok(event) => record_reads(piece@, expected as int, event),
            Err(e) => if !valid_utf8(piece@) {
                e == JournalError::InvalidUtf8
            } else {
                line_parsed(decode_utf8(piece@), expected, Err::<JournalEvent, JournalError>(e))
            },
        },
{
    let copy = piece.clone();
    assert(copy@ =~= piece@);
    let text = match utf8_string(copy) {
        Some(text) => text,
        None => return Err(JournalError::InvalidUtf8),
    };
    parse_line(text.as_str(), expected)
}

/// Reads the complete lines of a journal file. A final line without its
/// newline is an incomplete tail: it is left out and reported.
pub fn parse_records(bytes: &[u8]) -> (r: Result<ParsedRecords, JournalError>)
    ensures
        match r {
            Ok(parsed) => {
                &&& complete_length(bytes@) > 0
                &&& parsed.valid_len == complete_length(bytes@)
                &&& parsed.truncated_tail == (bytes@.last() != 10)
                &&& parsed.next_sequence == parsed.events@.len()
                &&& exists|pieces: Seq<Seq<u8>>|
                    #[trigger] file_lines(bytes@, pieces) && records_decoded(
                        nonempty_pieces(pieces),
                        parsed.events@,
                    )
            },
            Err(e) => parse_refused(bytes@, e),
        },
{
    proof {
        lemma_complete_length(bytes@);
    }
    let n = bytes.len();
    if n == 0 {
        return Err(JournalError::EmptyJournal);
    }
    let truncated_tail = bytes[n - 1] != 10;
    let mut k: usize = n;
    while k > 0 && bytes[k - 1] != 10
        invariant
            k <= n,
            n == bytes@.len(),
            forall|i: int| k <= i < n ==> bytes@[i] != 10 || !truncated_tail,
            truncated_tail == (bytes@[n - 1] != 10),
            0 <= complete_length(bytes@) <= n,
            complete_length(bytes@) > 0 ==> bytes@[complete_length(bytes@) - 1] == 10,
            forall|i: int| complete_length(bytes@) <= i < n ==> bytes@[i] != 10,
            truncated_tail ==> complete_length(bytes@) <= k,
            !truncated_tail ==> k == n,
        decreases k,
    {
        k = k - 1;
    }
    let valid_len = k;
    assert(valid_len == complete_length(bytes@));
    if valid_len == 0 {
        return Err(JournalError::EmptyJournal);
    }
    let pieces = split_bytes(bytes, valid_len, 10);
    let ghost all = bytes_of(pieces@);
    assert(file_lines(bytes@, all));
    let mut events: Vec<JournalEvent> = Vec::new();
    let mut i: usize = 0;
    let mut expected: u64 = 0;
    while i < pieces.len()
        invariant
            all == bytes_of(pieces@),
            file_lines(bytes@, all),
            complete_length(bytes@) > 0,
            i <= pieces@.len(),
            expected == events@.len(),
            records_decoded(nonempty_pieces(all.subrange(0, i as int)), events@),
            events@.len() <= i,
        decreases pieces@.len() - i,
    {
        let ghost prefix = all.subrange(0, i + 1);
        assert(prefix.drop_last() =~= all.subrange(0, i as int));
        assert(prefix.last() == pieces@[i as int]@);
        if pieces[i].len() == 0 {
            i = i + 1;
            continue;
        }
        let ghost lines_before = nonempty_pieces(all.subrange(0, i as int));
        let ghost line = pieces@[i as int]@;
        let ghost lines = lines_before.push(line);
        assert(nonempty_pieces(prefix) == lines);
        match read_record(&pieces[i], expected) {
            Ok(event) => {
                let ghost before = events@;
                events.push(event);
                proof {
                    assert forall|k: int| 0 <= k < events@.len() implies #[trigger] record_reads(
                        lines[k],
                        k,
                        events@[k],
                    ) by {
                        if k < before.len() {
                            assert(record_reads(lines_before[k], k, before[k]));
                            assert(lines[k] == lines_before[k]);
                        }
                    }
                }
            },
            Err(e) => {
                proof {
                    let k = lines_before.len() as int;
                    assert(lines[k] == line);
                    assert forall|j: int| 0 <= j < k implies #[trigger] reads_at(lines, j) by {
                        assert(record_reads(lines_before[j], j, events@[j]));
                        assert(lines[j] == lines_before[j]);
                    }
                    assert(refused_at(lines, k, e));
                    assert(records_refused(lines, e));
                    lemma_refusal_persists(all, i as int + 1, e);
                }
                return Err(e);
            },
        }
        expected = expected + 1;
        i = i + 1;
    }
    assert(all.subrange(0, all.len() as int) =~= all);
    Ok(ParsedRecords { events, next_sequence: expected, valid_len, truncated_tail })
}

} // verus!
