//! The text form in which the PostgreSQL store keeps a unified action record.
//!
//! A record is written as newline-separated lines of tab-separated fields,
//! each line starting with the format version `PGU1` and its kind: one
//! `BIND` line with the operation identity and revision, an optional `LEASE`
//! line, then one `ATT` line per prepared attempt, one `EVID` line per piece
//! of evidence and one `PROJ` line per projection marker. Texts are stored as
//! lower-case hex of their UTF-8 bytes, lists of texts as comma-separated hex,
//! numbers in decimal, and an absent dispatch as `-`.
use vstd::prelude::*;
use vstd::string::StrSliceExecFns;
use vstd::string::StringExecFns;
use vstd::utf8::encode_utf8;

use crate::codec::{
    lemma_decimal_round_trip, lemma_hex_chars, lemma_hex_round_trip,
    lemma_signed_round_trip, lemma_split_join, hex_digit_char,
    hex_decode, hex_encode, i64_text, join_texts, join_with, parse_i64,
    parse_unsigned, signed_decimal, signed_value, split_char, split_text, texts_of, unhex_text,
    unsigned_value, FieldError,
};
use crate::execution_receipt::ActionId;
use crate::journal_format::{hex_fields, hex_text};
use crate::postgres_unified_store::PostgresUnifiedStoreError;
use crate::primitives::Timestamp;
use crate::recovery_lease::{FencedAttemptPermit, RecoveryWorkerId};
use crate::text::{blank, decimal, decimal_text, text_is};
use crate::unified_fenced_store::{
    UnifiedActionRecord, UnifiedDispatchEvidence, UnifiedEffectEvidence, UnifiedEffectOutcome,
    UnifiedEvidenceSource, UnifiedLeaseAuthority, UnifiedOperationBinding, UnifiedPreparedAttempt,
    UnifiedProjectionMarker,
};

verus! {

/// Fields joined into one line.
pub open spec fn tab_line(fields: Seq<Seq<char>>) -> Seq<char> {
    join_with(fields, "\t"@)
}

/// The identity line of a record.
pub open spec fn bind_fields(binding: UnifiedOperationBinding, revision: u64) -> Seq<Seq<char>> {
    seq![
        "PGU1"@,
        "BIND"@,
        hex_text(binding.action_id@),
        hex_text(binding.idempotency_key@),
        hex_text(binding.operation_ref@),
        decimal(revision as nat),
    ]
}

/// The lease line of a record.
pub open spec fn lease_fields(lease: UnifiedLeaseAuthority) -> Seq<Seq<char>> {
    seq![
        "PGU1"@,
        "LEASE"@,
        hex_text(lease.owner@),
        decimal(lease.epoch as nat),
        decimal(lease.revision as nat),
        signed_decimal(lease.expires_at@),
    ]
}

/// A list of texts as comma-separated hex.
pub open spec fn proof_list(refs: Seq<String>) -> Seq<char> {
    join_with(hex_fields(refs), ","@)
}

/// The line of a prepared attempt.
pub open spec fn attempt_fields(attempt: UnifiedPreparedAttempt) -> Seq<Seq<char>> {
    seq![
        "PGU1"@,
        "ATT"@,
        hex_text(attempt.permit.owner@),
        decimal(attempt.permit.fencing_epoch as nat),
        decimal(attempt.permit.attempt_ordinal as nat),
        signed_decimal(attempt.prepared_at@),
        proof_list(attempt.authorization_proof_refs@),
        match attempt.dispatch {
            Some(d) => signed_decimal(d.dispatched_at@),
            None => "-"@,
        },
        match attempt.dispatch {
            Some(d) => hex_text(d.proof_ref@),
            None => "-"@,
        },
    ]
}

/// The code an effect outcome is written as.
pub open spec fn effect_code(outcome: UnifiedEffectOutcome) -> Seq<char> {
    match outcome {
        UnifiedEffectOutcome::EffectSucceeded => "S"@,
        UnifiedEffectOutcome::EffectFailed => "F"@,
        UnifiedEffectOutcome::NoEffectConfirmed => "N"@,
        UnifiedEffectOutcome::StillUnknown => "U"@,
        UnifiedEffectOutcome::IdentityConflict => "I"@,
    }
}

/// The code an evidence source is written as.
pub open spec fn source_code(source: UnifiedEvidenceSource) -> Seq<char> {
    match source {
        UnifiedEvidenceSource::ActuatorReceipt => "A"@,
        UnifiedEvidenceSource::Reconciliation => "R"@,
    }
}

/// The line of a piece of evidence.
pub open spec fn evidence_fields(evidence: UnifiedEffectEvidence) -> Seq<Seq<char>> {
    seq![
        "PGU1"@,
        "EVID"@,
        decimal(evidence.attempt_ordinal as nat),
        signed_decimal(evidence.observed_at@),
        effect_code(evidence.outcome),
        source_code(evidence.source),
        hex_text(evidence.proof_ref@),
    ]
}

/// The line of a projection marker.
pub open spec fn projection_fields(projection: UnifiedProjectionMarker) -> Seq<Seq<char>> {
    seq![
        "PGU1"@,
        "PROJ"@,
        decimal(projection.attempt_ordinal as nat),
        signed_decimal(projection.projected_at@),
        hex_text(projection.proof_ref@),
    ]
}

/// The lines a record is written as, in order.
pub open spec fn record_lines(record: UnifiedActionRecord) -> Seq<Seq<char>> {
    seq![tab_line(bind_fields(record.binding, record.revision))] + match record.lease {
        Some(lease) => seq![tab_line(lease_fields(lease))],
        None => Seq::empty(),
    } + Seq::new(record.attempts@.len(), |i: int| tab_line(attempt_fields(record.attempts@[i])))
        + Seq::new(record.evidence@.len(), |i: int| tab_line(evidence_fields(record.evidence@[i])))
        + Seq::new(
        record.projections@.len(),
        |i: int| tab_line(projection_fields(record.projections@[i])),
    )
}

/// The text a record is written as.
pub open spec fn record_text(record: UnifiedActionRecord) -> Seq<char> {
    join_with(record_lines(record), "\n"@)
}

fn literal(s: &str) -> (r: String)
    ensures
        r@ == s@,
{
    String::from_str(s)
}

fn tab_join(fields: &Vec<String>) -> (r: String)
    ensures
        r@ == tab_line(texts_of(fields@)),
{
    join_texts(fields, "\t")
}

fn encode_proof_list(refs: &Vec<String>) -> (r: String)
    ensures
        r@ == proof_list(refs@),
{
    let mut hexes: Vec<String> = Vec::new();
    let mut i: usize = 0;
    while i < refs.len()
        invariant
            i <= refs@.len(),
            texts_of(hexes@) == hex_fields(refs@.subrange(0, i as int)),
        decreases refs@.len() - i,
    {
        let ghost before = texts_of(hexes@);
        hexes.push(hex_encode(refs[i].as_str()));
        assert(texts_of(hexes@) =~= before.push(hex_text(refs@[i as int]@)));
        assert(hex_fields(refs@.subrange(0, i + 1)) =~= hex_fields(refs@.subrange(0, i as int)).push(
            hex_text(refs@[i as int]@),
        ));
        i = i + 1;
    }
    assert(refs@.subrange(0, refs@.len() as int) =~= refs@);
    join_texts(&hexes, ",")
}

fn bind_line(binding: &UnifiedOperationBinding, revision: u64) -> (r: String)
    ensures
        r@ == tab_line(bind_fields(*binding, revision)),
{
    let mut fields: Vec<String> = Vec::new();
    fields.push(literal("PGU1"));
    fields.push(literal("BIND"));
    fields.push(hex_encode(binding.action_id.as_str()));
    fields.push(hex_encode(binding.idempotency_key.as_str()));
    fields.push(hex_encode(binding.operation_ref.as_str()));
    fields.push(decimal_text(revision));
    assert(texts_of(fields@) =~= bind_fields(*binding, revision));
    tab_join(&fields)
}

fn lease_line(lease: &UnifiedLeaseAuthority) -> (r: String)
    ensures
        r@ == tab_line(lease_fields(*lease)),
{
    let mut fields: Vec<String> = Vec::new();
    fields.push(literal("PGU1"));
    fields.push(literal("LEASE"));
    fields.push(hex_encode(lease.owner.as_str()));
    fields.push(decimal_text(lease.epoch));
    fields.push(decimal_text(lease.revision));
    fields.push(i64_text(lease.expires_at.epoch_seconds()));
    assert(texts_of(fields@) =~= lease_fields(*lease));
    tab_join(&fields)
}

fn attempt_line(attempt: &UnifiedPreparedAttempt) -> (r: String)
    ensures
        r@ == tab_line(attempt_fields(*attempt)),
{
    let mut fields: Vec<String> = Vec::new();
    fields.push(literal("PGU1"));
    fields.push(literal("ATT"));
    fields.push(hex_encode(attempt.permit.owner.as_str()));
    fields.push(decimal_text(attempt.permit.fencing_epoch));
    fields.push(decimal_text(attempt.permit.attempt_ordinal as u64));
    fields.push(i64_text(attempt.prepared_at.epoch_seconds()));
    fields.push(encode_proof_list(&attempt.authorization_proof_refs));
    match &attempt.dispatch {
        Some(d) => {
            fields.push(i64_text(d.dispatched_at.epoch_seconds()));
            fields.push(hex_encode(d.proof_ref.as_str()));
        },
        None => {
            fields.push(literal("-"));
            fields.push(literal("-"));
        },
    }
    assert(texts_of(fields@) =~= attempt_fields(*attempt));
    tab_join(&fields)
}

fn effect_code_text(outcome: UnifiedEffectOutcome) -> (r: String)
    ensures
        r@ == effect_code(outcome),
{
    match outcome {
        UnifiedEffectOutcome::EffectSucceeded => literal("S"),
        UnifiedEffectOutcome::EffectFailed => literal("F"),
        UnifiedEffectOutcome::NoEffectConfirmed => literal("N"),
        UnifiedEffectOutcome::StillUnknown => literal("U"),
        UnifiedEffectOutcome::IdentityConflict => literal("I"),
    }
}

fn source_code_text(source: UnifiedEvidenceSource) -> (r: String)
    ensures
        r@ == source_code(source),
{
    match source {
        UnifiedEvidenceSource::ActuatorReceipt => literal("A"),
        UnifiedEvidenceSource::Reconciliation => literal("R"),
    }
}

fn evidence_line(evidence: &UnifiedEffectEvidence) -> (r: String)
    ensures
        r@ == tab_line(evidence_fields(*evidence)),
{
    let mut fields: Vec<String> = Vec::new();
    fields.push(literal("PGU1"));
    fields.push(literal("EVID"));
    fields.push(decimal_text(evidence.attempt_ordinal as u64));
    fields.push(i64_text(evidence.observed_at.epoch_seconds()));
    fields.push(effect_code_text(evidence.outcome));
    fields.push(source_code_text(evidence.source));
    fields.push(hex_encode(evidence.proof_ref.as_str()));
    assert(texts_of(fields@) =~= evidence_fields(*evidence));
    tab_join(&fields)
}

fn projection_line(projection: &UnifiedProjectionMarker) -> (r: String)
    ensures
        r@ == tab_line(projection_fields(*projection)),
{
    let mut fields: Vec<String> = Vec::new();
    fields.push(literal("PGU1"));
    fields.push(literal("PROJ"));
    fields.push(decimal_text(projection.attempt_ordinal as u64));
    fields.push(i64_text(projection.projected_at.epoch_seconds()));
    fields.push(hex_encode(projection.proof_ref.as_str()));
    assert(texts_of(fields@) =~= projection_fields(*projection));
    tab_join(&fields)
}

/// Writes a record in the store's text form.
///
/// Every record the library holds names its action, its lease owner and the
/// owner of each attempt: identities are never blank.
pub fn encode_record(record: &UnifiedActionRecord) -> (r: String)
    ensures
        r@ == record_text(*record),
        identities_named(*record),
{
    proof {
        use_type_invariant(&record.binding.action_id);
    }
    let mut lines: Vec<String> = Vec::new();
    lines.push(bind_line(&record.binding, record.revision));
    match &record.lease {
        Some(lease) => {
            proof {
                use_type_invariant(&lease.owner);
            }
            lines.push(lease_line(lease));
        },
        None => {},
    }
    let ghost head = texts_of(lines@);
    let mut i: usize = 0;
    while i < record.attempts.len()
        invariant
            i <= record.attempts@.len(),
            texts_of(lines@) == head + Seq::new(
                i as nat,
                |j: int| tab_line(attempt_fields(record.attempts@[j])),
            ),
            !blank(record.binding.action_id@),
            record.lease is Some ==> !blank(record.lease->0.owner@),
            forall|j: int| 0 <= j < i ==> !blank(#[trigger] record.attempts@[j].permit.owner@),
        decreases record.attempts@.len() - i,
    {
        let ghost before = texts_of(lines@);
        let attempt = &record.attempts[i];
        proof {
            use_type_invariant(&attempt.permit.owner);
        }
        lines.push(attempt_line(attempt));
        assert(texts_of(lines@) =~= before.push(tab_line(attempt_fields(record.attempts@[i as int]))));
        assert(head + Seq::new((i + 1) as nat, |j: int| tab_line(attempt_fields(record.attempts@[j])))
            =~= (head + Seq::new(i as nat, |j: int| tab_line(attempt_fields(record.attempts@[j])))).push(
            tab_line(attempt_fields(record.attempts@[i as int])),
        ));
        i = i + 1;
    }
    let ghost head2 = texts_of(lines@);
    let mut i: usize = 0;
    while i < record.evidence.len()
        invariant
            i <= record.evidence@.len(),
            texts_of(lines@) == head2 + Seq::new(
                i as nat,
                |j: int| tab_line(evidence_fields(record.evidence@[j])),
            ),
        decreases record.evidence@.len() - i,
    {
        let ghost before = texts_of(lines@);
        lines.push(evidence_line(&record.evidence[i]));
        assert(texts_of(lines@) =~= before.push(tab_line(evidence_fields(record.evidence@[i as int]))));
        assert(head2 + Seq::new((i + 1) as nat, |j: int| tab_line(evidence_fields(record.evidence@[j])))
            =~= (head2 + Seq::new(i as nat, |j: int| tab_line(evidence_fields(record.evidence@[j])))).push(
            tab_line(evidence_fields(record.evidence@[i as int])),
        ));
        i = i + 1;
    }
    let ghost head3 = texts_of(lines@);
    let mut i: usize = 0;
    while i < record.projections.len()
        invariant
            i <= record.projections@.len(),
            texts_of(lines@) == head3 + Seq::new(
                i as nat,
                |j: int| tab_line(projection_fields(record.projections@[j])),
            ),
        decreases record.projections@.len() - i,
    {
        let ghost before = texts_of(lines@);
        lines.push(projection_line(&record.projections[i]));
        assert(texts_of(lines@) =~= before.push(
            tab_line(projection_fields(record.projections@[i as int])),
        ));
        assert(head3 + Seq::new(
            (i + 1) as nat,
            |j: int| tab_line(projection_fields(record.projections@[j])),
        ) =~= (head3 + Seq::new(
            i as nat,
            |j: int| tab_line(projection_fields(record.projections@[j])),
        )).push(tab_line(projection_fields(record.projections@[i as int]))));
        i = i + 1;
    }
    assert(texts_of(lines@) =~= record_lines(*record));
    join_texts(&lines, "\n")
}

/// A line without the carriage return that ended it.
pub open spec fn strip_cr(t: Seq<char>) -> Seq<char> {
    if t.len() > 0 && t.last() == '\r' {
        t.drop_last()
    } else {
        t
    }
}

/// The lines of a text as `str::lines` gives them: split at newlines, without
/// an empty piece after a final newline, and without the carriage return
/// before a newline.
pub open spec fn payload_lines(payload: Seq<char>) -> Seq<Seq<char>> {
    let pieces = split_char(payload, '\n');
    let kept = if pieces.last().len() == 0 {
        pieces.drop_last()
    } else {
        pieces
    };
    Seq::new(
        kept.len(),
        |i: int|
            if i + 1 < pieces.len() {
                strip_cr(kept[i])
            } else {
                kept[i]
            },
    )
}

/// The tab-separated fields of line `k`.
pub open spec fn line_fields(lines: Seq<Seq<char>>, k: int) -> Seq<Seq<char>> {
    split_char(lines[k], '\t')
}

/// The text a hex field holds.
pub open spec fn store_text(f: Seq<char>) -> Result<Seq<char>, PostgresUnifiedStoreError> {
    match unhex_text(encode_utf8(f)) {
        Ok(t) => Ok(t),
        Err(FieldError::InvalidHex) => Err(PostgresUnifiedStoreError::InvalidHex),
        Err(FieldError::InvalidUtf8) => Err(PostgresUnifiedStoreError::InvalidUtf8),
    }
}

/// The unsigned number a field holds, no larger than `limit`.
pub open spec fn store_number(f: Seq<char>, limit: int) -> Result<int, PostgresUnifiedStoreError> {
    match unsigned_value(f) {
        Some(v) => if v <= limit {
            Ok(v)
        } else {
            Err(PostgresUnifiedStoreError::InvalidNumber)
        },
        None => Err(PostgresUnifiedStoreError::InvalidNumber),
    }
}

/// The seconds a time field holds.
pub open spec fn store_time(f: Seq<char>) -> Result<int, PostgresUnifiedStoreError> {
    match signed_value(f) {
        Some(v) => if i64::MIN <= v <= i64::MAX {
            Ok(v)
        } else {
            Err(PostgresUnifiedStoreError::InvalidNumber)
        },
        None => Err(PostgresUnifiedStoreError::InvalidNumber),
    }
}

/// The texts of hex fields, or the error of the first that cannot be read.
pub open spec fn store_texts(fields: Seq<Seq<char>>) -> Result<Seq<Seq<char>>, PostgresUnifiedStoreError>
    decreases fields.len(),
{
    if fields.len() == 0 {
        Ok(Seq::empty())
    } else {
        match store_texts(fields.drop_last()) {
            Err(e) => Err(e),
            Ok(prefix) => match store_text(fields.last()) {
                Err(e) => Err(e),
                Ok(t) => Ok(prefix.push(t)),
            },
        }
    }
}

/// The texts of a comma-separated hex list; an empty field is an empty list.
pub open spec fn store_list(f: Seq<char>) -> Result<Seq<Seq<char>>, PostgresUnifiedStoreError> {
    if f.len() == 0 {
        Ok(Seq::empty())
    } else {
        store_texts(split_char(f, ','))
    }
}

/// The action, key, operation and revision of an identity line.
pub open spec fn bind_read(fields: Seq<Seq<char>>) -> Result<
    (Seq<char>, Seq<char>, Seq<char>, int),
    PostgresUnifiedStoreError,
> {
    if fields.len() != 6 || fields[0] != "PGU1"@ || fields[1] != "BIND"@ {
        Err(PostgresUnifiedStoreError::InvalidRecord)
    } else {
        match store_text(fields[2]) {
            Err(e) => Err(e),
            Ok(action) => if blank(action) {
                Err(PostgresUnifiedStoreError::InvalidActionId)
            } else {
                match store_text(fields[3]) {
                    Err(e) => Err(e),
                    Ok(key) => match store_text(fields[4]) {
                        Err(e) => Err(e),
                        Ok(operation) => match store_number(fields[5], u64::MAX as int) {
                            Err(e) => Err(e),
                            Ok(revision) => Ok((action, key, operation, revision)),
                        },
                    },
                }
            },
        }
    }
}

/// The owner text of a worker field.
pub open spec fn store_worker(f: Seq<char>) -> Result<Seq<char>, PostgresUnifiedStoreError> {
    match store_text(f) {
        Err(e) => Err(e),
        Ok(owner) => if blank(owner) {
            Err(PostgresUnifiedStoreError::InvalidWorkerId)
        } else {
            Ok(owner)
        },
    }
}

/// The owner, epoch, revision and expiry of a lease line.
pub open spec fn lease_read(fields: Seq<Seq<char>>) -> Result<
    (Seq<char>, int, int, int),
    PostgresUnifiedStoreError,
> {
    match store_worker(fields[2]) {
        Err(e) => Err(e),
        Ok(owner) => match store_number(fields[3], u64::MAX as int) {
            Err(e) => Err(e),
            Ok(epoch) => match store_number(fields[4], u64::MAX as int) {
                Err(e) => Err(e),
                Ok(revision) => match store_time(fields[5]) {
                    Err(e) => Err(e),
                    Ok(expires) => Ok((owner, epoch, revision, expires)),
                },
            },
        },
    }
}

/// The dispatch of an attempt line: none when both its fields are `-`.
pub open spec fn dispatch_read(at: Seq<char>, proof: Seq<char>) -> Result<
    Option<(int, Seq<char>)>,
    PostgresUnifiedStoreError,
> {
    if at == "-"@ && proof == "-"@ {
        Ok(None)
    } else {
        match store_time(at) {
            Err(e) => Err(e),
            Ok(t) => match store_text(proof) {
                Err(e) => Err(e),
                Ok(p) => Ok(Some((t, p))),
            },
        }
    }
}

/// The owner, epoch, ordinal, preparation time, proofs and dispatch of an
/// attempt line; the dispatch fields are read first.
pub open spec fn attempt_read(fields: Seq<Seq<char>>) -> Result<
    (Seq<char>, int, int, int, Seq<Seq<char>>, Option<(int, Seq<char>)>),
    PostgresUnifiedStoreError,
> {
    match dispatch_read(fields[7], fields[8]) {
        Err(e) => Err(e),
        Ok(dispatch) => match store_worker(fields[2]) {
            Err(e) => Err(e),
            Ok(owner) => match store_number(fields[3], u64::MAX as int) {
                Err(e) => Err(e),
                Ok(epoch) => match store_number(fields[4], u32::MAX as int) {
                    Err(e) => Err(e),
                    Ok(ordinal) => match store_time(fields[5]) {
                        Err(e) => Err(e),
                        Ok(prepared) => match store_list(fields[6]) {
                            Err(e) => Err(e),
                            Ok(proofs) => Ok((owner, epoch, ordinal, prepared, proofs, dispatch)),
                        },
                    },
                },
            },
        },
    }
}

/// The effect outcome a code names.
pub open spec fn effect_of(code: Seq<char>) -> Option<UnifiedEffectOutcome> {
    if code == "S"@ {
        Some(UnifiedEffectOutcome::EffectSucceeded)
    } else if code == "F"@ {
        Some(UnifiedEffectOutcome::EffectFailed)
    } else if code == "N"@ {
        Some(UnifiedEffectOutcome::NoEffectConfirmed)
    } else if code == "U"@ {
        Some(UnifiedEffectOutcome::StillUnknown)
    } else if code == "I"@ {
        Some(UnifiedEffectOutcome::IdentityConflict)
    } else {
        None
    }
}

/// The evidence source a code names.
pub open spec fn source_of(code: Seq<char>) -> Option<UnifiedEvidenceSource> {
    if code == "A"@ {
        Some(UnifiedEvidenceSource::ActuatorReceipt)
    } else if code == "R"@ {
        Some(UnifiedEvidenceSource::Reconciliation)
    } else {
        None
    }
}

/// The ordinal, time, outcome, source and proof of an evidence line.
pub open spec fn evidence_read(fields: Seq<Seq<char>>) -> Result<
    (int, int, UnifiedEffectOutcome, UnifiedEvidenceSource, Seq<char>),
    PostgresUnifiedStoreError,
> {
    match store_number(fields[2], u32::MAX as int) {
        Err(e) => Err(e),
        Ok(ordinal) => match store_time(fields[3]) {
            Err(e) => Err(e),
            Ok(observed) => match effect_of(fields[4]) {
                None => Err(PostgresUnifiedStoreError::InvalidRecord),
                Some(outcome) => match source_of(fields[5]) {
                    None => Err(PostgresUnifiedStoreError::InvalidRecord),
                    Some(source) => match store_text(fields[6]) {
                        Err(e) => Err(e),
                        Ok(proof) => Ok((ordinal, observed, outcome, source, proof)),
                    },
                },
            },
        },
    }
}

/// The ordinal, time and proof of a projection line.
pub open spec fn projection_read(fields: Seq<Seq<char>>) -> Result<
    (int, int, Seq<char>),
    PostgresUnifiedStoreError,
> {
    match store_number(fields[2], u32::MAX as int) {
        Err(e) => Err(e),
        Ok(ordinal) => match store_time(fields[3]) {
            Err(e) => Err(e),
            Ok(projected) => match store_text(fields[4]) {
                Err(e) => Err(e),
                Ok(proof) => Ok((ordinal, projected, proof)),
            },
        },
    }
}

/// A line of the given kind with the given number of fields.
pub open spec fn line_kind(fields: Seq<Seq<char>>, kind: Seq<char>, count: int) -> bool {
    fields.len() == count && fields[0] == "PGU1"@ && fields[1] == kind
}

pub open spec fn is_lease_line(fields: Seq<Seq<char>>) -> bool {
    line_kind(fields, "LEASE"@, 6)
}

pub open spec fn is_attempt_line(fields: Seq<Seq<char>>) -> bool {
    line_kind(fields, "ATT"@, 9)
}

pub open spec fn is_evidence_line(fields: Seq<Seq<char>>) -> bool {
    line_kind(fields, "EVID"@, 7)
}

pub open spec fn is_projection_line(fields: Seq<Seq<char>>) -> bool {
    line_kind(fields, "PROJ"@, 5)
}

/// The error of a result, if any.
pub open spec fn error_of<T>(r: Result<T, PostgresUnifiedStoreError>) -> Option<PostgresUnifiedStoreError> {
    match r {
        Ok(_) => None,
        Err(e) => Some(e),
    }
}

/// Why a line after the identity line cannot be read, given whether a lease
/// line came before it.
pub open spec fn item_error(fields: Seq<Seq<char>>, lease_before: bool) -> Option<PostgresUnifiedStoreError> {
    if fields.len() < 2 || fields[0] != "PGU1"@ {
        Some(PostgresUnifiedStoreError::InvalidRecord)
    } else if is_lease_line(fields) {
        if lease_before {
            Some(PostgresUnifiedStoreError::InvalidRecord)
        } else {
            error_of(lease_read(fields))
        }
    } else if is_attempt_line(fields) {
        error_of(attempt_read(fields))
    } else if is_evidence_line(fields) {
        error_of(evidence_read(fields))
    } else if is_projection_line(fields) {
        error_of(projection_read(fields))
    } else {
        Some(PostgresUnifiedStoreError::InvalidRecord)
    }
}

/// The lease line among the lines after the identity line and before `k`.
pub open spec fn lease_index(lines: Seq<Seq<char>>, k: int) -> Option<int>
    decreases k,
{
    if k <= 1 {
        None
    } else {
        match lease_index(lines, k - 1) {
            Some(j) => Some(j),
            None => if is_lease_line(line_fields(lines, k - 1)) {
                Some(k - 1)
            } else {
                None
            },
        }
    }
}

/// The first error among the lines after the identity line and before `k`.
pub open spec fn items_error(lines: Seq<Seq<char>>, k: int) -> Option<PostgresUnifiedStoreError>
    decreases k,
{
    if k <= 1 {
        None
    } else {
        match items_error(lines, k - 1) {
            Some(e) => Some(e),
            None => item_error(line_fields(lines, k - 1), lease_index(lines, k - 1) is Some),
        }
    }
}

/// The lines of one kind after the identity line and before `k`, in order.
pub open spec fn kind_indices(lines: Seq<Seq<char>>, k: int, kind: Seq<char>, count: int) -> Seq<int>
    decreases k,
{
    if k <= 1 {
        Seq::empty()
    } else {
        let prev = kind_indices(lines, k - 1, kind, count);
        if line_kind(line_fields(lines, k - 1), kind, count) {
            prev.push(k - 1)
        } else {
            prev
        }
    }
}

/// Why a record's lines cannot be read, if they cannot.
#[verifier::opaque]
pub open spec fn record_error(lines: Seq<Seq<char>>) -> Option<PostgresUnifiedStoreError> {
    if lines.len() == 0 {
        Some(PostgresUnifiedStoreError::InvalidRecord)
    } else {
        match bind_read(line_fields(lines, 0)) {
            Err(e) => Some(e),
            Ok(_) => items_error(lines, lines.len() as int),
        }
    }
}

/// `lease` is what a lease line reads as.
pub open spec fn lease_matches(lease: UnifiedLeaseAuthority, fields: Seq<Seq<char>>) -> bool {
    lease_read(fields) matches Ok((owner, epoch, revision, expires)) && lease.owner@ == owner
        && lease.epoch == epoch && lease.revision == revision && lease.expires_at@ == expires
}

/// `attempt` is what an attempt line reads as under the record's identity.
pub open spec fn attempt_matches(
    attempt: UnifiedPreparedAttempt,
    fields: Seq<Seq<char>>,
    binding: UnifiedOperationBinding,
) -> bool {
    attempt_read(fields) matches Ok((owner, epoch, ordinal, prepared, proofs, dispatch))
        && attempt.permit.action_id == binding.action_id && attempt.permit.idempotency_key
        == binding.idempotency_key && attempt.permit.owner@ == owner && attempt.permit.fencing_epoch
        == epoch && attempt.permit.attempt_ordinal == ordinal && attempt.prepared_at@ == prepared
        && texts_of(attempt.authorization_proof_refs@) == proofs && match dispatch {
        None => attempt.dispatch is None,
        Some((at, proof)) => attempt.dispatch matches Some(d) && d.dispatched_at@ == at
            && d.proof_ref@ == proof,
    }
}

/// `evidence` is what an evidence line reads as.
pub open spec fn evidence_matches(evidence: UnifiedEffectEvidence, fields: Seq<Seq<char>>) -> bool {
    evidence_read(fields) matches Ok((ordinal, observed, outcome, source, proof))
        && evidence.attempt_ordinal == ordinal && evidence.observed_at@ == observed && evidence.outcome
        == outcome && evidence.source == source && evidence.proof_ref@ == proof
}

/// `projection` is what a projection line reads as.
pub open spec fn projection_matches(projection: UnifiedProjectionMarker, fields: Seq<Seq<char>>) -> bool {
    projection_read(fields) matches Ok((ordinal, projected, proof)) && projection.attempt_ordinal
        == ordinal && projection.projected_at@ == projected && projection.proof_ref@ == proof
}

/// `record` is what the first `k` lines read as.
#[verifier::opaque]
pub open spec fn lines_read(lines: Seq<Seq<char>>, k: int, record: UnifiedActionRecord) -> bool {
    let attempts = kind_indices(lines, k, "ATT"@, 9);
    let evidence = kind_indices(lines, k, "EVID"@, 7);
    let projections = kind_indices(lines, k, "PROJ"@, 5);
    &&& bind_read(line_fields(lines, 0)) matches Ok((action, key, operation, revision))
        && record.binding.action_id@ == action && record.binding.idempotency_key@ == key
        && record.binding.operation_ref@ == operation && record.revision == revision
    &&& match lease_index(lines, k) {
        None => record.lease is None,
        Some(j) => record.lease matches Some(lease) && lease_matches(lease, line_fields(lines, j)),
    }
    &&& record.attempts@.len() == attempts.len()
    &&& forall|i: int|
        0 <= i < attempts.len() ==> #[trigger] attempt_matches(
            record.attempts@[i],
            line_fields(lines, attempts[i]),
            record.binding,
        )
    &&& record.evidence@.len() == evidence.len()
    &&& forall|i: int|
        0 <= i < evidence.len() ==> #[trigger] evidence_matches(
            record.evidence@[i],
            line_fields(lines, evidence[i]),
        )
    &&& record.projections@.len() == projections.len()
    &&& forall|i: int|
        0 <= i < projections.len() ==> #[trigger] projection_matches(
            record.projections@[i],
            line_fields(lines, projections[i]),
        )
}

/// The revision an identity line reads as, or -1 when it does not read.
pub open spec fn read_revision(lines: Seq<Seq<char>>) -> int {
    match bind_read(line_fields(lines, 0)) {
        Ok((_, _, _, revision)) => revision,
        Err(_) => -1,
    }
}

/// A record read from lines carries the revision of their identity line.
pub proof fn lemma_read_revision(lines: Seq<Seq<char>>, record: UnifiedActionRecord)
    requires
        lines_read(lines, lines.len() as int, record),
    ensures
        record.revision == read_revision(lines),
{
    reveal(lines_read);
}

/// A field with no separator of the text form in it.
pub open spec fn plain_field(f: Seq<char>) -> bool {
    forall|i: int|
        0 <= i < f.len() ==> #[trigger] f[i] != '\t' && f[i] != '\n' && f[i] != '\r' && f[i] != ','
}

/// A field with no tab, newline or carriage return in it.
pub open spec fn line_field(f: Seq<char>) -> bool {
    forall|i: int| 0 <= i < f.len() ==> #[trigger] f[i] != '\t' && f[i] != '\n' && f[i] != '\r'
}

/// Hex text is a plain field and reads back as its text.
pub proof fn lemma_hex_field(t: Seq<char>)
    ensures
        plain_field(hex_text(t)),
        store_text(hex_text(t)) == Ok::<Seq<char>, PostgresUnifiedStoreError>(t),
        hex_text(t).len() == 0 <==> t.len() == 0,
{
    lemma_hex_chars(encode_utf8(t));
    lemma_hex_round_trip(t);
    let h = hex_text(t);
    assert forall|i: int| 0 <= i < h.len() implies #[trigger] h[i] != '\t' && h[i] != '\n' && h[i]
        != '\r' && h[i] != ',' by {
        assert(hex_digit_char(h[i]));
    }
    if t.len() > 0 {
        assert(encode_utf8(t).len() > 0) by {
            vstd::utf8::encode_utf8_decode_utf8(t);
            if encode_utf8(t).len() == 0 {
                assert(encode_utf8(t) =~= Seq::<u8>::empty());
                assert(vstd::utf8::decode_utf8(Seq::<u8>::empty()) =~= Seq::<char>::empty());
            }
        }
    } else {
        assert(t =~= Seq::<char>::empty());
        assert(encode_utf8(t) =~= Seq::<u8>::empty());
    }
}

/// A decimal is a plain field and reads back as its number.
pub proof fn lemma_decimal_field(n: nat, limit: int)
    requires
        n <= limit,
    ensures
        plain_field(decimal(n)),
        store_number(decimal(n), limit) == Ok::<int, PostgresUnifiedStoreError>(n as int),
        decimal(n).len() >= 1,
{
    lemma_decimal_round_trip(n);
}

/// A signed decimal in the range of `i64` is a plain field and reads back as
/// its number; it is never the absent-dispatch marker.
pub proof fn lemma_time_field(v: int)
    requires
        i64::MIN <= v <= i64::MAX,
    ensures
        plain_field(signed_decimal(v)),
        store_time(signed_decimal(v)) == Ok::<int, PostgresUnifiedStoreError>(v),
        signed_decimal(v) != "-"@,
{
    lemma_signed_round_trip(v);
    reveal_strlit("-");
    assert("-"@ =~= seq!['-']);
}

/// Hex texts read back in order.
proof fn lemma_hex_texts(texts: Seq<String>)
    ensures
        store_texts(hex_fields(texts)) == Ok::<Seq<Seq<char>>, PostgresUnifiedStoreError>(
            texts_of(texts),
        ),
    decreases texts.len(),
{
    if texts.len() > 0 {
        let t = texts.drop_last();
        lemma_hex_texts(t);
        assert(hex_fields(texts).drop_last() =~= hex_fields(t));
        lemma_hex_field(texts.last()@);
        assert(texts_of(texts) =~= texts_of(t).push(texts.last()@));
    } else {
        assert(hex_fields(texts) =~= Seq::<Seq<char>>::empty());
        assert(texts_of(texts) =~= Seq::<Seq<char>>::empty());
    }
}

/// Joined fields with no line separators make no line separators.
proof fn lemma_join_line_field(fields: Seq<Seq<char>>, sep: Seq<char>)
    requires
        forall|k: int| 0 <= k < fields.len() ==> line_field(#[trigger] fields[k]),
        line_field(sep),
    ensures
        line_field(join_with(fields, sep)),
    decreases fields.len(),
{
    if fields.len() > 1 {
        lemma_join_line_field(fields.drop_last(), sep);
        let j = join_with(fields.drop_last(), sep);
        let all = j + sep + fields.last();
        assert(fields.drop_last().len() == fields.len() - 1);
        assert(line_field(fields.last()));
        assert forall|i: int| 0 <= i < all.len() implies #[trigger] all[i] != '\t' && all[i] != '\n'
            && all[i] != '\r' by {
            if i < j.len() {
                assert(all[i] == j[i]);
            } else if i < j.len() + sep.len() {
                assert(all[i] == sep[i - j.len()]);
            } else {
                assert(all[i] == fields.last()[i - j.len() - sep.len()]);
            }
        }
    } else if fields.len() == 1 {
        assert(line_field(fields[0]));
    }
}

/// A list of texts as comma-separated hex holds no line separators and reads
/// back as the same texts, unless it is one empty text.
pub proof fn lemma_list_field(refs: Seq<String>)
    requires
        !(refs.len() == 1 && refs[0]@.len() == 0),
    ensures
        line_field(proof_list(refs)),
        store_list(proof_list(refs)) == Ok::<Seq<Seq<char>>, PostgresUnifiedStoreError>(texts_of(refs)),
{
    reveal_strlit(",");
    let h = hex_fields(refs);
    assert forall|k: int| 0 <= k < h.len() implies line_field(#[trigger] h[k]) && !h[k].contains(',') by {
        lemma_hex_field(refs[k]@);
        if h[k].contains(',') {
            let j = choose|j: int| 0 <= j < h[k].len() && h[k][j] == ',';
            assert(h[k][j] != ',');
        }
    }
    assert forall|i: int| 0 <= i < ","@.len() implies #[trigger] ","@[i] != '\t' && ","@[i] != '\n'
        && ","@[i] != '\r' by {
    }
    lemma_join_line_field(h, ","@);
    lemma_hex_texts(refs);
    if refs.len() == 0 {
        assert(proof_list(refs) =~= Seq::<char>::empty());
        assert(texts_of(refs) =~= Seq::<Seq<char>>::empty());
    } else {
        assert(","@ =~= seq![',']);
        lemma_split_join(h, ',');
        if refs.len() == 1 {
            lemma_hex_field(refs[0]@);
            assert(proof_list(refs) == h[0]);
        } else {
            assert(proof_list(refs) == join_with(h.drop_last(), ","@) + ","@ + h.last());
        }
        assert(proof_list(refs).len() != 0);
    }
}

/// The fixed fields of the text form hold no separators, and the codes read
/// back as what they were written from.
proof fn lemma_codes()
    ensures
        plain_field("PGU1"@),
        plain_field("BIND"@),
        plain_field("LEASE"@),
        plain_field("ATT"@),
        plain_field("EVID"@),
        plain_field("PROJ"@),
        plain_field("-"@),
        forall|o: UnifiedEffectOutcome|
            plain_field(#[trigger] effect_code(o)) && effect_of(effect_code(o)) == Some(o),
        forall|s: UnifiedEvidenceSource|
            plain_field(#[trigger] source_code(s)) && source_of(source_code(s)) == Some(s),
{
    reveal_strlit("PGU1");
    reveal_strlit("BIND");
    reveal_strlit("LEASE");
    reveal_strlit("ATT");
    reveal_strlit("EVID");
    reveal_strlit("PROJ");
    reveal_strlit("-");
    reveal_strlit("S");
    reveal_strlit("F");
    reveal_strlit("N");
    reveal_strlit("U");
    reveal_strlit("I");
    reveal_strlit("A");
    reveal_strlit("R");
    assert("S"@[0] == 'S' && "F"@[0] == 'F' && "N"@[0] == 'N' && "U"@[0] == 'U' && "I"@[0] == 'I');
    assert("A"@[0] == 'A' && "R"@[0] == 'R');
    assert forall|o: UnifiedEffectOutcome|
        plain_field(#[trigger] effect_code(o)) && effect_of(effect_code(o)) == Some(o) by {
        match o {
            UnifiedEffectOutcome::EffectSucceeded => {},
            UnifiedEffectOutcome::EffectFailed => {
                assert("F"@ != "S"@);
            },
            UnifiedEffectOutcome::NoEffectConfirmed => {
                assert("N"@ != "S"@ && "N"@ != "F"@);
            },
            UnifiedEffectOutcome::StillUnknown => {
                assert("U"@ != "S"@ && "U"@ != "F"@ && "U"@ != "N"@);
            },
            UnifiedEffectOutcome::IdentityConflict => {
                assert("I"@ != "S"@ && "I"@ != "F"@ && "I"@ != "N"@ && "I"@ != "U"@);
            },
        }
    }
    assert forall|s: UnifiedEvidenceSource|
        plain_field(#[trigger] source_code(s)) && source_of(source_code(s)) == Some(s) by {
        match s {
            UnifiedEvidenceSource::ActuatorReceipt => {},
            UnifiedEvidenceSource::Reconciliation => {
                assert("R"@ != "A"@);
            },
        }
    }
}

/// The fields of a line read back from the line.
proof fn lemma_line_fields(fields: Seq<Seq<char>>)
    requires
        fields.len() >= 1,
        forall|k: int| 0 <= k < fields.len() ==> line_field(#[trigger] fields[k]),
    ensures
        split_char(tab_line(fields), '\t') == fields,
        line_field_free_of_newlines(tab_line(fields)),
{
    reveal_strlit("\t");
    assert("\t"@ =~= seq!['\t']);
    assert forall|k: int| 0 <= k < fields.len() implies !(#[trigger] fields[k]).contains('\t') by {
        if fields[k].contains('\t') {
            let j = choose|j: int| 0 <= j < fields[k].len() && fields[k][j] == '\t';
            assert(line_field(fields[k]));
        }
    }
    lemma_split_join(fields, '\t');
    assert forall|i: int| 0 <= i < "\t"@.len() implies #[trigger] "\t"@[i] != '\n' && "\t"@[i]
        != '\r' by {
    }
    lemma_join_newline_free(fields, "\t"@);
}

/// A text with no newline or carriage return.
pub open spec fn line_field_free_of_newlines(t: Seq<char>) -> bool {
    forall|i: int| 0 <= i < t.len() ==> #[trigger] t[i] != '\n' && t[i] != '\r'
}

proof fn lemma_join_newline_free(fields: Seq<Seq<char>>, sep: Seq<char>)
    requires
        forall|k: int| 0 <= k < fields.len() ==> line_field(#[trigger] fields[k]),
        forall|i: int| 0 <= i < sep.len() ==> #[trigger] sep[i] != '\n' && sep[i] != '\r',
    ensures
        line_field_free_of_newlines(join_with(fields, sep)),
    decreases fields.len(),
{
    if fields.len() > 1 {
        lemma_join_newline_free(fields.drop_last(), sep);
        let j = join_with(fields.drop_last(), sep);
        let all = j + sep + fields.last();
        assert(line_field(fields.last()));
        assert forall|i: int| 0 <= i < all.len() implies #[trigger] all[i] != '\n' && all[i] != '\r' by {
            if i < j.len() {
                assert(all[i] == j[i]);
            } else if i < j.len() + sep.len() {
                assert(all[i] == sep[i - j.len()]);
            } else {
                assert(all[i] == fields.last()[i - j.len() - sep.len()]);
            }
        }
    } else if fields.len() == 1 {
        assert(line_field(fields[0]));
    }
}

/// The identity line reads back as the identity and revision it was written from.
pub proof fn lemma_bind_line(binding: UnifiedOperationBinding, revision: u64)
    requires
        !blank(binding.action_id@),
    ensures
        forall|k: int| 0 <= k < 6 ==> line_field(#[trigger] bind_fields(binding, revision)[k]),
        bind_read(bind_fields(binding, revision)) == Ok::<
            (Seq<char>, Seq<char>, Seq<char>, int),
            PostgresUnifiedStoreError,
        >((binding.action_id@, binding.idempotency_key@, binding.operation_ref@, revision as int)),
{
    lemma_codes();
    lemma_hex_field(binding.action_id@);
    lemma_hex_field(binding.idempotency_key@);
    lemma_hex_field(binding.operation_ref@);
    lemma_decimal_field(revision as nat, u64::MAX as int);
}

/// A lease line reads back as the lease it was written from.
pub proof fn lemma_lease_line(lease: UnifiedLeaseAuthority)
    requires
        !blank(lease.owner@),
    ensures
        forall|k: int| 0 <= k < 6 ==> line_field(#[trigger] lease_fields(lease)[k]),
        is_lease_line(lease_fields(lease)),
        lease_read(lease_fields(lease)) == Ok::<(Seq<char>, int, int, int), PostgresUnifiedStoreError>(
            (lease.owner@, lease.epoch as int, lease.revision as int, lease.expires_at@),
        ),
{
    lemma_codes();
    lemma_hex_field(lease.owner@);
    lemma_decimal_field(lease.epoch as nat, u64::MAX as int);
    lemma_decimal_field(lease.revision as nat, u64::MAX as int);
    Timestamp::lemma_view_range(lease.expires_at);
    lemma_time_field(lease.expires_at@);
}

/// What an attempt's dispatch reads back as.
pub open spec fn dispatch_value(dispatch: Option<UnifiedDispatchEvidence>) -> Option<(int, Seq<char>)> {
    match dispatch {
        None => None,
        Some(d) => Some((d.dispatched_at@, d.proof_ref@)),
    }
}

/// An attempt whose text form reads back: a named owner, and proofs that are
/// not a single empty text.
pub open spec fn storable_attempt(attempt: UnifiedPreparedAttempt) -> bool {
    &&& !blank(attempt.permit.owner@)
    &&& !(attempt.authorization_proof_refs@.len() == 1
        && attempt.authorization_proof_refs@[0]@.len() == 0)
}

/// An attempt line reads back as the attempt it was written from.
pub proof fn lemma_attempt_line(attempt: UnifiedPreparedAttempt)
    requires
        storable_attempt(attempt),
    ensures
        forall|k: int| 0 <= k < 9 ==> line_field(#[trigger] attempt_fields(attempt)[k]),
        is_attempt_line(attempt_fields(attempt)),
        attempt_read(attempt_fields(attempt)) == Ok::<
            (Seq<char>, int, int, int, Seq<Seq<char>>, Option<(int, Seq<char>)>),
            PostgresUnifiedStoreError,
        >(
            (
                attempt.permit.owner@,
                attempt.permit.fencing_epoch as int,
                attempt.permit.attempt_ordinal as int,
                attempt.prepared_at@,
                texts_of(attempt.authorization_proof_refs@),
                dispatch_value(attempt.dispatch),
            ),
        ),
{
    lemma_codes();
    lemma_hex_field(attempt.permit.owner@);
    lemma_decimal_field(attempt.permit.fencing_epoch as nat, u64::MAX as int);
    lemma_decimal_field(attempt.permit.attempt_ordinal as nat, u32::MAX as int);
    Timestamp::lemma_view_range(attempt.prepared_at);
    lemma_time_field(attempt.prepared_at@);
    lemma_list_field(attempt.authorization_proof_refs@);
    match attempt.dispatch {
        None => {},
        Some(d) => {
            Timestamp::lemma_view_range(d.dispatched_at);
            lemma_time_field(d.dispatched_at@);
            lemma_hex_field(d.proof_ref@);
        },
    }
}

/// An evidence line reads back as the evidence it was written from.
pub proof fn lemma_evidence_line(evidence: UnifiedEffectEvidence)
    ensures
        forall|k: int| 0 <= k < 7 ==> line_field(#[trigger] evidence_fields(evidence)[k]),
        is_evidence_line(evidence_fields(evidence)),
        evidence_read(evidence_fields(evidence)) == Ok::<
            (int, int, UnifiedEffectOutcome, UnifiedEvidenceSource, Seq<char>),
            PostgresUnifiedStoreError,
        >(
            (
                evidence.attempt_ordinal as int,
                evidence.observed_at@,
                evidence.outcome,
                evidence.source,
                evidence.proof_ref@,
            ),
        ),
{
    lemma_codes();
    lemma_decimal_field(evidence.attempt_ordinal as nat, u32::MAX as int);
    Timestamp::lemma_view_range(evidence.observed_at);
    lemma_time_field(evidence.observed_at@);
    lemma_hex_field(evidence.proof_ref@);
}

/// A projection line reads back as the marker it was written from.
pub proof fn lemma_projection_line(projection: UnifiedProjectionMarker)
    ensures
        forall|k: int| 0 <= k < 5 ==> line_field(#[trigger] projection_fields(projection)[k]),
        is_projection_line(projection_fields(projection)),
        projection_read(projection_fields(projection)) == Ok::<
            (int, int, Seq<char>),
            PostgresUnifiedStoreError,
        >((projection.attempt_ordinal as int, projection.projected_at@, projection.proof_ref@)),
{
    lemma_codes();
    lemma_decimal_field(projection.attempt_ordinal as nat, u32::MAX as int);
    Timestamp::lemma_view_range(projection.projected_at);
    lemma_time_field(projection.projected_at@);
    lemma_hex_field(projection.proof_ref@);
}

/// The fields of each line a record is written as, in order.
pub open spec fn record_fields(record: UnifiedActionRecord) -> Seq<Seq<Seq<char>>> {
    seq![bind_fields(record.binding, record.revision)] + match record.lease {
        Some(lease) => seq![lease_fields(lease)],
        None => Seq::empty(),
    } + Seq::new(record.attempts@.len(), |i: int| attempt_fields(record.attempts@[i])) + Seq::new(
        record.evidence@.len(),
        |i: int| evidence_fields(record.evidence@[i]),
    ) + Seq::new(record.projections@.len(), |i: int| projection_fields(record.projections@[i]))
}

/// One line for the lease, if the record holds one.
pub open spec fn lease_lines(record: UnifiedActionRecord) -> int {
    if record.lease is Some {
        1
    } else {
        0
    }
}

/// A record whose text form reads back: a named action, a named lease
/// owner, and attempts that read back.
/// The record names its action, its lease owner and the owner of each
/// attempt: none of these identities is blank.
pub open spec fn identities_named(record: UnifiedActionRecord) -> bool {
    &&& !blank(record.binding.action_id@)
    &&& (record.lease is Some ==> !blank(record.lease->0.owner@))
    &&& forall|i: int| 0 <= i < record.attempts@.len() ==> !blank(#[trigger] record.attempts@[i].permit.owner@)
}

pub open spec fn storable_record(record: UnifiedActionRecord) -> bool {
    &&& !blank(record.binding.action_id@)
    &&& (record.lease is Some ==> !blank(record.lease->0.owner@))
    &&& forall|i: int| 0 <= i < record.attempts@.len() ==> storable_attempt(#[trigger] record.attempts@[i])
}

pub proof fn lemma_record_fields_shape(record: UnifiedActionRecord)
    ensures
        record_fields(record).len() == 1 + lease_lines(record) + record.attempts@.len()
            + record.evidence@.len() + record.projections@.len(),
        record_lines(record).len() == record_fields(record).len(),
        forall|j: int|
            0 <= j < record_fields(record).len() ==> #[trigger] record_lines(record)[j] == tab_line(
                record_fields(record)[j],
            ),
        record_fields(record)[0] == bind_fields(record.binding, record.revision),
        forall|j: int|
            1 <= j < record_fields(record).len() ==> #[trigger] record_fields(record)[j] == {
                let l = lease_lines(record);
                let a = record.attempts@.len() as int;
                let e = record.evidence@.len() as int;
                if j < 1 + l {
                    lease_fields(record.lease->0)
                } else if j < 1 + l + a {
                    attempt_fields(record.attempts@[j - 1 - l])
                } else if j < 1 + l + a + e {
                    evidence_fields(record.evidence@[j - 1 - l - a])
                } else {
                    projection_fields(record.projections@[j - 1 - l - a - e])
                }
            },
{
}

/// Lines with no line separators, the last one not empty, joined by
/// newlines read back as the same lines.
proof fn lemma_payload_lines_of_join(lines: Seq<Seq<char>>)
    requires
        lines.len() >= 1,
        forall|k: int| 0 <= k < lines.len() ==> line_field_free_of_newlines(#[trigger] lines[k]),
        lines.last().len() > 0,
    ensures
        payload_lines(join_with(lines, "\n"@)) == lines,
{
    reveal_strlit("\n");
    assert("\n"@ =~= seq!['\n']);
    assert forall|k: int| 0 <= k < lines.len() implies !(#[trigger] lines[k]).contains('\n') by {
        if lines[k].contains('\n') {
            let j = choose|j: int| 0 <= j < lines[k].len() && lines[k][j] == '\n';
            assert(line_field_free_of_newlines(lines[k]));
        }
    }
    lemma_split_join(lines, '\n');
    let p = payload_lines(join_with(lines, "\n"@));
    assert forall|i: int| 0 <= i < lines.len() implies #[trigger] p[i] == lines[i] by {
        assert(line_field_free_of_newlines(lines[i]));
        if lines[i].len() > 0 {
            assert(lines[i].last() != '\r');
        }
    }
    assert(p =~= lines);
}

/// The lines of a record's text form are its lines, and their fields the
/// record's fields.
proof fn lemma_record_text_lines(record: UnifiedActionRecord)
    requires
        storable_record(record),
    ensures
        payload_lines(record_text(record)) == record_lines(record),
        forall|j: int|
            0 <= j < record_fields(record).len() ==> #[trigger] line_fields(record_lines(record), j)
                == record_fields(record)[j],
{
    lemma_record_fields_shape(record);
    let f = record_fields(record);
    let lines = record_lines(record);
    let l = lease_lines(record);
    let a = record.attempts@.len() as int;
    let e = record.evidence@.len() as int;
    assert forall|j: int| 0 <= j < f.len() implies (forall|k: int|
        0 <= k < f[j].len() ==> line_field(#[trigger] f[j][k])) && f[j].len() >= 1 && f[j][0] == "PGU1"@ by {
        if j == 0 {
            lemma_bind_line(record.binding, record.revision);
        } else if j < 1 + l {
            lemma_lease_line(record.lease->0);
        } else if j < 1 + l + a {
            assert(storable_attempt(record.attempts@[j - 1 - l]));
            lemma_attempt_line(record.attempts@[j - 1 - l]);
        } else if j < 1 + l + a + e {
            lemma_evidence_line(record.evidence@[j - 1 - l - a]);
        } else {
            lemma_projection_line(record.projections@[j - 1 - l - a - e]);
        }
    }
    reveal_strlit("PGU1");
    assert forall|j: int| 0 <= j < f.len() implies line_field_free_of_newlines(#[trigger] lines[j])
        && lines[j].len() > 0 && line_fields(lines, j) == f[j] by {
        lemma_line_fields(f[j]);
        assert(lines[j] == tab_line(f[j]));
        if f[j].len() == 1 {
            assert(tab_line(f[j]) == f[j][0]);
        } else {
            assert(tab_line(f[j]) == join_with(f[j].drop_last(), "\t"@) + "\t"@ + f[j].last());
            reveal_strlit("\t");
        }
    }
    lemma_payload_lines_of_join(lines);
}

/// The reading state after the first `k` lines of a record's text form.
spec fn prefix_state(record: UnifiedActionRecord, lines: Seq<Seq<char>>, k: int) -> bool {
    let l = lease_lines(record);
    let a = record.attempts@.len() as int;
    let e = record.evidence@.len() as int;
    &&& items_error(lines, k) is None
    &&& lease_index(lines, k) == (if l == 1 && k > 1 {
        Some(1int)
    } else {
        None
    })
    &&& kind_indices(lines, k, "ATT"@, 9) == Seq::new(clamp(k - 1 - l, a), |i: int| 1 + l + i)
    &&& kind_indices(lines, k, "EVID"@, 7) == Seq::new(clamp(k - 1 - l - a, e), |i: int| 1 + l + a + i)
    &&& kind_indices(lines, k, "PROJ"@, 5) == Seq::new(
        clamp(k - 1 - l - a - e, record.projections@.len() as int),
        |i: int| 1 + l + a + e + i,
    )
}

/// Line `j` of a record's text form, of a known kind, extends the reading.
proof fn lemma_written_line_step(
    record: UnifiedActionRecord,
    lines: Seq<Seq<char>>,
    j: int,
    f: Seq<Seq<char>>,
)
    requires
        1 <= j,
        j < 1 + lease_lines(record) + record.attempts@.len() + record.evidence@.len()
            + record.projections@.len(),
        prefix_state(record, lines, j),
        line_fields(lines, j) == f,
        j < 1 + lease_lines(record) ==> is_lease_line(f) && error_of(lease_read(f)) is None,
        1 + lease_lines(record) <= j < 1 + lease_lines(record) + record.attempts@.len()
            ==> is_attempt_line(f) && error_of(attempt_read(f)) is None,
        1 + lease_lines(record) + record.attempts@.len() <= j < 1 + lease_lines(record)
            + record.attempts@.len() + record.evidence@.len() ==> is_evidence_line(f) && error_of(
            evidence_read(f),
        ) is None,
        1 + lease_lines(record) + record.attempts@.len() + record.evidence@.len() <= j
            ==> is_projection_line(f) && error_of(projection_read(f)) is None,
    ensures
        prefix_state(record, lines, j + 1),
{
    let l = lease_lines(record);
    let a = record.attempts@.len() as int;
    let e = record.evidence@.len() as int;
    let p = record.projections@.len() as int;
    reveal_strlit("PGU1");
    assert(kind_indices(lines, j + 1, "ATT"@, 9) =~= Seq::new(clamp(j - l, a), |i: int| 1 + l + i));
    assert(kind_indices(lines, j + 1, "EVID"@, 7) =~= Seq::new(
        clamp(j - l - a, e),
        |i: int| 1 + l + a + i,
    ));
    assert(kind_indices(lines, j + 1, "PROJ"@, 5) =~= Seq::new(
        clamp(j - l - a - e, p),
        |i: int| 1 + l + a + e + i,
    ));
}

/// The line at `j` is of the kind its position says and reads without error.
proof fn lemma_line_kind_at(record: UnifiedActionRecord, j: int)
    requires
        storable_record(record),
        1 <= j < record_fields(record).len(),
    ensures
        ({
            let f = record_fields(record)[j];
            let l = lease_lines(record);
            let a = record.attempts@.len() as int;
            let e = record.evidence@.len() as int;
            &&& j < 1 + l ==> is_lease_line(f) && error_of(lease_read(f)) is None
            &&& 1 + l <= j < 1 + l + a ==> is_attempt_line(f) && error_of(attempt_read(f)) is None
            &&& 1 + l + a <= j < 1 + l + a + e ==> is_evidence_line(f) && error_of(evidence_read(f))
                is None
            &&& 1 + l + a + e <= j ==> is_projection_line(f) && error_of(projection_read(f)) is None
        }),
{
    lemma_record_fields_shape(record);
    let l = lease_lines(record);
    let a = record.attempts@.len() as int;
    let e = record.evidence@.len() as int;
    if j < 1 + l {
        lemma_lease_line(record.lease->0);
    } else if j < 1 + l + a {
        assert(storable_attempt(record.attempts@[j - 1 - l]));
        lemma_attempt_line(record.attempts@[j - 1 - l]);
    } else if j < 1 + l + a + e {
        lemma_evidence_line(record.evidence@[j - 1 - l - a]);
    } else {
        lemma_projection_line(record.projections@[j - 1 - l - a - e]);
    }
}

/// How the reading of a record's lines proceeds through its first `k` lines.
proof fn lemma_record_prefix(record: UnifiedActionRecord, lines: Seq<Seq<char>>, k: int)
    requires
        storable_record(record),
        lines.len() == record_fields(record).len(),
        forall|j: int| 0 <= j < lines.len() ==> #[trigger] line_fields(lines, j) == record_fields(record)[j],
        1 <= k <= lines.len(),
    ensures
        prefix_state(record, lines, k),
    decreases k,
{
    lemma_record_fields_shape(record);
    if k > 1 {
        lemma_record_prefix(record, lines, k - 1);
        lemma_line_kind_at(record, k - 1);
        lemma_written_line_step(record, lines, k - 1, record_fields(record)[k - 1]);
    } else {
        let l = lease_lines(record);
        let a = record.attempts@.len() as int;
        let e = record.evidence@.len() as int;
        assert(kind_indices(lines, k, "ATT"@, 9) =~= Seq::new(clamp(k - 1 - l, a), |i: int| 1 + l + i));
        assert(kind_indices(lines, k, "EVID"@, 7) =~= Seq::new(
            clamp(k - 1 - l - a, e),
            |i: int| 1 + l + a + i,
        ));
        assert(kind_indices(lines, k, "PROJ"@, 5) =~= Seq::new(
            clamp(k - 1 - l - a - e, record.projections@.len() as int),
            |i: int| 1 + l + a + e + i,
        ));
    }
}

/// `x` kept between 0 and `m`.
pub open spec fn clamp(x: int, m: int) -> nat {
    if x <= 0 {
        0
    } else if x >= m {
        m as nat
    } else {
        x as nat
    }
}

/// A storable record's text form reads without error, with its lease line,
/// attempt lines, evidence lines and projection lines where they were
/// written.
pub proof fn lemma_record_text_reads(record: UnifiedActionRecord)
    requires
        storable_record(record),
    ensures
        ({
            let lines = payload_lines(record_text(record));
            let n = lines.len() as int;
            let l = lease_lines(record);
            let a = record.attempts@.len() as int;
            let e = record.evidence@.len() as int;
            &&& record_error(lines) is None
            &&& n == record_fields(record).len()
            &&& forall|j: int| 0 <= j < n ==> #[trigger] line_fields(lines, j) == record_fields(record)[j]
            &&& lease_index(lines, n) == (if l == 1 {
                Some(1int)
            } else {
                None
            })
            &&& kind_indices(lines, n, "ATT"@, 9) == Seq::new(a as nat, |i: int| 1 + l + i)
            &&& kind_indices(lines, n, "EVID"@, 7) == Seq::new(e as nat, |i: int| 1 + l + a + i)
            &&& kind_indices(lines, n, "PROJ"@, 5) == Seq::new(
                record.projections@.len(),
                |i: int| 1 + l + a + e + i,
            )
        }),
{
    lemma_record_fields_shape(record);
    lemma_record_text_lines(record);
    let lines = payload_lines(record_text(record));
    let n = lines.len() as int;
    lemma_record_prefix(record, lines, n);
    lemma_bind_line(record.binding, record.revision);
    assert(prefix_state(record, lines, n));
    reveal(record_error);
    let l = lease_lines(record);
    let a = record.attempts@.len() as int;
    let e = record.evidence@.len() as int;
    assert(clamp(n - 1 - l, a) == a);
    assert(clamp(n - 1 - l - a, e) == e);
    assert(clamp(n - 1 - l - a - e, record.projections@.len() as int) == record.projections@.len());
    if l == 1 {
        assert(n > 1);
    }
}

fn read_text(f: &String) -> (r: Result<String, PostgresUnifiedStoreError>)
    ensures
        match r {
            Ok(t) => store_text(f@) == Ok::<Seq<char>, PostgresUnifiedStoreError>(t@),
            Err(e) => store_text(f@) == Err::<Seq<char>, PostgresUnifiedStoreError>(e),
        },
{
    match hex_decode(f.as_str()) {
        Ok(t) => Ok(t),
        Err(FieldError::InvalidHex) => Err(PostgresUnifiedStoreError::InvalidHex),
        Err(FieldError::InvalidUtf8) => Err(PostgresUnifiedStoreError::InvalidUtf8),
    }
}

fn read_number(f: &String, limit: u64) -> (r: Result<u64, PostgresUnifiedStoreError>)
    ensures
        match r {
            Ok(v) => store_number(f@, limit as int) == Ok::<int, PostgresUnifiedStoreError>(v as int),
            Err(e) => store_number(f@, limit as int) == Err::<int, PostgresUnifiedStoreError>(e),
        },
{
    match parse_unsigned(f.as_str(), limit) {
        Some(v) => Ok(v),
        None => Err(PostgresUnifiedStoreError::InvalidNumber),
    }
}

fn read_time(f: &String) -> (r: Result<Timestamp, PostgresUnifiedStoreError>)
    ensures
        match r {
            Ok(t) => store_time(f@) == Ok::<int, PostgresUnifiedStoreError>(t@),
            Err(e) => store_time(f@) == Err::<int, PostgresUnifiedStoreError>(e),
        },
{
    match parse_i64(f.as_str()) {
        Some(v) => Ok(Timestamp::new(v)),
        None => Err(PostgresUnifiedStoreError::InvalidNumber),
    }
}

fn read_worker(f: &String) -> (r: Result<RecoveryWorkerId, PostgresUnifiedStoreError>)
    ensures
        match r {
            Ok(w) => store_worker(f@) == Ok::<Seq<char>, PostgresUnifiedStoreError>(w@),
            Err(e) => store_worker(f@) == Err::<Seq<char>, PostgresUnifiedStoreError>(e),
        },
{
    let text = read_text(f)?;
    match RecoveryWorkerId::new(text.as_str()) {
        Ok(w) => Ok(w),
        Err(_) => Err(PostgresUnifiedStoreError::InvalidWorkerId),
    }
}

/// Once a prefix of hex fields fails to read, the whole list fails the same way.
proof fn lemma_store_texts_extends(fields: Seq<Seq<char>>, k: int)
    requires
        0 <= k <= fields.len(),
        store_texts(fields.subrange(0, k)) is Err,
    ensures
        store_texts(fields) == store_texts(fields.subrange(0, k)),
    decreases fields.len() - k,
{
    if k == fields.len() {
        assert(fields.subrange(0, k) =~= fields);
    } else {
        let t = fields.drop_last();
        assert(t.subrange(0, k) =~= fields.subrange(0, k));
        lemma_store_texts_extends(t, k);
    }
}

fn read_list(f: &String) -> (r: Result<Vec<String>, PostgresUnifiedStoreError>)
    ensures
        match r {
            Ok(v) => store_list(f@) == Ok::<Seq<Seq<char>>, PostgresUnifiedStoreError>(texts_of(v@)),
            Err(e) => store_list(f@) == Err::<Seq<Seq<char>>, PostgresUnifiedStoreError>(e),
        },
{
    let mut out: Vec<String> = Vec::new();
    if f.unicode_len() == 0 {
        assert(texts_of(out@) =~= Seq::<Seq<char>>::empty());
        return Ok(out);
    }
    let pieces = split_text(f.as_str(), ',');
    let ghost all = texts_of(pieces@);
    let mut i: usize = 0;
    assert(all.subrange(0, 0) =~= Seq::<Seq<char>>::empty());
    assert(texts_of(out@) =~= Seq::<Seq<char>>::empty());
    while i < pieces.len()
        invariant
            all == texts_of(pieces@),
            f@.len() != 0,
            all == split_char(f@, ','),
            i <= pieces@.len(),
            store_texts(all.subrange(0, i as int)) == Ok::<Seq<Seq<char>>, PostgresUnifiedStoreError>(
                texts_of(out@),
            ),
        decreases pieces@.len() - i,
    {
        let ghost next = all.subrange(0, i + 1);
        assert(next.drop_last() =~= all.subrange(0, i as int));
        assert(next.last() == pieces@[i as int]@);
        match read_text(&pieces[i]) {
            Ok(t) => {
                let ghost before = texts_of(out@);
                out.push(t);
                assert(texts_of(out@) =~= before.push(t@));
            },
            Err(e) => {
                proof {
                    assert(all.subrange(0, i + 1) =~= next);
                    assert(store_texts(next) == Err::<Seq<Seq<char>>, PostgresUnifiedStoreError>(e));
                    lemma_store_texts_extends(all, i + 1);
                    assert(f@.len() != 0);
                    assert(all == split_char(f@, ','));
                }
                return Err(e);
            },
        }
        i = i + 1;
    }
    assert(all.subrange(0, pieces@.len() as int) =~= all);
    Ok(out)
}

fn read_bind(fields: &Vec<String>) -> (r: Result<
    (ActionId, String, String, u64),
    PostgresUnifiedStoreError,
>)
    ensures
        match r {
            Ok((action, key, operation, revision)) => bind_read(texts_of(fields@)) == Ok::<
                (Seq<char>, Seq<char>, Seq<char>, int),
                PostgresUnifiedStoreError,
            >((action@, key@, operation@, revision as int)),
            Err(e) => bind_read(texts_of(fields@)) == Err::<
                (Seq<char>, Seq<char>, Seq<char>, int),
                PostgresUnifiedStoreError,
            >(e),
        },
{
    let ghost t = texts_of(fields@);
    if fields.len() != 6 || !text_is(fields[0].as_str(), "PGU1") || !text_is(
        fields[1].as_str(),
        "BIND",
    ) {
        return Err(PostgresUnifiedStoreError::InvalidRecord);
    }
    assert(t[2] == fields@[2]@ && t[3] == fields@[3]@ && t[4] == fields@[4]@ && t[5] == fields@[5]@);
    let action_text = read_text(&fields[2])?;
    let action = match ActionId::new(action_text.as_str()) {
        Ok(a) => a,
        Err(_) => {
            return Err(PostgresUnifiedStoreError::InvalidActionId);
        },
    };
    let key = read_text(&fields[3])?;
    let operation = read_text(&fields[4])?;
    let revision = read_number(&fields[5], u64::MAX)?;
    Ok((action, key, operation, revision))
}

fn read_lease(fields: &Vec<String>) -> (r: Result<UnifiedLeaseAuthority, PostgresUnifiedStoreError>)
    requires
        is_lease_line(texts_of(fields@)),
    ensures
        match r {
            Ok(lease) => lease_matches(lease, texts_of(fields@)),
            Err(e) => error_of(lease_read(texts_of(fields@))) == Some(e),
        },
{
    let ghost t = texts_of(fields@);
    assert(t[2] == fields@[2]@ && t[3] == fields@[3]@ && t[4] == fields@[4]@ && t[5] == fields@[5]@);
    let owner = read_worker(&fields[2])?;
    let epoch = read_number(&fields[3], u64::MAX)?;
    let revision = read_number(&fields[4], u64::MAX)?;
    let expires_at = read_time(&fields[5])?;
    Ok(UnifiedLeaseAuthority { owner, epoch, revision, expires_at })
}

fn read_attempt(fields: &Vec<String>, binding: &UnifiedOperationBinding) -> (r: Result<
    UnifiedPreparedAttempt,
    PostgresUnifiedStoreError,
>)
    requires
        is_attempt_line(texts_of(fields@)),
    ensures
        match r {
            Ok(attempt) => attempt_matches(attempt, texts_of(fields@), *binding),
            Err(e) => error_of(attempt_read(texts_of(fields@))) == Some(e),
        },
{
    let ghost t = texts_of(fields@);
    assert(t[2] == fields@[2]@ && t[3] == fields@[3]@ && t[4] == fields@[4]@ && t[5] == fields@[5]@);
    assert(t[6] == fields@[6]@ && t[7] == fields@[7]@ && t[8] == fields@[8]@);
    let dispatch = if text_is(fields[7].as_str(), "-") && text_is(fields[8].as_str(), "-") {
        None
    } else {
        let dispatched_at = read_time(&fields[7])?;
        let proof_ref = read_text(&fields[8])?;
        Some(UnifiedDispatchEvidence { dispatched_at, proof_ref })
    };
    let owner = read_worker(&fields[2])?;
    let fencing_epoch = read_number(&fields[3], u64::MAX)?;
    let ordinal = read_number(&fields[4], u32::MAX as u64)?;
    let prepared_at = read_time(&fields[5])?;
    let authorization_proof_refs = read_list(&fields[6])?;
    Ok(
        UnifiedPreparedAttempt {
            permit: FencedAttemptPermit {
                action_id: binding.action_id.clone(),
                owner,
                fencing_epoch,
                attempt_ordinal: ordinal as u32,
                idempotency_key: binding.idempotency_key.clone(),
            },
            prepared_at,
            authorization_proof_refs,
            dispatch,
        },
    )
}

fn read_effect(f: &String) -> (r: Option<UnifiedEffectOutcome>)
    ensures
        r == effect_of(f@),
{
    if text_is(f.as_str(), "S") {
        Some(UnifiedEffectOutcome::EffectSucceeded)
    } else if text_is(f.as_str(), "F") {
        Some(UnifiedEffectOutcome::EffectFailed)
    } else if text_is(f.as_str(), "N") {
        Some(UnifiedEffectOutcome::NoEffectConfirmed)
    } else if text_is(f.as_str(), "U") {
        Some(UnifiedEffectOutcome::StillUnknown)
    } else if text_is(f.as_str(), "I") {
        Some(UnifiedEffectOutcome::IdentityConflict)
    } else {
        None
    }
}

fn read_source(f: &String) -> (r: Option<UnifiedEvidenceSource>)
    ensures
        r == source_of(f@),
{
    if text_is(f.as_str(), "A") {
        Some(UnifiedEvidenceSource::ActuatorReceipt)
    } else if text_is(f.as_str(), "R") {
        Some(UnifiedEvidenceSource::Reconciliation)
    } else {
        None
    }
}

fn read_evidence(fields: &Vec<String>) -> (r: Result<UnifiedEffectEvidence, PostgresUnifiedStoreError>)
    requires
        is_evidence_line(texts_of(fields@)),
    ensures
        match r {
            Ok(evidence) => evidence_matches(evidence, texts_of(fields@)),
            Err(e) => error_of(evidence_read(texts_of(fields@))) == Some(e),
        },
{
    let ghost t = texts_of(fields@);
    assert(t[2] == fields@[2]@ && t[3] == fields@[3]@ && t[4] == fields@[4]@ && t[5] == fields@[5]@);
    assert(t[6] == fields@[6]@);
    let ordinal = read_number(&fields[2], u32::MAX as u64)?;
    let observed_at = read_time(&fields[3])?;
    let outcome = match read_effect(&fields[4]) {
        Some(o) => o,
        None => {
            return Err(PostgresUnifiedStoreError::InvalidRecord);
        },
    };
    let source = match read_source(&fields[5]) {
        Some(s) => s,
        None => {
            return Err(PostgresUnifiedStoreError::InvalidRecord);
        },
    };
    let proof_ref = read_text(&fields[6])?;
    Ok(UnifiedEffectEvidence { attempt_ordinal: ordinal as u32, observed_at, outcome, proof_ref, source })
}

fn read_projection(fields: &Vec<String>) -> (r: Result<
    UnifiedProjectionMarker,
    PostgresUnifiedStoreError,
>)
    requires
        is_projection_line(texts_of(fields@)),
    ensures
        match r {
            Ok(projection) => projection_matches(projection, texts_of(fields@)),
            Err(e) => error_of(projection_read(texts_of(fields@))) == Some(e),
        },
{
    let ghost t = texts_of(fields@);
    assert(t[2] == fields@[2]@ && t[3] == fields@[3]@ && t[4] == fields@[4]@);
    let ordinal = read_number(&fields[2], u32::MAX as u64)?;
    let projected_at = read_time(&fields[3])?;
    let proof_ref = read_text(&fields[4])?;
    Ok(UnifiedProjectionMarker { attempt_ordinal: ordinal as u32, proof_ref, projected_at })
}

fn strip_carriage_return(t: &String) -> (r: String)
    ensures
        r@ == strip_cr(t@),
{
    let n = t.unicode_len();
    if n > 0 && t.get_char(n - 1) == '\r' {
        let r = t.as_str().substring_char(0, n - 1).to_owned();
        assert(r@ =~= t@.drop_last());
        r
    } else {
        t.clone()
    }
}

/// The lines of a payload, as `str::lines` gives them.
fn text_lines(payload: &str) -> (r: Vec<String>)
    ensures
        texts_of(r@) == payload_lines(payload@),
{
    let pieces = split_text(payload, '\n');
    let ghost all = split_char(payload@, '\n');
    let n = pieces.len();
    assert(pieces@[n - 1]@ == all.last());
    let kept = if pieces[n - 1].unicode_len() == 0 {
        n - 1
    } else {
        n
    };
    let mut out: Vec<String> = Vec::new();
    let mut i: usize = 0;
    while i < kept
        invariant
            all == texts_of(pieces@),
            all == split_char(payload@, '\n'),
            n == pieces@.len(),
            kept <= n,
            kept == payload_lines(payload@).len(),
            i <= kept,
            texts_of(out@) == payload_lines(payload@).subrange(0, i as int),
        decreases kept - i,
    {
        let line = if i + 1 < n {
            strip_carriage_return(&pieces[i])
        } else {
            pieces[i].clone()
        };
        let ghost before = texts_of(out@);
        proof {
            let kept_s = if all.last().len() == 0 {
                all.drop_last()
            } else {
                all
            };
            assert(all[i as int] == pieces@[i as int]@);
            assert(kept_s[i as int] == all[i as int]);
            assert(payload_lines(payload@)[i as int] == (if i + 1 < all.len() {
                strip_cr(kept_s[i as int])
            } else {
                kept_s[i as int]
            }));
        }
        assert(line@ == payload_lines(payload@)[i as int]);
        out.push(line);
        assert(texts_of(out@) =~= before.push(line@));
        assert(payload_lines(payload@).subrange(0, i + 1) =~= payload_lines(payload@).subrange(
            0,
            i as int,
        ).push(payload_lines(payload@)[i as int]));
        i = i + 1;
    }
    assert(payload_lines(payload@).subrange(0, kept as int) =~= payload_lines(payload@));
    out
}

/// Once a line fails to read, the record's lines fail the same way.
proof fn lemma_items_error_extends(lines: Seq<Seq<char>>, k: int, m: int)
    requires
        1 <= k <= m,
        items_error(lines, k) is Some,
    ensures
        items_error(lines, m) == items_error(lines, k),
    decreases m - k,
{
    if m > k {
        lemma_items_error_extends(lines, k, m - 1);
    }
}

/// One line after the identity line, read.
enum RecordItem {
    Lease(UnifiedLeaseAuthority),
    Attempt(UnifiedPreparedAttempt),
    Evidence(UnifiedEffectEvidence),
    Projection(UnifiedProjectionMarker),
}

/// Line `f` reads as `item`, given whether a lease line came before it.
#[verifier::opaque]
spec fn item_read(
    f: Seq<Seq<char>>,
    lease_before: bool,
    binding: UnifiedOperationBinding,
    item: RecordItem,
) -> bool {
    item_error(f, lease_before) is None && match item {
        RecordItem::Lease(l) => is_lease_line(f) && lease_matches(l, f),
        RecordItem::Attempt(a) => is_attempt_line(f) && attempt_matches(a, f, binding),
        RecordItem::Evidence(e) => is_evidence_line(f) && evidence_matches(e, f),
        RecordItem::Projection(p) => is_projection_line(f) && projection_matches(p, f),
    }
}

/// Line `f` is refused with `e`, given whether a lease line came before it.
#[verifier::opaque]
spec fn item_refused(f: Seq<Seq<char>>, lease_before: bool, e: PostgresUnifiedStoreError) -> bool {
    item_error(f, lease_before) == Some(e)
}

fn read_item(fields: &Vec<String>, binding: &UnifiedOperationBinding, lease_before: bool) -> (r: Result<
    RecordItem,
    PostgresUnifiedStoreError,
>)
    ensures
        match r {
            Ok(item) => item_read(texts_of(fields@), lease_before, *binding, item),
            Err(e) => item_refused(texts_of(fields@), lease_before, e),
        },
{
    proof {
        reveal(item_read);
        reveal(item_refused);
    }
    let ghost f = texts_of(fields@);
    let nf = fields.len();
    if nf < 2 || !text_is(fields[0].as_str(), "PGU1") {
        return Err(PostgresUnifiedStoreError::InvalidRecord);
    }
    assert(f[0] == fields@[0]@ && f[1] == fields@[1]@);
    if nf == 6 && text_is(fields[1].as_str(), "LEASE") {
        if lease_before {
            return Err(PostgresUnifiedStoreError::InvalidRecord);
        }
        Ok(RecordItem::Lease(read_lease(fields)?))
    } else if nf == 9 && text_is(fields[1].as_str(), "ATT") {
        Ok(RecordItem::Attempt(read_attempt(fields, binding)?))
    } else if nf == 7 && text_is(fields[1].as_str(), "EVID") {
        Ok(RecordItem::Evidence(read_evidence(fields)?))
    } else if nf == 5 && text_is(fields[1].as_str(), "PROJ") {
        Ok(RecordItem::Projection(read_projection(fields)?))
    } else {
        Err(PostgresUnifiedStoreError::InvalidRecord)
    }
}

fn split_line(lines: &Vec<String>, k: usize) -> (r: Vec<String>)
    requires
        k < lines@.len(),
    ensures
        texts_of(r@) == line_fields(texts_of(lines@), k as int),
{
    assert(texts_of(lines@)[k as int] == lines@[k as int]@);
    split_text(lines[k].as_str(), '\t')
}

/// The first `k` lines read without error as the identity, the lease and
/// the lists gathered so far.
#[verifier::opaque]
spec fn decoded_prefix(
    all: Seq<Seq<char>>,
    k: int,
    binding: UnifiedOperationBinding,
    revision: u64,
    lease: Option<UnifiedLeaseAuthority>,
    attempts: Seq<UnifiedPreparedAttempt>,
    evidence: Seq<UnifiedEffectEvidence>,
    projections: Seq<UnifiedProjectionMarker>,
) -> bool {
    &&& 1 <= k <= all.len()
    &&& bind_read(line_fields(all, 0)) == Ok::<
        (Seq<char>, Seq<char>, Seq<char>, int),
        PostgresUnifiedStoreError,
    >((binding.action_id@, binding.idempotency_key@, binding.operation_ref@, revision as int))
    &&& items_error(all, k) is None
    &&& (lease_index(all, k) is Some <==> lease is Some)
    &&& match lease_index(all, k) {
        None => true,
        Some(j) => lease matches Some(l) && lease_matches(l, line_fields(all, j)),
    }
    &&& attempts.len() == kind_indices(all, k, "ATT"@, 9).len()
    &&& forall|i: int|
        0 <= i < attempts.len() ==> #[trigger] attempt_matches(
            attempts[i],
            line_fields(all, kind_indices(all, k, "ATT"@, 9)[i]),
            binding,
        )
    &&& evidence.len() == kind_indices(all, k, "EVID"@, 7).len()
    &&& forall|i: int|
        0 <= i < evidence.len() ==> #[trigger] evidence_matches(
            evidence[i],
            line_fields(all, kind_indices(all, k, "EVID"@, 7)[i]),
        )
    &&& projections.len() == kind_indices(all, k, "PROJ"@, 5).len()
    &&& forall|i: int|
        0 <= i < projections.len() ==> #[trigger] projection_matches(
            projections[i],
            line_fields(all, kind_indices(all, k, "PROJ"@, 5)[i]),
        )
}

proof fn lemma_prefix_start(all: Seq<Seq<char>>, binding: UnifiedOperationBinding, revision: u64)
    requires
        all.len() >= 1,
        bind_read(line_fields(all, 0)) == Ok::<
            (Seq<char>, Seq<char>, Seq<char>, int),
            PostgresUnifiedStoreError,
        >((binding.action_id@, binding.idempotency_key@, binding.operation_ref@, revision as int)),
    ensures
        decoded_prefix(all, 1, binding, revision, None, Seq::empty(), Seq::empty(), Seq::empty()),
{
    reveal(decoded_prefix);
}

proof fn lemma_prefix_error(
    all: Seq<Seq<char>>,
    k: int,
    binding: UnifiedOperationBinding,
    revision: u64,
    lease: Option<UnifiedLeaseAuthority>,
    attempts: Seq<UnifiedPreparedAttempt>,
    evidence: Seq<UnifiedEffectEvidence>,
    projections: Seq<UnifiedProjectionMarker>,
    e: PostgresUnifiedStoreError,
)
    requires
        decoded_prefix(all, k, binding, revision, lease, attempts, evidence, projections),
        k < all.len(),
        item_refused(line_fields(all, k), lease is Some, e),
    ensures
        record_error(all) == Some(e),
{
    reveal(decoded_prefix);
    reveal(item_refused);
    reveal(record_error);
    assert(items_error(all, k + 1) == Some(e));
    lemma_items_error_extends(all, k + 1, all.len() as int);
}

proof fn lemma_prefix_step(
    all: Seq<Seq<char>>,
    k: int,
    binding: UnifiedOperationBinding,
    revision: u64,
    lease: Option<UnifiedLeaseAuthority>,
    attempts: Seq<UnifiedPreparedAttempt>,
    evidence: Seq<UnifiedEffectEvidence>,
    projections: Seq<UnifiedProjectionMarker>,
    item: RecordItem,
)
    requires
        decoded_prefix(all, k, binding, revision, lease, attempts, evidence, projections),
        k < all.len(),
        item_read(line_fields(all, k), lease is Some, binding, item),
    ensures
        decoded_prefix(
            all,
            k + 1,
            binding,
            revision,
            match item {
                RecordItem::Lease(l) => Some(l),
                _ => lease,
            },
            match item {
                RecordItem::Attempt(a) => attempts.push(a),
                _ => attempts,
            },
            match item {
                RecordItem::Evidence(x) => evidence.push(x),
                _ => evidence,
            },
            match item {
                RecordItem::Projection(x) => projections.push(x),
                _ => projections,
            },
        ),
{
    reveal(decoded_prefix);
    reveal(item_read);
    let f = line_fields(all, k);
    let att = kind_indices(all, k + 1, "ATT"@, 9);
    let evi = kind_indices(all, k + 1, "EVID"@, 7);
    let pro = kind_indices(all, k + 1, "PROJ"@, 5);
    match item {
        RecordItem::Lease(l) => {
            assert(att == kind_indices(all, k, "ATT"@, 9));
            assert(evi == kind_indices(all, k, "EVID"@, 7));
            assert(pro == kind_indices(all, k, "PROJ"@, 5));
        },
        RecordItem::Attempt(a) => {
            assert(att == kind_indices(all, k, "ATT"@, 9).push(k));
            assert(evi == kind_indices(all, k, "EVID"@, 7));
            assert(pro == kind_indices(all, k, "PROJ"@, 5));
            assert forall|i: int| 0 <= i < attempts.push(a).len() implies #[trigger] attempt_matches(
                attempts.push(a)[i],
                line_fields(all, att[i]),
                binding,
            ) by {
                if i < attempts.len() {
                    assert(attempts.push(a)[i] == attempts[i]);
                }
            }
        },
        RecordItem::Evidence(x) => {
            assert(att == kind_indices(all, k, "ATT"@, 9));
            assert(evi == kind_indices(all, k, "EVID"@, 7).push(k));
            assert(pro == kind_indices(all, k, "PROJ"@, 5));
            assert forall|i: int| 0 <= i < evidence.push(x).len() implies #[trigger] evidence_matches(
                evidence.push(x)[i],
                line_fields(all, evi[i]),
            ) by {
                if i < evidence.len() {
                    assert(evidence.push(x)[i] == evidence[i]);
                }
            }
        },
        RecordItem::Projection(x) => {
            assert(att == kind_indices(all, k, "ATT"@, 9));
            assert(evi == kind_indices(all, k, "EVID"@, 7));
            assert(pro == kind_indices(all, k, "PROJ"@, 5).push(k));
            assert forall|i: int|
                0 <= i < projections.push(x).len() implies #[trigger] projection_matches(
                projections.push(x)[i],
                line_fields(all, pro[i]),
            ) by {
                if i < projections.len() {
                    assert(projections.push(x)[i] == projections[i]);
                }
            }
        },
    }
}

proof fn lemma_prefix_done(all: Seq<Seq<char>>, record: UnifiedActionRecord)
    requires
        decoded_prefix(
            all,
            all.len() as int,
            record.binding,
            record.revision,
            record.lease,
            record.attempts@,
            record.evidence@,
            record.projections@,
        ),
    ensures
        record_error(all) is None,
        lines_read(all, all.len() as int, record),
{
    reveal(decoded_prefix);
    reveal(record_error);
    reveal(lines_read);
}

/// Reads a record from the store's text form.
pub fn decode_record(payload: &str) -> (r: Result<UnifiedActionRecord, PostgresUnifiedStoreError>)
    ensures
        match r {
            Ok(record) => record_error(payload_lines(payload@)) is None && lines_read(
                payload_lines(payload@),
                payload_lines(payload@).len() as int,
                record,
            ),
            Err(e) => record_error(payload_lines(payload@)) == Some(e),
        },
{
    let lines = text_lines(payload);
    let ghost all = payload_lines(payload@);
    let n = lines.len();
    if n == 0 {
        proof {
            reveal(record_error);
        }
        return Err(PostgresUnifiedStoreError::InvalidRecord);
    }
    let first = split_line(&lines, 0);
    let (action_id, idempotency_key, operation_ref, revision) = match read_bind(&first) {
        Ok(read) => read,
        Err(e) => {
            proof {
                reveal(record_error);
            }
            return Err(e);
        },
    };
    let binding = UnifiedOperationBinding { action_id, idempotency_key, operation_ref };
    let mut lease: Option<UnifiedLeaseAuthority> = None;
    let mut attempts: Vec<UnifiedPreparedAttempt> = Vec::new();
    let mut evidence: Vec<UnifiedEffectEvidence> = Vec::new();
    let mut projections: Vec<UnifiedProjectionMarker> = Vec::new();
    proof {
        lemma_prefix_start(all, binding, revision);
        assert(attempts@ =~= Seq::<UnifiedPreparedAttempt>::empty());
        assert(evidence@ =~= Seq::<UnifiedEffectEvidence>::empty());
        assert(projections@ =~= Seq::<UnifiedProjectionMarker>::empty());
    }
    let mut k: usize = 1;
    while k < n
        invariant
            all == texts_of(lines@),
            all == payload_lines(payload@),
            n == lines@.len(),
            1 <= k <= n,
            decoded_prefix(
                all,
                k as int,
                binding,
                revision,
                lease,
                attempts@,
                evidence@,
                projections@,
            ),
        decreases n - k,
    {
        let fields = split_line(&lines, k);
        let item = match read_item(&fields, &binding, lease.is_some()) {
            Err(e) => {
                proof {
                    lemma_prefix_error(
                        all,
                        k as int,
                        binding,
                        revision,
                        lease,
                        attempts@,
                        evidence@,
                        projections@,
                        e,
                    );
                }
                return Err(e);
            },
            Ok(item) => item,
        };
        proof {
            lemma_prefix_step(
                all,
                k as int,
                binding,
                revision,
                lease,
                attempts@,
                evidence@,
                projections@,
                item,
            );
        }
        match item {
            RecordItem::Lease(l) => {
                lease = Some(l);
            },
            RecordItem::Attempt(a) => {
                attempts.push(a);
            },
            RecordItem::Evidence(x) => {
                evidence.push(x);
            },
            RecordItem::Projection(x) => {
                projections.push(x);
            },
        }
        k = k + 1;
    }
    let record = UnifiedActionRecord { binding, revision, lease, attempts, evidence, projections };
    proof {
        lemma_prefix_done(all, record);
    }
    Ok(record)
}

} // verus!
