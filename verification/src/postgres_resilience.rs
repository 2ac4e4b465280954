//! How a failed PostgreSQL transaction step is treated: retried from the last
//! durable revision, reconciled because a commit may have landed, or given up.
use vstd::prelude::*;

use crate::text::text_is;

verus! {

/// The step of a compare-and-swap transaction that failed.
#[derive(Debug, Clone, Copy, PartialEq, Eq, Structural)]
pub enum PostgresFailurePhase {
    Connect,
    Begin,
    Read,
    Write,
    Commit,
    Reconcile,
}

#[derive(Debug, Clone, Copy, PartialEq, Eq, Structural)]
pub enum PostgresFailureDisposition {
    /// PostgreSQL guarantees the transaction was aborted. Re-running from the
    /// previous durable revision is safe.
    RetryableAbortedTransaction,
    /// The failure happened before COMMIT was sent/observed. The open
    /// transaction cannot commit after the connection is gone, so a fresh
    /// transaction may safely retry.
    RetryableBeforeCommit,
    /// COMMIT may have reached PostgreSQL but its acknowledgement was lost.
    /// Reload/reconcile state before deciding whether another write is safe.
    CommitOutcomeUnknown,
    Fatal,
}

/// How many transaction attempts a compare-and-swap may make.
#[derive(Debug, Clone, Copy, PartialEq, Eq, Structural)]
pub struct PostgresTransactionRetryPolicy {
    pub max_attempts: u32,
}

impl PostgresTransactionRetryPolicy {
    pub fn new(max_attempts: u32) -> (p: Self)
        ensures
            p.max_attempts == max_attempts,
    {
        PostgresTransactionRetryPolicy { max_attempts }
    }

    /// The same policy, with at least one attempt.
    pub fn normalized(self) -> (p: Self)
        ensures
            p.max_attempts == (if self.max_attempts == 0 {
                1
            } else {
                self.max_attempts
            }),
    {
        if self.max_attempts == 0 {
            PostgresTransactionRetryPolicy { max_attempts: 1 }
        } else {
            self
        }
    }
}

impl Default for PostgresTransactionRetryPolicy {
    fn default() -> (p: Self)
        ensures
            p.max_attempts == 3,
    {
        PostgresTransactionRetryPolicy { max_attempts: 3 }
    }
}

/// What a reload found after a commit whose acknowledgement was lost.
#[derive(Debug, Clone, PartialEq, Eq, Structural)]
pub enum PostgresCommitResolution {
    Applied,
    NotApplied,
    Contended,
    Unknown { observed_revision: Option<u64> },
}

/// A SQLSTATE that reports a lost or refused connection: class 08, or an
/// administrator, crash or startup shutdown.
pub open spec fn connection_sqlstate(code: Seq<char>) -> bool {
    (code.len() >= 2 && code[0] == '0' && code[1] == '8') || code == "57P01"@ || code == "57P02"@
        || code == "57P03"@
}

/// How a failure with SQLSTATE `code` (none when the error carries no
/// database code) in `phase` is treated. Serialization failures and
/// deadlocks abort the transaction; a lost connection before commit leaves
/// nothing committed; a lost connection during commit leaves the outcome
/// unknown; anything else is fatal.
pub open spec fn failure_disposition(
    code: Option<Seq<char>>,
    phase: PostgresFailurePhase,
) -> PostgresFailureDisposition {
    match code {
        Some(c) if c == "40001"@ || c == "40P01"@ => PostgresFailureDisposition::RetryableAbortedTransaction,
        _ => {
            let connection_like = match code {
                None => true,
                Some(c) => connection_sqlstate(c),
            };
            if connection_like {
                if phase == PostgresFailurePhase::Commit {
                    PostgresFailureDisposition::CommitOutcomeUnknown
                } else {
                    PostgresFailureDisposition::RetryableBeforeCommit
                }
            } else {
                PostgresFailureDisposition::Fatal
            }
        },
    }
}

/// Classifies a failure by its SQLSTATE code and the phase it happened in.
pub fn classify_sqlstate(code: Option<&str>, phase: PostgresFailurePhase) -> (d:
    PostgresFailureDisposition)
    ensures
        d == failure_disposition(
            match code {
                Some(c) => Some(c@),
                None => None,
            },
            phase,
        ),
{
    let connection_like = match code {
        Some(c) => {
            if text_is(c, "40001") || text_is(c, "40P01") {
                proof {
                    reveal_strlit("40001");
                    reveal_strlit("40P01");
                }
                return PostgresFailureDisposition::RetryableAbortedTransaction;
            }
            let n = c.unicode_len();
            (n >= 2 && c.get_char(0) == '0' && c.get_char(1) == '8') || text_is(c, "57P01") || text_is(
                c,
                "57P02",
            ) || text_is(c, "57P03")
        },
        None => true,
    };
    if connection_like {
        if phase == PostgresFailurePhase::Commit {
            PostgresFailureDisposition::CommitOutcomeUnknown
        } else {
            PostgresFailureDisposition::RetryableBeforeCommit
        }
    } else {
        PostgresFailureDisposition::Fatal
    }
}

#[verifier::external_type_specification]
#[verifier::external_body]
pub struct ExPostgresError(postgres::Error);

/// The SQLSTATE code of a database error.
///
/// Calls `postgres::Error::code`, which reads the code of the database error
/// the failure carries and gives none for a failure that carries none (a
/// closed connection or an I/O error); nothing is stated of the result.
#[verifier::external_body]
fn sqlstate(error: &postgres::Error) -> (r: Option<String>) {
    error.code().map(postgres::error::SqlState::code).map(str::to_owned)
}

/// Classifies a PostgreSQL failure by the SQLSTATE code it carries and the
/// phase it happened in.
pub fn classify_postgres_failure(error: &postgres::Error, phase: PostgresFailurePhase) -> (d:
    PostgresFailureDisposition)
    ensures
        exists|code: Option<Seq<char>>| d == #[trigger] failure_disposition(code, phase),
{
    let code = sqlstate(error);
    let d = match &code {
        Some(c) => classify_sqlstate(Some(c.as_str()), phase),
        None => classify_sqlstate(None, phase),
    };
    proof {
        let witness = match code {
            Some(c) => Some(c@),
            None => None,
        };
        assert(d == failure_disposition(witness, phase));
    }
    d
}

} // verus!
