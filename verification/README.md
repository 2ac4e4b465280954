# lifetra

Lifetra models the living trajectory of an idea or entity and guards the
side effects that move it forward. Its core is a verified library, written in
Verus: every public function states what it returns in its contract, and the
laws of the library (no blind resend after a crash, fencing by lease epoch,
read-back of what is written) are stated and proved as proof functions.

## Layout

- `src/` — the verified library.
  - Beads and chains: `bead`, `bead_chain`, `trajectory`, `thread_graph`,
    `text_order`.
  - Deciding and retrying: `authority`, `execution_receipt`, `reconciliation`,
    `attempt_ledger`, `quorum_fencing`.
  - Leases and fencing: `recovery_lease`, `fenced_actuator`,
    `unified_fenced_store`, with the in-memory reference stores over
    `shared_state` and `keyed_table`.
  - The durable journal: `durable_journal`, `journal_core`, `journal_format`,
    `codec`, `fenced_journal`.
  - PostgreSQL and providers: `postgres_resilience`, `postgres_unified_store`,
    `unified_record_format`, `provider_reconciliation`.
  - The actuator receipt bridge: `actuator_receipt_bridge`, `bridge_format`.
- `tests/` — tests of the library, run against the compiled crate.
- `app/` — what the library leaves to ordinary Rust: file and database I/O
  (the journal and bridge files, the PostgreSQL store and its retry loop, the
  provider loop) and the floating-point dimensions of an entity (orientation,
  resonance, synergy, correction and decision authority on `f32` scores).

Trusted code is kept to small wrappers around single calls into std and the
`postgres` crate; each one's doc comment says what its contract claims.
