//! Lifetra execution-safety library: authority tickets, retry and
//! reconciliation decisions, attempt ledgers, leases with fencing epochs,
//! fenced actuators, quorum fencing, the unified fenced action record and
//! proof-carrying chains of trajectory beads.

pub mod text;
pub mod primitives;
pub mod trajectory;
pub mod bead;
pub mod authority;
pub mod execution_receipt;
pub mod reconciliation;
pub mod attempt_ledger;
pub mod quorum_fencing;
pub mod shared_state;
pub mod recovery_lease;
pub mod keyed_table;
pub mod fenced_actuator;
pub mod unified_fenced_store;
pub mod durable_journal;
pub mod codec;
pub mod journal_format;
pub mod journal_core;
pub mod postgres_resilience;
pub mod postgres_unified_store;
pub mod unified_record_format;
pub mod provider_reconciliation;
pub mod fenced_journal;
pub mod actuator_receipt_bridge;
pub mod bridge_format;
pub mod text_order;
pub mod bead_chain;
pub mod thread_graph;

pub use actuator_receipt_bridge::{
    ActuatorBridgeBinding, ActuatorBridgeDirective, ActuatorBridgeError,
    ActuatorBridgeReconcileError, ActuatorBridgeRuntimeError, ActuatorRecoveryAdapter,
    ActuatorRecoveryObservation, ActuatorRecoveryOutcome, ActuatorRecoveryQuery,
    DurableActuatorEvidence, PreparedActuatorCall, RecoveredActuatorBridge,
};
pub use attempt_ledger::{
    AttemptBlock, AttemptDispatchReceipt, AttemptExternalReceipt, AttemptId, AttemptLedger,
    AttemptReconciliationReceipt, AttemptRecord, AttemptStatus,
};
pub use authority::{
    ApprovalState, AuthorityContext, AuthorityReason, AuthorityVerdict, AutonomyLevel,
    CorrectionBlock, CorrectionMemory, ExecutionMode, OrientationBlock, SafetyConfigBlock,
};
pub use bead_chain::{BeadAggregate, BeadChain, TrajectoryBead};
pub use bead::{
    AggregationBlock, BeadCommit, BeadId, BeadScale, ChainBlock, CommitBlock, EvidenceRef,
    EvidenceStatus, ProofCarry, SectorKind,
};
pub use durable_journal::{
    JournalError, JournalEvent, PreparedAttempt, PreparedReconciliationReceipt, RecoveredRuntime,
    RecoveryDirective,
};
pub use journal_core::{JournalAppend, JournalCore, PreparedInProcess};
pub use journal_format::ParsedRecords;
pub use execution_receipt::{
    ActionId, AuthorityTicket, DispatchReceipt, ExecutionBlock, ExecutionOutcome, ExecutionStatus,
    ExecutionTrace, ExternalExecutionReceipt,
};
pub use fenced_journal::{check_permit, FencedDurableJournal, FencedJournalError};
pub use fenced_actuator::{
    FencedActuatorAdapter, FencedActuatorConfigBlock, FencedActuatorController,
    FencedActuatorError, FencedActuatorOutcome, FencedActuatorReceipt, FencedActuatorRejection,
    FencedActuatorRequest, InMemoryActuatorAuthority, InMemoryAppliedEffect,
    InMemoryFencedActuator, InMemoryFencedActuatorError,
};
pub use postgres_resilience::{
    classify_postgres_failure, classify_sqlstate, PostgresCommitResolution,
    PostgresFailureDisposition, PostgresFailurePhase, PostgresTransactionRetryPolicy,
};
pub use postgres_unified_store::{
    CasFailureStep, CasResolutionStep, CasWrite, PostgresUnifiedFencedStore,
    PostgresUnifiedStoreError,
};
pub use primitives::{EntityId, Timestamp};
pub use provider_reconciliation::{
    ProviderObservation, ProviderReconciler, ProviderReconciliationAdapter,
    ProviderReconciliationError, ProviderReconciliationPhase, ProviderReconciliationQuery,
    ProviderReconciliationResult, RetryBlockOrAttempt,
};
pub use quorum_fencing::{
    CoordinatorId, DatabaseNodeId, FenceGrant, FenceOutcome, FenceReceipt, LeadershipGeneration,
    PromotionPermit, PromotionRequest, QuorumFencingAuthority, QuorumFencingError, QuorumVote,
    QuorumVoteDecision,
};
pub use reconciliation::{
    IdempotencyBinding, ReconciliationOutcome, ReconciliationReceipt, RetryAuthority, RetryBlock,
    RetryContext, RetryDecision, RetryPolicy, RetryReason, RetryVerdict,
};
pub use recovery_lease::{
    FencedAttemptPermit, FencingToken, InMemoryLeaseError, InMemoryRecoveryLeaseStore,
    LeaseConfigBlock, LeaseVersion, RecoveryLease, RecoveryLeaseBlock, RecoveryLeaseManager,
    RecoveryLeaseStore, RecoveryWorkerId,
};
pub use unified_fenced_store::{
    InMemoryUnifiedFencedStore, InMemoryUnifiedStoreError, UnifiedActionRecord,
    UnifiedConfigBlock, UnifiedDispatchEvidence, UnifiedEffectEvidence, UnifiedEffectOutcome,
    UnifiedEvidenceCommit, UnifiedEvidenceSource, UnifiedFencedBlock, UnifiedFencedRuntime,
    UnifiedFencedStore, UnifiedFencingToken, UnifiedLeaseAuthority, UnifiedOperationBinding,
    UnifiedPreparedAttempt, UnifiedProjectionMarker, UnifiedReconciliationObservation,
    UnifiedRuntimeDirective,
};
pub use trajectory::{BeadTransitionKind, LifecycleStage, StateTransition, TemporalGranularity, TimeWindow};
