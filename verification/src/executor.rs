//! Sequential storage execution for an [`IntegrationPlan`].
//!
//! The executor applies only storage operations from an already computed plan;
//! it never recomputes desired state and never invokes the planner. It is a
//! machine: [`StorageExecutor::action`] says what is to be done next, and
//! [`StorageExecutor::handle`] takes what came of it.
//!
//! Safety protocol for every mutable remote operation:
//!
//! ```text
//! local validation
//!     -> Pending recorded and durably persisted
//!     -> remote operation
//!     -> known result recorded (Confirmed, removal, or Unknown)
//!     -> durable persistence
//! ```
//!
//! The persisted `Pending` always precedes the remote call. If the remote
//! outcome cannot be determined, the entry becomes `Unknown`, the ledger is
//! persisted, and execution stops: no automatic retry and no further
//! operations. If the provider provably rejected the operation without a
//! remote effect, the previously known ledger state is restored and persisted
//! instead.

use crate::file_source::{
    source_problem, source_problem_text, FileObservation, FileObservationView, SourceRole,
};
use crate::inventory::Duplicate;
use crate::ledger::{
    law_record_then_remove_object, law_recorded_object_accepted, law_removed_object_accepted,
    law_rerecord_object, ledger_failure_text, ledger_valid, optional_ledger, r2_entry_of,
    r2_recorded, r2_removed, status_name, status_text, with_r2, without_r2, IntegrationLedger,
    LedgerErrorView, LedgerFailure, LedgerFailureView, LedgerView, OperationState, R2EntryView,
    R2InventoryEntry,
};
use crate::paths::{is_portable_path, ObjectKey, PublicationPath};
use crate::planner::{
    copy_requirements, operations_view, requirements_view, DesiredObjectView, DesiredStorageObject,
    IntegrationOperation, IntegrationPlan, OperationView, ReconciliationRequirement,
    RequirementView,
};
use crate::provider::{
    FailureKind, FailureView, ProviderError, ProviderErrorText, ProviderFailure, StorageObject,
    StorageObjectView,
};
use crate::text::{
    copy_option, decimal, decimal_text, is_sha256_text, joined, joined3, same_option, same_text,
};
use vstd::prelude::*;

verus! {

// ---------------------------------------------------------------------------
// Errors
// ---------------------------------------------------------------------------
/// Why storage execution failed.
///
/// Every variant that refers to an object stops execution immediately; the
/// durable ledger always reflects the last safely known state.
#[derive(Debug, PartialEq, Eq)]
pub enum StorageExecutionError {
    /// The plan carries reconciliation requirements; nothing was executed.
    ReconciliationRequired(Vec<ReconciliationRequirement>),
    /// The publication output directory could not be resolved.
    InvalidRoot(String),
    /// A planned operation contradicts the ledger state handed to the
    /// executor; no ledger or remote change was made.
    InconsistentPlan(String),
    /// Local source validation failed before any ledger or remote change.
    LocalValidation { key: ObjectKey, message: String },
    /// The provider provably produced no remote effect; the previous ledger
    /// state was restored and persisted.
    Rejected { key: ObjectKey, message: String },
    /// The remote outcome cannot be determined; `Unknown` was persisted and
    /// execution stopped without retrying.
    Ambiguous { key: ObjectKey, message: String },
    /// The provider acknowledged a PUT whose returned metadata differs from
    /// the desired object; the returned state was recorded as `Confirmed` and
    /// execution stopped.
    InconsistentUpload { key: ObjectKey, message: String },
    /// The ledger could not be mutated or persisted.
    Ledger(LedgerFailure),
}

/// The mathematical form of a storage error.
pub enum StorageErrorView {
    ReconciliationRequired(Seq<RequirementView>),
    InvalidRoot(Seq<char>),
    InconsistentPlan(Seq<char>),
    LocalValidation(Seq<char>, Seq<char>),
    Rejected(Seq<char>, Seq<char>),
    Ambiguous(Seq<char>, Seq<char>),
    InconsistentUpload(Seq<char>, Seq<char>),
    Ledger(LedgerFailureView),
}

impl View for StorageExecutionError {
    type V = StorageErrorView;

    open spec fn view(&self) -> StorageErrorView {
        match *self {
            StorageExecutionError::ReconciliationRequired(requirements) =>
                StorageErrorView::ReconciliationRequired(requirements_view(requirements@)),
            StorageExecutionError::InvalidRoot(text) => StorageErrorView::InvalidRoot(text@),
            StorageExecutionError::InconsistentPlan(text) => StorageErrorView::InconsistentPlan(
                text@,
            ),
            StorageExecutionError::LocalValidation { key, message } =>
                StorageErrorView::LocalValidation(key@, message@),
            StorageExecutionError::Rejected { key, message } => StorageErrorView::Rejected(
                key@,
                message@,
            ),
            StorageExecutionError::Ambiguous { key, message } => StorageErrorView::Ambiguous(
                key@,
                message@,
            ),
            StorageExecutionError::InconsistentUpload { key, message } =>
                StorageErrorView::InconsistentUpload(key@, message@),
            StorageExecutionError::Ledger(failure) => StorageErrorView::Ledger(failure@),
        }
    }
}

/// The error in words.
pub open spec fn storage_error_text(e: StorageErrorView) -> Seq<char> {
    match e {
        StorageErrorView::ReconciliationRequired(requirements) =>
            "storage execution requires reconciliation first ("@ + decimal_text(requirements.len())
                + " requirement(s))"@,
        StorageErrorView::InvalidRoot(text) =>
            "failed to resolve the publication output directory: "@ + text,
        StorageErrorView::InconsistentPlan(text) => "inconsistent plan: "@ + text,
        StorageErrorView::LocalValidation(key, message) => key + ": "@ + message,
        StorageErrorView::Rejected(key, message) => key + ": "@ + message,
        StorageErrorView::Ambiguous(key, message) => key + ": "@ + message,
        StorageErrorView::InconsistentUpload(key, message) => key + ": "@ + message,
        StorageErrorView::Ledger(failure) => ledger_failure_text(failure),
    }
}

impl StorageExecutionError {
    /// The error in words.
    pub fn message(&self) -> (r: String)
        ensures
            r@ == storage_error_text(self@),
    {
        match self {
            StorageExecutionError::ReconciliationRequired(requirements) => {
                let count: String = decimal(requirements.len() as u64);
                joined3(
                    "storage execution requires reconciliation first (",
                    count.as_str(),
                    " requirement(s))",
                )
            },
            StorageExecutionError::InvalidRoot(text) => joined(
                "failed to resolve the publication output directory: ",
                text.as_str(),
            ),
            StorageExecutionError::InconsistentPlan(text) => joined(
                "inconsistent plan: ",
                text.as_str(),
            ),
            StorageExecutionError::LocalValidation { key, message } => joined3(
                key.as_str(),
                ": ",
                message.as_str(),
            ),
            StorageExecutionError::Rejected { key, message } => joined3(
                key.as_str(),
                ": ",
                message.as_str(),
            ),
            StorageExecutionError::Ambiguous { key, message } => joined3(
                key.as_str(),
                ": ",
                message.as_str(),
            ),
            StorageExecutionError::InconsistentUpload { key, message } => joined3(
                key.as_str(),
                ": ",
                message.as_str(),
            ),
            StorageExecutionError::Ledger(failure) => failure.message(),
        }
    }
}

/// The mathematical form of an optional error.
pub open spec fn storage_failure(e: Option<StorageExecutionError>) -> Option<StorageErrorView> {
    match e {
        Some(error) => Some(error@),
        None => None,
    }
}

/// Storage operations completed by one run.
#[derive(Debug, PartialEq, Eq)]
pub struct StorageExecutionReport {
    pub uploaded: Vec<ObjectKey>,
    pub deleted: Vec<ObjectKey>,
}

impl Default for StorageExecutionReport {
    /// The report of a run that had nothing to do.
    fn default() -> (r: Self)
        ensures
            r.uploaded@ == Seq::<ObjectKey>::empty(),
            r.deleted@ == Seq::<ObjectKey>::empty(),
    {
        StorageExecutionReport { uploaded: Vec::new(), deleted: Vec::new() }
    }
}

// ---------------------------------------------------------------------------
// What a provider failure means
// ---------------------------------------------------------------------------
/// Whether a storage failure provably left the remote state untouched.
///
/// I/O, key, path, missing credential and unsupported-operation failures come
/// before any request; authentication, permission and missing-bucket
/// rejections are evaluated before the mutation takes effect. Everything else
/// may have reached the service after the mutation was applied.
pub open spec fn failure_kind(error: ProviderErrorText) -> FailureKind {
    match error {
        ProviderErrorText::Network
        | ProviderErrorText::Conflict
        | ProviderErrorText::AlreadyExists
        | ProviderErrorText::Integrity
        | ProviderErrorText::Other => FailureKind::Ambiguous,
        _ => FailureKind::NoEffect,
    }
}

/// Whether a storage failure provably left the remote state untouched.
pub fn classify_failure(error: &ProviderError) -> (r: FailureKind)
    ensures
        r == failure_kind(error@),
{
    match error {
        ProviderError::Io(_)
        | ProviderError::InvalidKey(_)
        | ProviderError::InvalidPath(_)
        | ProviderError::AuthenticationRequired
        | ProviderError::Unsupported
        | ProviderError::AuthenticationFailed
        | ProviderError::PermissionDenied
        | ProviderError::NotFound => FailureKind::NoEffect,
        ProviderError::Network
        | ProviderError::Conflict
        | ProviderError::AlreadyExists
        | ProviderError::Integrity
        | ProviderError::Other => FailureKind::Ambiguous,
    }
}

// ---------------------------------------------------------------------------
// The machine
// ---------------------------------------------------------------------------
/// What the machine waits for.
#[derive(Debug, PartialEq, Eq)]
enum StorageStage {
    /// The source file of an upload is looked at.
    Examine,
    /// The pending entry is written.
    PersistPending,
    /// The remote operation is carried out.
    Remote,
    /// Its outcome is written, and the run then goes on or ends with the error.
    PersistOutcome(Option<StorageExecutionError>),
    /// Nothing: the run has ended.
    Done(Option<StorageExecutionError>),
}

/// The mathematical form of a stage.
pub enum StorageStageView {
    Examine,
    PersistPending,
    Remote,
    PersistOutcome(Option<StorageErrorView>),
    Done(Option<StorageErrorView>),
}

impl View for StorageStage {
    type V = StorageStageView;

    closed spec fn view(&self) -> StorageStageView {
        match *self {
            StorageStage::Examine => StorageStageView::Examine,
            StorageStage::PersistPending => StorageStageView::PersistPending,
            StorageStage::Remote => StorageStageView::Remote,
            StorageStage::PersistOutcome(e) => StorageStageView::PersistOutcome(storage_failure(e)),
            StorageStage::Done(e) => StorageStageView::Done(storage_failure(e)),
        }
    }
}

/// What came of an action.
#[derive(Debug, PartialEq, Eq)]
pub enum StorageEvent {
    /// The source file was looked at.
    Examined(FileObservation),
    /// The ledger was written.
    Persisted,
    /// The ledger could not be written. The durable ledger, where it can be
    /// read, stays authoritative.
    NotPersisted { durable: Option<IntegrationLedger>, message: String },
    /// The upload returned.
    Stored(Result<StorageObject, ProviderFailure>),
    /// The deletion returned.
    Deleted(Result<(), ProviderFailure>),
}

/// The mathematical form of an event.
pub enum StorageEventView {
    Examined(FileObservationView),
    Persisted,
    NotPersisted(Option<LedgerView>, Seq<char>),
    Stored(Result<StorageObjectView, FailureView>),
    Deleted(Result<(), FailureView>),
}

impl View for StorageEvent {
    type V = StorageEventView;

    open spec fn view(&self) -> StorageEventView {
        match *self {
            StorageEvent::Examined(seen) => StorageEventView::Examined(seen@),
            StorageEvent::Persisted => StorageEventView::Persisted,
            StorageEvent::NotPersisted { durable, message } => StorageEventView::NotPersisted(
                optional_ledger(durable),
                message@,
            ),
            StorageEvent::Stored(outcome) => StorageEventView::Stored(
                match outcome {
                    Ok(object) => Ok(object@),
                    Err(failure) => Err(failure@),
                },
            ),
            StorageEvent::Deleted(outcome) => StorageEventView::Deleted(
                match outcome {
                    Ok(()) => Ok(()),
                    Err(failure) => Err(failure@),
                },
            ),
        }
    }
}

/// What is to be done next.
#[derive(Debug, PartialEq, Eq)]
pub enum StorageAction<'a> {
    /// Look at the source file below the output directory.
    Examine(&'a PublicationPath),
    /// Write the ledger.
    Persist(&'a IntegrationLedger),
    /// Upload the source file of the object.
    Put(&'a DesiredStorageObject),
    /// Delete the object.
    Delete(&'a ObjectKey),
    /// Nothing: the run has ended.
    Finished,
}

/// The mathematical form of an action.
pub enum StorageActionView {
    Examine(Seq<char>),
    Persist(LedgerView),
    Put(DesiredObjectView),
    Delete(Seq<char>),
    Finished,
}

impl<'a> View for StorageAction<'a> {
    type V = StorageActionView;

    open spec fn view(&self) -> StorageActionView {
        match *self {
            StorageAction::Examine(path) => StorageActionView::Examine(path@),
            StorageAction::Persist(ledger) => StorageActionView::Persist(ledger@),
            StorageAction::Put(object) => StorageActionView::Put(object@),
            StorageAction::Delete(key) => StorageActionView::Delete(key@),
            StorageAction::Finished => StorageActionView::Finished,
        }
    }
}

/// Executes the storage operations of a plan, one after the other.
#[derive(Debug, PartialEq, Eq)]
pub struct StorageExecutor {
    operations: Vec<IntegrationOperation>,
    index: usize,
    ledger: IntegrationLedger,
    previous: Option<R2InventoryEntry>,
    stage: StorageStage,
}

/// The mathematical form of a run.
pub struct StorageRun {
    pub operations: Seq<OperationView>,
    /// The operation that is carried out; those before it are complete.
    pub index: int,
    pub ledger: LedgerView,
    /// What the ledger said of the object before the operation.
    pub previous: Option<R2EntryView>,
    pub stage: StorageStageView,
}

/// The mathematical form of an optional entry.
pub open spec fn optional_r2(e: Option<R2InventoryEntry>) -> Option<R2EntryView> {
    match e {
        Some(entry) => Some(entry@),
        None => None,
    }
}

impl View for StorageExecutor {
    type V = StorageRun;

    closed spec fn view(&self) -> StorageRun {
        StorageRun {
            operations: operations_view(self.operations@),
            index: self.index as int,
            ledger: self.ledger@,
            previous: optional_r2(self.previous),
            stage: self.stage@,
        }
    }
}

/// Whether an operation is one on storage.
pub open spec fn is_storage_operation(operation: OperationView) -> bool {
    operation is PutStorage || operation is DeleteStorage
}

/// Whether a stage fits the operation that is carried out.
pub open spec fn storage_run_fits(run: StorageRun) -> bool {
    &&& 0 <= run.index <= run.operations.len()
    &&& forall|i: int|
        0 <= i < run.operations.len() ==> is_storage_operation(#[trigger] run.operations[i])
    &&& match run.stage {
        StorageStageView::Done(_) => true,
        StorageStageView::Examine => run.index < run.operations.len()
            && run.operations[run.index] is PutStorage,
        _ => run.index < run.operations.len() && (run.operations[run.index] is DeleteStorage
            ==> run.previous is Some),
    }
}

/// What the ledger says of an object.
pub open spec fn r2_entry(ledger: LedgerView, key: Seq<char>) -> Option<R2EntryView> {
    if ledger.r2_inventory.dom().contains(key) {
        Some(ledger.r2_inventory[key])
    } else {
        None
    }
}

/// The desired object as a stored one.
pub open spec fn intended_object(desired: DesiredObjectView) -> StorageObjectView {
    StorageObjectView {
        key: desired.key,
        size_bytes: desired.size_bytes,
        sha256: desired.sha256,
        content_type: desired.content_type,
    }
}

/// A recorded object as a stored one.
pub open spec fn recorded_object(key: Seq<char>, e: R2EntryView) -> StorageObjectView {
    StorageObjectView {
        key,
        size_bytes: e.size_bytes,
        sha256: e.sha256,
        content_type: e.content_type,
    }
}

/// A run that has ended with an error.
pub open spec fn storage_failed(run: StorageRun, e: StorageErrorView) -> StorageRun {
    StorageRun { stage: StorageStageView::Done(Some(e)), ..run }
}

/// A run after a ledger change: it goes on in the stage, or ends where the
/// ledger refused the change.
pub open spec fn storage_changed(
    run: StorageRun,
    change: Result<LedgerView, LedgerErrorView>,
    stage: StorageStageView,
) -> StorageRun {
    match change {
        Ok(ledger) => StorageRun { ledger, stage, ..run },
        Err(e) => storage_failed(run, StorageErrorView::Ledger(LedgerFailureView::Refused(e))),
    }
}

/// A run at the beginning of the operation at its index. An upload needs an
/// absent or confirmed entry, a deletion a confirmed one.
pub open spec fn storage_entered(run: StorageRun) -> StorageRun {
    if run.index >= run.operations.len() {
        StorageRun { stage: StorageStageView::Done(None), ..run }
    } else {
        match run.operations[run.index] {
            OperationView::PutStorage(desired) => {
                let entry = r2_entry(run.ledger, desired.key);
                if entry is Some && entry->0.status != OperationState::Confirmed {
                    storage_failed(
                        run,
                        StorageErrorView::InconsistentPlan(
                            "cannot PUT "@ + desired.key + " while the ledger marks it "@
                                + status_text(entry->0.status),
                        ),
                    )
                } else {
                    StorageRun { previous: entry, stage: StorageStageView::Examine, ..run }
                }
            },
            OperationView::DeleteStorage(key) => match r2_entry(run.ledger, key) {
                None => storage_failed(
                    run,
                    StorageErrorView::InconsistentPlan(
                        "cannot DELETE "@ + key + " because it is absent from the ledger"@,
                    ),
                ),
                Some(entry) => if entry.status != OperationState::Confirmed {
                    storage_failed(
                        run,
                        StorageErrorView::InconsistentPlan(
                            "cannot DELETE "@ + key + " while the ledger marks it "@
                                + status_text(entry.status),
                        ),
                    )
                } else {
                    storage_changed(
                        StorageRun { previous: Some(entry), ..run },
                        r2_recorded(
                            run.ledger,
                            key,
                            recorded_object(key, entry),
                            OperationState::Pending,
                        ),
                        StorageStageView::PersistPending,
                    )
                },
            },
            _ => run,
        }
    }
}

/// A run whose upload returned.
pub open spec fn storage_put_settled(
    run: StorageRun,
    desired: DesiredObjectView,
    outcome: Result<StorageObjectView, FailureView>,
) -> StorageRun {
    let key = desired.key;
    match outcome {
        Ok(returned) => if returned.key != key {
            storage_changed(
                run,
                r2_recorded(run.ledger, key, intended_object(desired), OperationState::Unknown),
                StorageStageView::PersistOutcome(
                    Some(
                        StorageErrorView::Ambiguous(
                            key,
                            "storage provider returned "@ + returned.key
                                + " for a PUT of this key"@,
                        ),
                    ),
                ),
            )
        } else {
            storage_changed(
                run,
                r2_recorded(run.ledger, key, returned, OperationState::Confirmed),
                StorageStageView::PersistOutcome(
                    if returned == intended_object(desired) {
                        None
                    } else {
                        Some(
                            StorageErrorView::InconsistentUpload(
                                key,
                                "stored object metadata does not match the desired object"@,
                            ),
                        )
                    },
                ),
            )
        },
        Err(failure) => match failure_kind(failure.error) {
            FailureKind::NoEffect => storage_changed(
                run,
                match run.previous {
                    None => r2_removed(run.ledger, key),
                    Some(entry) => r2_recorded(
                        run.ledger,
                        key,
                        recorded_object(key, entry),
                        entry.status,
                    ),
                },
                StorageStageView::PersistOutcome(
                    Some(
                        StorageErrorView::Rejected(
                            key,
                            "storage PUT was rejected without a remote effect: "@
                                + failure.description,
                        ),
                    ),
                ),
            ),
            FailureKind::Ambiguous => storage_changed(
                run,
                r2_recorded(run.ledger, key, intended_object(desired), OperationState::Unknown),
                StorageStageView::PersistOutcome(
                    Some(
                        StorageErrorView::Ambiguous(
                            key,
                            "storage PUT outcome cannot be determined: "@ + failure.description,
                        ),
                    ),
                ),
            ),
        },
    }
}

/// A run whose deletion returned. An object that is already gone is deleted.
pub open spec fn storage_delete_settled(
    run: StorageRun,
    key: Seq<char>,
    entry: R2EntryView,
    outcome: Result<(), FailureView>,
) -> StorageRun {
    match outcome {
        Err(failure) if failure.error != ProviderErrorText::NotFound => match failure_kind(
            failure.error,
        ) {
            FailureKind::NoEffect => storage_changed(
                run,
                r2_recorded(
                    run.ledger,
                    key,
                    recorded_object(key, entry),
                    OperationState::Confirmed,
                ),
                StorageStageView::PersistOutcome(
                    Some(
                        StorageErrorView::Rejected(
                            key,
                            "storage DELETE was rejected without a remote effect: "@
                                + failure.description,
                        ),
                    ),
                ),
            ),
            FailureKind::Ambiguous => storage_changed(
                run,
                r2_recorded(
                    run.ledger,
                    key,
                    recorded_object(key, entry),
                    OperationState::Unknown,
                ),
                StorageStageView::PersistOutcome(
                    Some(
                        StorageErrorView::Ambiguous(
                            key,
                            "storage DELETE outcome cannot be determined: "@
                                + failure.description,
                        ),
                    ),
                ),
            ),
        },
        _ => storage_changed(
            run,
            r2_removed(run.ledger, key),
            StorageStageView::PersistOutcome(None),
        ),
    }
}

/// A run whose ledger could not be written.
pub open spec fn storage_not_persisted(
    run: StorageRun,
    durable: Option<LedgerView>,
    message: Seq<char>,
) -> StorageRun {
    StorageRun {
        ledger: match durable {
            Some(ledger) => ledger,
            None => run.ledger,
        },
        stage: StorageStageView::Done(
            Some(StorageErrorView::Ledger(LedgerFailureView::NotPersisted(message))),
        ),
        ..run
    }
}

/// A run after an event. An event that the run does not wait for changes
/// nothing.
pub open spec fn storage_step(run: StorageRun, event: StorageEventView) -> StorageRun {
    match (run.stage, event) {
        (StorageStageView::Examine, StorageEventView::Examined(seen)) => match run.operations[run.index] {
            OperationView::PutStorage(desired) => match source_problem_text(
                SourceRole::SourceFile,
                desired.source_path,
                seen,
                desired.sha256,
                desired.size_bytes,
            ) {
                Some(problem) => storage_failed(
                    run,
                    StorageErrorView::LocalValidation(desired.key, problem),
                ),
                None => storage_changed(
                    run,
                    r2_recorded(
                        run.ledger,
                        desired.key,
                        intended_object(desired),
                        OperationState::Pending,
                    ),
                    StorageStageView::PersistPending,
                ),
            },
            _ => run,
        },
        (StorageStageView::PersistPending, StorageEventView::Persisted) => StorageRun {
            stage: StorageStageView::Remote,
            ..run
        },
        (StorageStageView::PersistPending, StorageEventView::NotPersisted(durable, message)) =>
            storage_not_persisted(run, durable, message),
        (StorageStageView::Remote, StorageEventView::Stored(outcome)) => match run.operations[run.index] {
            OperationView::PutStorage(desired) => storage_put_settled(run, desired, outcome),
            _ => run,
        },
        (StorageStageView::Remote, StorageEventView::Deleted(outcome)) => match run.operations[run.index] {
            OperationView::DeleteStorage(key) => storage_delete_settled(
                run,
                key,
                run.previous->0,
                outcome,
            ),
            _ => run,
        },
        (StorageStageView::PersistOutcome(failure), StorageEventView::Persisted) => match failure {
            Some(e) => storage_failed(run, e),
            None => storage_entered(StorageRun { index: run.index + 1, ..run }),
        },
        (StorageStageView::PersistOutcome(_), StorageEventView::NotPersisted(durable, message)) =>
            storage_not_persisted(run, durable, message),
        _ => run,
    }
}

/// What a run asks for.
pub open spec fn storage_action(run: StorageRun) -> StorageActionView {
    match run.stage {
        StorageStageView::Examine => match run.operations[run.index] {
            OperationView::PutStorage(desired) => StorageActionView::Examine(desired.source_path),
            _ => StorageActionView::Finished,
        },
        StorageStageView::PersistPending => StorageActionView::Persist(run.ledger),
        StorageStageView::Remote => match run.operations[run.index] {
            OperationView::PutStorage(desired) => StorageActionView::Put(desired),
            OperationView::DeleteStorage(key) => StorageActionView::Delete(key),
            _ => StorageActionView::Finished,
        },
        StorageStageView::PersistOutcome(_) => StorageActionView::Persist(run.ledger),
        StorageStageView::Done(_) => StorageActionView::Finished,
    }
}

/// A run at its beginning.
pub open spec fn storage_started(operations: Seq<OperationView>, ledger: LedgerView) -> StorageRun {
    storage_entered(
        StorageRun {
            operations: operations.filter(|o: OperationView| is_storage_operation(o)),
            index: 0,
            ledger,
            previous: None,
            stage: StorageStageView::Done(None),
        },
    )
}

/// The keys of the uploads among operations.
pub open spec fn uploaded_keys(operations: Seq<OperationView>) -> Seq<Seq<char>> {
    operations.filter_map(
        |o: OperationView|
            match o {
                OperationView::PutStorage(desired) => Some(desired.key),
                _ => None,
            },
    )
}

/// The keys of the deletions among operations.
pub open spec fn deleted_keys(operations: Seq<OperationView>) -> Seq<Seq<char>> {
    operations.filter_map(
        |o: OperationView|
            match o {
                OperationView::DeleteStorage(key) => Some(key),
                _ => None,
            },
    )
}

/// The texts of keys.
pub open spec fn keys_view(keys: Seq<ObjectKey>) -> Seq<Seq<char>> {
    Seq::new(keys.len(), |i: int| keys[i]@)
}

fn desired_object(desired: &DesiredStorageObject) -> (r: StorageObject)
    ensures
        r@ == intended_object(desired@),
{
    StorageObject {
        key: desired.key.duplicate(),
        size_bytes: desired.size_bytes,
        sha256: desired.sha256.clone(),
        content_type: copy_option(&desired.content_type),
    }
}

fn existing_object(key: &ObjectKey, entry: &R2InventoryEntry) -> (r: StorageObject)
    ensures
        r@ == recorded_object(key@, entry@),
{
    StorageObject {
        key: key.duplicate(),
        size_bytes: entry.size_bytes,
        sha256: entry.sha256.clone(),
        content_type: copy_option(&entry.content_type),
    }
}

impl StorageExecutor {
    #[verifier::type_invariant]
    spec fn fits(self) -> bool {
        storage_run_fits(self@)
    }

    /// Records an object, then goes on in the stage.
    fn recorded(
        operations: Vec<IntegrationOperation>,
        index: usize,
        ledger: IntegrationLedger,
        previous: Option<R2InventoryEntry>,
        object: &StorageObject,
        status: OperationState,
        stage: StorageStage,
    ) -> (r: StorageExecutor)
        requires
            storage_run_fits(
                (StorageRun {
                    operations: operations_view(operations@),
                    index: index as int,
                    ledger: ledger@,
                    previous: optional_r2(previous),
                    stage: stage@,
                }),
            ),
        ensures
            r@ == storage_changed(
                (StorageRun {
                    operations: operations_view(operations@),
                    index: index as int,
                    ledger: ledger@,
                    previous: optional_r2(previous),
                    stage: stage@,
                }),
                r2_recorded(ledger@, object@.key, object@, status),
                stage@,
            ),
    {
        let mut next: IntegrationLedger = ledger;
        match next.record_r2_object(&object.key, object, status) {
            Ok(()) => StorageExecutor { operations, index, ledger: next, previous, stage },
            Err(e) => StorageExecutor {
                operations,
                index,
                ledger: next,
                previous,
                stage: StorageStage::Done(
                    Some(StorageExecutionError::Ledger(LedgerFailure::Refused(e))),
                ),
            },
        }
    }

    /// Removes an object, then goes on in the stage.
    fn removed(
        operations: Vec<IntegrationOperation>,
        index: usize,
        ledger: IntegrationLedger,
        previous: Option<R2InventoryEntry>,
        key: &ObjectKey,
        stage: StorageStage,
    ) -> (r: StorageExecutor)
        requires
            storage_run_fits(
                (StorageRun {
                    operations: operations_view(operations@),
                    index: index as int,
                    ledger: ledger@,
                    previous: optional_r2(previous),
                    stage: stage@,
                }),
            ),
        ensures
            r@ == storage_changed(
                (StorageRun {
                    operations: operations_view(operations@),
                    index: index as int,
                    ledger: ledger@,
                    previous: optional_r2(previous),
                    stage: stage@,
                }),
                r2_removed(ledger@, key@),
                stage@,
            ),
    {
        let mut next: IntegrationLedger = ledger;
        match next.remove_r2_object(key) {
            Ok(()) => StorageExecutor { operations, index, ledger: next, previous, stage },
            Err(e) => StorageExecutor {
                operations,
                index,
                ledger: next,
                previous,
                stage: StorageStage::Done(
                    Some(StorageExecutionError::Ledger(LedgerFailure::Refused(e))),
                ),
            },
        }
    }

    /// Begins the operation at the index.
    fn enter(
        operations: Vec<IntegrationOperation>,
        index: usize,
        ledger: IntegrationLedger,
        previous: Option<R2InventoryEntry>,
        stage: StorageStage,
    ) -> (r: StorageExecutor)
        requires
            index <= operations@.len(),
            forall|i: int|
                0 <= i < operations@.len() ==> is_storage_operation(
                    #[trigger] operations_view(operations@)[i],
                ),
        ensures
            r@ == storage_entered(
                (StorageRun {
                    operations: operations_view(operations@),
                    index: index as int,
                    ledger: ledger@,
                    previous: optional_r2(previous),
                    stage: stage@,
                }),
            ),
    {
        if index >= operations.len() {
            return StorageExecutor {
                operations,
                index,
                ledger,
                previous,
                stage: StorageStage::Done(None),
            };
        }
        proof {
            assert(operations_view(operations@)[index as int] == operations@[index as int]@);
        }
        match &operations[index] {
            IntegrationOperation::PutStorage(desired) => {
                let entry: Option<R2InventoryEntry> = match ledger.r2_inventory.get(
                    desired.key.as_str(),
                ) {
                    Some(entry) => Some(entry.duplicate()),
                    None => None,
                };
                match &entry {
                    Some(found) => {
                        if found.status != OperationState::Confirmed {
                            let mut text: String = joined3(
                                "cannot PUT ",
                                desired.key.as_str(),
                                " while the ledger marks it ",
                            );
                            text.append(status_name(found.status));
                            return StorageExecutor {
                                operations,
                                index,
                                ledger,
                                previous,
                                stage: StorageStage::Done(
                                    Some(StorageExecutionError::InconsistentPlan(text)),
                                ),
                            };
                        }
                    },
                    None => {},
                }
                StorageExecutor {
                    operations,
                    index,
                    ledger,
                    previous: entry,
                    stage: StorageStage::Examine,
                }
            },
            IntegrationOperation::DeleteStorage { key } => {
                let entry: R2InventoryEntry = match ledger.r2_inventory.get(key.as_str()) {
                    Some(entry) => entry.duplicate(),
                    None => {
                        let text: String = joined3(
                            "cannot DELETE ",
                            key.as_str(),
                            " because it is absent from the ledger",
                        );
                        return StorageExecutor {
                            operations,
                            index,
                            ledger,
                            previous,
                            stage: StorageStage::Done(
                                Some(StorageExecutionError::InconsistentPlan(text)),
                            ),
                        };
                    },
                };
                if entry.status != OperationState::Confirmed {
                    let mut text: String = joined3(
                        "cannot DELETE ",
                        key.as_str(),
                        " while the ledger marks it ",
                    );
                    text.append(status_name(entry.status));
                    return StorageExecutor {
                        operations,
                        index,
                        ledger,
                        previous,
                        stage: StorageStage::Done(
                            Some(StorageExecutionError::InconsistentPlan(text)),
                        ),
                    };
                }
                let object: StorageObject = existing_object(key, &entry);
                Self::recorded(
                    operations,
                    index,
                    ledger,
                    Some(entry),
                    &object,
                    OperationState::Pending,
                    StorageStage::PersistPending,
                )
            },
            _ => StorageExecutor {
                operations,
                index,
                ledger,
                previous,
                stage: StorageStage::Done(None),
            },
        }
    }

    /// Starts a run. A plan that still carries reconciliation requirements is
    /// refused and nothing is executed.
    pub fn new(plan: &IntegrationPlan, ledger: IntegrationLedger) -> (r: Result<
        StorageExecutor,
        StorageExecutionError,
    >)
        ensures
            match r {
                Ok(run) => plan@.requirements.len() == 0 && run@ == storage_started(
                    plan@.operations,
                    ledger@,
                ) && storage_run_fits(run@),
                Err(e) => plan@.requirements.len() > 0 && e@
                    == StorageErrorView::ReconciliationRequired(plan@.requirements),
            },
    {
        if plan.reconciliation_requirements.len() > 0 {
            return Err(
                StorageExecutionError::ReconciliationRequired(
                    copy_requirements(&plan.reconciliation_requirements),
                ),
            );
        }
        let ghost all = operations_view(plan.operations@);
        let ghost on_storage = |o: OperationView| is_storage_operation(o);
        let mut operations: Vec<IntegrationOperation> = Vec::new();
        let mut i: usize = 0;
        proof {
            reveal(Seq::filter);
            assert(operations_view(operations@) =~= all.take(0).filter(on_storage));
        }
        while i < plan.operations.len()
            invariant
                i <= plan.operations@.len(),
                all == operations_view(plan.operations@),
                on_storage == (|o: OperationView| is_storage_operation(o)),
                operations_view(operations@) == all.take(i as int).filter(on_storage),
                forall|j: int|
                    0 <= j < operations@.len() ==> is_storage_operation(
                        #[trigger] operations_view(operations@)[j],
                    ),
            decreases plan.operations@.len() - i,
        {
            let ghost before = operations_view(operations@);
            proof {
                reveal(Seq::filter);
                assert(all[i as int] == plan.operations@[i as int]@);
                assert(all.take(i as int + 1).drop_last() =~= all.take(i as int));
                assert(all.take(i as int + 1).last() == all[i as int]);
            }
            let wanted: bool = match &plan.operations[i] {
                IntegrationOperation::PutStorage(_) => true,
                IntegrationOperation::DeleteStorage { .. } => true,
                _ => false,
            };
            if wanted {
                operations.push(plan.operations[i].duplicate());
                proof {
                    let after = operations_view(operations@);
                    assert(after =~= before.push(all[i as int]));
                    assert forall|j: int| 0 <= j < operations@.len() implies is_storage_operation(
                        #[trigger] after[j],
                    ) by {
                        if j < before.len() {
                            assert(after[j] == before[j]);
                        }
                    }
                }
            }
            i = i + 1;
        }
        proof {
            assert(all.take(all.len() as int) =~= all);
        }
        let run: StorageExecutor = Self::enter(operations, 0, ledger, None, StorageStage::Done(None));
        proof {
            use_type_invariant(&run);
        }
        Ok(run)
    }

    /// What is to be done next.
    pub fn action(&self) -> (r: StorageAction<'_>)
        ensures
            r@ == storage_action(self@),
            r@ is Finished <==> self@.stage is Done,
    {
        proof {
            use_type_invariant(self);
            if self.index < self.operations@.len() {
                assert(operations_view(self.operations@)[self.index as int]
                    == self.operations@[self.index as int]@);
            }
        }
        match &self.stage {
            StorageStage::Examine => match &self.operations[self.index] {
                IntegrationOperation::PutStorage(desired) => StorageAction::Examine(
                    &desired.source_path,
                ),
                _ => StorageAction::Finished,
            },
            StorageStage::PersistPending => StorageAction::Persist(&self.ledger),
            StorageStage::Remote => match &self.operations[self.index] {
                IntegrationOperation::PutStorage(desired) => StorageAction::Put(desired),
                IntegrationOperation::DeleteStorage { key } => StorageAction::Delete(key),
                _ => StorageAction::Finished,
            },
            StorageStage::PersistOutcome(_) => StorageAction::Persist(&self.ledger),
            StorageStage::Done(_) => StorageAction::Finished,
        }
    }

    /// The ledger as the run has changed it so far.
    pub fn ledger(&self) -> (r: &IntegrationLedger)
        ensures
            r@ == self@.ledger,
    {
        &self.ledger
    }

    /// Settles an upload.
    fn settle_put(
        operations: Vec<IntegrationOperation>,
        index: usize,
        ledger: IntegrationLedger,
        previous: Option<R2InventoryEntry>,
        desired: DesiredStorageObject,
        outcome: Result<StorageObject, ProviderFailure>,
    ) -> (r: StorageExecutor)
        requires
            index < operations@.len(),
            forall|i: int|
                0 <= i < operations@.len() ==> is_storage_operation(
                    #[trigger] operations_view(operations@)[i],
                ),
            operations_view(operations@)[index as int] == OperationView::PutStorage(desired@),
        ensures
            r@ == storage_put_settled(
                (StorageRun {
                    operations: operations_view(operations@),
                    index: index as int,
                    ledger: ledger@,
                    previous: optional_r2(previous),
                    stage: StorageStageView::Remote,
                }),
                desired@,
                match outcome {
                    Ok(object) => Ok(object@),
                    Err(failure) => Err(failure@),
                },
            ),
    {
        let key: ObjectKey = desired.key.duplicate();
        match outcome {
            Ok(returned) => {
                if !same_text(returned.key.as_str(), key.as_str()) {
                    let message: String = joined3(
                        "storage provider returned ",
                        returned.key.as_str(),
                        " for a PUT of this key",
                    );
                    let object: StorageObject = desired_object(&desired);
                    return Self::recorded(
                        operations,
                        index,
                        ledger,
                        previous,
                        &object,
                        OperationState::Unknown,
                        StorageStage::PersistOutcome(
                            Some(StorageExecutionError::Ambiguous { key, message }),
                        ),
                    );
                }
                let exact: bool = same_text(returned.sha256.as_str(), desired.sha256.as_str())
                    && returned.size_bytes == desired.size_bytes && same_option(
                    &returned.content_type,
                    &desired.content_type,
                );
                let failure: Option<StorageExecutionError> = if exact {
                    None
                } else {
                    Some(
                        StorageExecutionError::InconsistentUpload {
                            key,
                            message: "stored object metadata does not match the desired object".to_owned(),
                        },
                    )
                };
                Self::recorded(
                    operations,
                    index,
                    ledger,
                    previous,
                    &returned,
                    OperationState::Confirmed,
                    StorageStage::PersistOutcome(failure),
                )
            },
            Err(failure) => match classify_failure(&failure.error) {
                FailureKind::NoEffect => {
                    let message: String = joined(
                        "storage PUT was rejected without a remote effect: ",
                        failure.description.as_str(),
                    );
                    let stage: StorageStage = StorageStage::PersistOutcome(
                        Some(StorageExecutionError::Rejected { key, message }),
                    );
                    match previous {
                        None => Self::removed(
                            operations,
                            index,
                            ledger,
                            None,
                            &desired.key,
                            stage,
                        ),
                        Some(entry) => {
                            let object: StorageObject = existing_object(&desired.key, &entry);
                            let status: OperationState = entry.status;
                            Self::recorded(
                                operations,
                                index,
                                ledger,
                                Some(entry),
                                &object,
                                status,
                                stage,
                            )
                        },
                    }
                },
                FailureKind::Ambiguous => {
                    let message: String = joined(
                        "storage PUT outcome cannot be determined: ",
                        failure.description.as_str(),
                    );
                    let object: StorageObject = desired_object(&desired);
                    Self::recorded(
                        operations,
                        index,
                        ledger,
                        previous,
                        &object,
                        OperationState::Unknown,
                        StorageStage::PersistOutcome(
                            Some(StorageExecutionError::Ambiguous { key, message }),
                        ),
                    )
                },
            },
        }
    }

    /// Settles a deletion.
    fn settle_delete(
        operations: Vec<IntegrationOperation>,
        index: usize,
        ledger: IntegrationLedger,
        entry: R2InventoryEntry,
        key: ObjectKey,
        outcome: Result<(), ProviderFailure>,
    ) -> (r: StorageExecutor)
        requires
            index < operations@.len(),
            forall|i: int|
                0 <= i < operations@.len() ==> is_storage_operation(
                    #[trigger] operations_view(operations@)[i],
                ),
            operations_view(operations@)[index as int] == OperationView::DeleteStorage(key@),
        ensures
            r@ == storage_delete_settled(
                (StorageRun {
                    operations: operations_view(operations@),
                    index: index as int,
                    ledger: ledger@,
                    previous: Some(entry@),
                    stage: StorageStageView::Remote,
                }),
                key@,
                entry@,
                match outcome {
                    Ok(()) => Ok(()),
                    Err(failure) => Err(failure@),
                },
            ),
    {
        let failure: ProviderFailure = match outcome {
            Ok(()) => {
                return Self::removed(
                    operations,
                    index,
                    ledger,
                    Some(entry),
                    &key,
                    StorageStage::PersistOutcome(None),
                );
            },
            Err(failure) => failure,
        };
        match &failure.error {
            ProviderError::NotFound => {
                return Self::removed(
                    operations,
                    index,
                    ledger,
                    Some(entry),
                    &key,
                    StorageStage::PersistOutcome(None),
                );
            },
            _ => {},
        }
        let object: StorageObject = existing_object(&key, &entry);
        match classify_failure(&failure.error) {
            FailureKind::NoEffect => {
                let message: String = joined(
                    "storage DELETE was rejected without a remote effect: ",
                    failure.description.as_str(),
                );
                Self::recorded(
                    operations,
                    index,
                    ledger,
                    Some(entry),
                    &object,
                    OperationState::Confirmed,
                    StorageStage::PersistOutcome(
                        Some(StorageExecutionError::Rejected { key, message }),
                    ),
                )
            },
            FailureKind::Ambiguous => {
                let message: String = joined(
                    "storage DELETE outcome cannot be determined: ",
                    failure.description.as_str(),
                );
                Self::recorded(
                    operations,
                    index,
                    ledger,
                    Some(entry),
                    &object,
                    OperationState::Unknown,
                    StorageStage::PersistOutcome(
                        Some(StorageExecutionError::Ambiguous { key, message }),
                    ),
                )
            },
        }
    }

    /// Takes what came of the action. An event that the run does not wait for
    /// changes nothing.
    pub fn handle(self, event: StorageEvent) -> (r: StorageExecutor)
        ensures
            r@ == storage_step(self@, event@),
    {
        proof {
            use_type_invariant(&self);
            assert(self.operations.len() <= usize::MAX);
            if self.index < self.operations@.len() {
                assert(operations_view(self.operations@)[self.index as int]
                    == self.operations@[self.index as int]@);
            }
        }
        let StorageExecutor { operations, index, ledger, previous, stage } = self;
        match (stage, event) {
            (StorageStage::Examine, StorageEvent::Examined(seen)) => {
                let desired: DesiredStorageObject = match &operations[index] {
                    IntegrationOperation::PutStorage(desired) => desired.duplicate(),
                    _ => {
                        return StorageExecutor {
                            operations,
                            index,
                            ledger,
                            previous,
                            stage: StorageStage::Examine,
                        };
                    },
                };
                match source_problem(
                    SourceRole::SourceFile,
                    desired.source_path.as_str(),
                    &seen,
                    desired.sha256.as_str(),
                    desired.size_bytes,
                ) {
                    Some(message) => StorageExecutor {
                        operations,
                        index,
                        ledger,
                        previous,
                        stage: StorageStage::Done(
                            Some(
                                StorageExecutionError::LocalValidation {
                                    key: desired.key,
                                    message,
                                },
                            ),
                        ),
                    },
                    None => {
                        let object: StorageObject = desired_object(&desired);
                        Self::recorded(
                            operations,
                            index,
                            ledger,
                            previous,
                            &object,
                            OperationState::Pending,
                            StorageStage::PersistPending,
                        )
                    },
                }
            },
            (StorageStage::PersistPending, StorageEvent::Persisted) => StorageExecutor {
                operations,
                index,
                ledger,
                previous,
                stage: StorageStage::Remote,
            },
            (StorageStage::PersistPending, StorageEvent::NotPersisted { durable, message }) => {
                StorageExecutor {
                    operations,
                    index,
                    ledger: match durable {
                        Some(durable) => durable,
                        None => ledger,
                    },
                    previous,
                    stage: StorageStage::Done(
                        Some(StorageExecutionError::Ledger(LedgerFailure::NotPersisted(message))),
                    ),
                }
            },
            (StorageStage::Remote, StorageEvent::Stored(outcome)) => {
                let desired: DesiredStorageObject = match &operations[index] {
                    IntegrationOperation::PutStorage(desired) => desired.duplicate(),
                    _ => {
                        return StorageExecutor {
                            operations,
                            index,
                            ledger,
                            previous,
                            stage: StorageStage::Remote,
                        };
                    },
                };
                Self::settle_put(operations, index, ledger, previous, desired, outcome)
            },
            (StorageStage::Remote, StorageEvent::Deleted(outcome)) => {
                let key: ObjectKey = match &operations[index] {
                    IntegrationOperation::DeleteStorage { key } => key.duplicate(),
                    _ => {
                        return StorageExecutor {
                            operations,
                            index,
                            ledger,
                            previous,
                            stage: StorageStage::Remote,
                        };
                    },
                };
                match previous {
                    Some(entry) => Self::settle_delete(
                        operations,
                        index,
                        ledger,
                        entry,
                        key,
                        outcome,
                    ),
                    None => StorageExecutor {
                        operations,
                        index,
                        ledger,
                        previous: None,
                        stage: StorageStage::Remote,
                    },
                }
            },
            (StorageStage::PersistOutcome(failure), StorageEvent::Persisted) => match failure {
                Some(e) => StorageExecutor {
                    operations,
                    index,
                    ledger,
                    previous,
                    stage: StorageStage::Done(Some(e)),
                },
                None => Self::enter(
                    operations,
                    index + 1,
                    ledger,
                    previous,
                    StorageStage::PersistOutcome(None),
                ),
            },
            (
                StorageStage::PersistOutcome(_),
                StorageEvent::NotPersisted { durable, message },
            ) => StorageExecutor {
                operations,
                index,
                ledger: match durable {
                    Some(durable) => durable,
                    None => ledger,
                },
                previous,
                stage: StorageStage::Done(
                    Some(StorageExecutionError::Ledger(LedgerFailure::NotPersisted(message))),
                ),
            },
            (stage, _) => StorageExecutor { operations, index, ledger, previous, stage },
        }
    }

    /// The ledger and the result of a run that has ended.
    pub fn finish(self) -> (r: (
        IntegrationLedger,
        Result<StorageExecutionReport, StorageExecutionError>,
    ))
        requires
            self@.stage is Done,
        ensures
            r.0@ == self@.ledger,
            match (self@.stage, r.1) {
                (StorageStageView::Done(None), Ok(report)) => keys_view(report.uploaded@)
                    == uploaded_keys(self@.operations) && keys_view(report.deleted@)
                    == deleted_keys(self@.operations),
                (StorageStageView::Done(Some(e)), Err(f)) => f@ == e,
                _ => false,
            },
    {
        let StorageExecutor { operations, index: _, ledger, previous: _, stage } = self;
        match stage {
            StorageStage::Done(Some(e)) => {
                return (ledger, Err(e));
            },
            _ => {},
        }
        let ghost all = operations_view(operations@);
        let mut uploaded: Vec<ObjectKey> = Vec::new();
        let mut deleted: Vec<ObjectKey> = Vec::new();
        let mut i: usize = 0;
        proof {
            assert(keys_view(uploaded@) =~= uploaded_keys(all.take(0)));
            assert(keys_view(deleted@) =~= deleted_keys(all.take(0)));
        }
        while i < operations.len()
            invariant
                i <= operations@.len(),
                all == operations_view(operations@),
                keys_view(uploaded@) == uploaded_keys(all.take(i as int)),
                keys_view(deleted@) == deleted_keys(all.take(i as int)),
            decreases operations@.len() - i,
        {
            let ghost up = keys_view(uploaded@);
            let ghost down = keys_view(deleted@);
            proof {
                assert(all.take(i as int + 1).drop_last() =~= all.take(i as int));
                assert(all.take(i as int + 1).last() == operations@[i as int]@);
            }
            match &operations[i] {
                IntegrationOperation::PutStorage(desired) => {
                    uploaded.push(desired.key.duplicate());
                    proof {
                        assert(keys_view(uploaded@) =~= up + seq![desired.key@]);
                    }
                },
                IntegrationOperation::DeleteStorage { key } => {
                    deleted.push(key.duplicate());
                    proof {
                        assert(keys_view(deleted@) =~= down + seq![key@]);
                    }
                },
                _ => {},
            }
            i = i + 1;
        }
        proof {
            assert(all.take(all.len() as int) =~= all);
        }
        (ledger, Ok(StorageExecutionReport { uploaded, deleted }))
    }
}

// ---------------------------------------------------------------------------
// Laws
// ---------------------------------------------------------------------------
/// A run after several events.
pub open spec fn storage_steps(run: StorageRun, events: Seq<StorageEventView>) -> StorageRun
    decreases events.len(),
{
    if events.len() == 0 {
        run
    } else {
        storage_step(storage_steps(run, events.drop_last()), events.last())
    }
}

/// The key that a storage operation is about.
pub open spec fn operation_key(operation: OperationView) -> Seq<char> {
    match operation {
        OperationView::PutStorage(desired) => desired.key,
        OperationView::DeleteStorage(key) => key,
        _ => Seq::empty(),
    }
}

/// Whether a run has its operation in flight: recorded as pending and not yet
/// settled.
pub open spec fn in_flight(run: StorageRun) -> bool {
    run.stage is PersistPending || run.stage is Remote
}

/// What holds of every run: it holds together, and the operation in flight is
/// recorded as pending.
pub open spec fn storage_sound(run: StorageRun) -> bool {
    &&& storage_run_fits(run)
    &&& in_flight(run) ==> {
        let entry = r2_entry(run.ledger, operation_key(run.operations[run.index]));
        entry is Some && entry->0.status == OperationState::Pending
    }
}

proof fn lemma_entered_sound(run: StorageRun)
    requires
        0 <= run.index <= run.operations.len(),
        forall|i: int|
            0 <= i < run.operations.len() ==> is_storage_operation(#[trigger] run.operations[i]),
    ensures
        storage_sound(storage_entered(run)),
{
}

/// A run is sound from its beginning.
pub proof fn law_started_storage_is_sound(operations: Seq<OperationView>, ledger: LedgerView)
    ensures
        storage_sound(storage_started(operations, ledger)),
{
    let on_storage = |o: OperationView| is_storage_operation(o);
    let kept = operations.filter(on_storage);
    assert forall|i: int| 0 <= i < kept.len() implies is_storage_operation(#[trigger] kept[i]) by {
        operations.lemma_filter_pred(on_storage, i);
    }
    lemma_entered_sound(
        StorageRun {
            operations: kept,
            index: 0,
            ledger,
            previous: None,
            stage: StorageStageView::Done(None),
        },
    );
}

/// Whatever happens, a run stays sound.
pub proof fn law_storage_stays_sound(run: StorageRun, event: StorageEventView)
    requires
        storage_sound(run),
    ensures
        storage_sound(storage_step(run, event)),
{
    if run.stage is PersistOutcome && event is Persisted {
        lemma_entered_sound(StorageRun { index: run.index + 1, ..run });
    }
}

/// The persisted `Pending` always precedes the remote call: a run asks for an
/// upload or a deletion only after it asked for the ledger to be written with
/// the object recorded as pending, and was told that this was done.
pub proof fn law_pending_precedes_storage_call(run: StorageRun, event: StorageEventView)
    requires
        storage_sound(run),
        !(run.stage is Remote),
        storage_action(storage_step(run, event)) is Put || storage_action(
            storage_step(run, event),
        ) is Delete,
    ensures
        storage_action(run) == StorageActionView::Persist(run.ledger),
        event is Persisted,
        ({
            let entry = r2_entry(run.ledger, operation_key(run.operations[run.index]));
            entry is Some && entry->0.status == OperationState::Pending
        }),
{
}

/// A run that has ended stays as it is, whatever happens.
pub proof fn law_ended_storage_is_final(run: StorageRun, event: StorageEventView)
    requires
        run.stage is Done,
    ensures
        storage_step(run, event) == run,
        storage_action(run) == StorageActionView::Finished,
{
}

/// A failed operation ends the run as soon as its outcome is written: no retry
/// and no further operation.
pub proof fn law_storage_stops_at_failure(run: StorageRun, event: StorageEventView)
    requires
        run.stage matches StorageStageView::PersistOutcome(Some(_)),
    ensures
        storage_step(run, event) == run || storage_step(run, event).stage is Done,
{
}

/// A source file that fails its validation ends the run before any change of
/// the ledger and before any remote call.
pub proof fn law_invalid_source_changes_nothing(
    run: StorageRun,
    desired: DesiredObjectView,
    seen: FileObservationView,
)
    requires
        run.stage is Examine,
        run.operations[run.index] == OperationView::PutStorage(desired),
        source_problem_text(
            SourceRole::SourceFile,
            desired.source_path,
            seen,
            desired.sha256,
            desired.size_bytes,
        ) is Some,
    ensures
        ({
            let after = storage_step(run, StorageEventView::Examined(seen));
            &&& after.ledger == run.ledger
            &&& storage_action(after) == StorageActionView::Finished
            &&& after.stage matches StorageStageView::Done(
                Some(StorageErrorView::LocalValidation(key, _)),
            ) && key == desired.key
        }),
{
}

/// A run changes the ledger's entry of the current object alone, and leaves
/// the header, the repository files and the hosting entry as they are, unless
/// the ledger could not be written.
pub proof fn law_storage_changes_one_object(run: StorageRun, event: StorageEventView, key: Seq<char>)
    requires
        storage_sound(run),
        !(event is NotPersisted),
        run.index < run.operations.len() ==> key != operation_key(run.operations[run.index]),
        event is Persisted && run.index + 1 < run.operations.len() ==> key != operation_key(
            run.operations[run.index + 1],
        ),
    ensures
        ({
            let after = storage_step(run, event).ledger;
            &&& r2_entry(after, key) == r2_entry(run.ledger, key)
            &&& after.github_inventory == run.ledger.github_inventory
            &&& after.vercel == run.ledger.vercel
            &&& after.local_generation == run.ledger.local_generation
            &&& after.configuration_fingerprint == run.ledger.configuration_fingerprint
            &&& after.state_hash == run.ledger.state_hash
            &&& after.manifest_hash == run.ledger.manifest_hash
        }),
{
}

/// An upload that was provably rejected leaves the ledger exactly as it was
/// before the attempt.
pub proof fn law_rejected_upload_restores_ledger(
    run: StorageRun,
    desired: DesiredObjectView,
    seen: FileObservationView,
    failure: FailureView,
)
    requires
        ledger_valid(run.ledger),
        storage_sound(run),
        run.stage is Examine,
        run.operations[run.index] == OperationView::PutStorage(desired),
        run.previous == r2_entry(run.ledger, desired.key),
        is_portable_path(desired.key),
        is_sha256_text(desired.sha256),
        source_problem_text(
            SourceRole::SourceFile,
            desired.source_path,
            seen,
            desired.sha256,
            desired.size_bytes,
        ) is None,
        failure_kind(failure.error) == FailureKind::NoEffect,
    ensures
        ({
            let after = storage_steps(
                run,
                seq![
                    StorageEventView::Examined(seen),
                    StorageEventView::Persisted,
                    StorageEventView::Stored(Err(failure)),
                ],
            );
            &&& after.ledger == run.ledger
            &&& after.stage == StorageStageView::PersistOutcome(
                Some(
                    StorageErrorView::Rejected(
                        desired.key,
                        "storage PUT was rejected without a remote effect: "@
                            + failure.description,
                    ),
                ),
            )
        }),
{
    let events = seq![
        StorageEventView::Examined(seen),
        StorageEventView::Persisted,
        StorageEventView::Stored(Err(failure)),
    ];
    reveal_with_fuel(storage_steps, 4);
    assert(events.drop_last() =~= seq![
        StorageEventView::Examined(seen),
        StorageEventView::Persisted,
    ]);
    assert(events.drop_last().drop_last() =~= seq![StorageEventView::Examined(seen)]);
    let pending = r2_entry_of(intended_object(desired), OperationState::Pending);
    law_recorded_object_accepted(run.ledger, desired.key, pending);
    let marked = with_r2(run.ledger, desired.key, pending);
    match run.previous {
        None => {
            law_record_then_remove_object(run.ledger, desired.key, pending);
            law_removed_object_accepted(marked, desired.key);
        },
        Some(entry) => {
            law_rerecord_object(run.ledger, desired.key, pending);
            law_recorded_object_accepted(marked, desired.key, entry);
            assert(r2_entry_of(recorded_object(desired.key, entry), entry.status) == entry);
        },
    }
}

/// A deletion that was provably rejected leaves the ledger exactly as it was
/// before the attempt.
pub proof fn law_rejected_deletion_restores_ledger(
    run: StorageRun,
    key: Seq<char>,
    failure: FailureView,
)
    requires
        ledger_valid(run.ledger),
        0 <= run.index < run.operations.len(),
        run.operations[run.index] == OperationView::DeleteStorage(key),
        r2_entry(run.ledger, key) is Some,
        r2_entry(run.ledger, key)->0.status == OperationState::Confirmed,
        failure_kind(failure.error) == FailureKind::NoEffect,
        failure.error != ProviderErrorText::NotFound,
    ensures
        ({
            let after = storage_steps(
                storage_entered(run),
                seq![StorageEventView::Persisted, StorageEventView::Deleted(Err(failure))],
            );
            &&& after.ledger == run.ledger
            &&& after.stage == StorageStageView::PersistOutcome(
                Some(
                    StorageErrorView::Rejected(
                        key,
                        "storage DELETE was rejected without a remote effect: "@
                            + failure.description,
                    ),
                ),
            )
        }),
{
    let events = seq![StorageEventView::Persisted, StorageEventView::Deleted(Err(failure))];
    reveal_with_fuel(storage_steps, 3);
    assert(events.drop_last() =~= seq![StorageEventView::Persisted]);
    let entry = run.ledger.r2_inventory[key];
    let pending = r2_entry_of(recorded_object(key, entry), OperationState::Pending);
    law_recorded_object_accepted(run.ledger, key, pending);
    law_rerecord_object(run.ledger, key, pending);
    law_recorded_object_accepted(with_r2(run.ledger, key, pending), key, entry);
    assert(r2_entry_of(recorded_object(key, entry), OperationState::Confirmed) == entry);
}

/// A call whose outcome cannot be determined leaves the object recorded as
/// `Unknown`, with everything else as it was to be stored, or as it was recorded
/// before the deletion.
pub proof fn law_ambiguous_storage_call_is_unknown(run: StorageRun, event: StorageEventView)
    requires
        storage_sound(run),
        run.stage is Remote,
        ({
            let after = storage_step(run, event).stage;
            after matches StorageStageView::PersistOutcome(Some(StorageErrorView::Ambiguous(_, _)))
        }),
    ensures
        ({
            let key = operation_key(run.operations[run.index]);
            let entry = r2_entry(storage_step(run, event).ledger, key);
            entry == match run.operations[run.index] {
                OperationView::PutStorage(desired) => Some(
                    r2_entry_of(intended_object(desired), OperationState::Unknown),
                ),
                _ => Some(R2EntryView { status: OperationState::Unknown, ..run.previous->0 }),
            }
        }),
{
}

/// The ledger once a storage operation is published.
pub open spec fn object_published(ledger: LedgerView, operation: OperationView) -> LedgerView {
    match operation {
        OperationView::PutStorage(desired) => with_r2(
            ledger,
            desired.key,
            r2_entry_of(intended_object(desired), OperationState::Confirmed),
        ),
        OperationView::DeleteStorage(key) => without_r2(ledger, key),
        _ => ledger,
    }
}

/// The ledger once the first of storage operations are published.
pub open spec fn objects_published(
    ledger: LedgerView,
    operations: Seq<OperationView>,
    n: int,
) -> LedgerView
    decreases n,
{
    if n <= 0 {
        ledger
    } else {
        object_published(objects_published(ledger, operations, n - 1), operations[n - 1])
    }
}

/// Whether a run that began on a ledger has published what is before its
/// index, and nothing else.
pub open spec fn storage_in_step(start: LedgerView, run: StorageRun) -> bool {
    let before = objects_published(start, run.operations, run.index);
    let key = operation_key(run.operations[run.index]);
    match run.stage {
        StorageStageView::Examine => run.ledger == before,
        StorageStageView::PersistPending | StorageStageView::Remote => exists|pending: R2EntryView|
            run.ledger == #[trigger] with_r2(before, key, pending),
        StorageStageView::PersistOutcome(None) => run.ledger == objects_published(
            start,
            run.operations,
            run.index + 1,
        ),
        StorageStageView::Done(None) => run.index == run.operations.len() && run.ledger == before,
        _ => true,
    }
}

proof fn lemma_entered_in_step(start: LedgerView, run: StorageRun)
    requires
        0 <= run.index <= run.operations.len(),
        forall|i: int|
            0 <= i < run.operations.len() ==> is_storage_operation(#[trigger] run.operations[i]),
        run.ledger == objects_published(start, run.operations, run.index),
    ensures
        storage_in_step(start, storage_entered(run)),
{
}

proof fn lemma_storage_step_in_step(start: LedgerView, run: StorageRun, event: StorageEventView)
    requires
        storage_sound(run),
        storage_in_step(start, run),
    ensures
        storage_in_step(start, storage_step(run, event)),
{
    let before = objects_published(start, run.operations, run.index);
    let key = operation_key(run.operations[run.index]);
    if run.stage is PersistOutcome && event is Persisted {
        if run.stage == StorageStageView::PersistOutcome(None) {
            lemma_entered_in_step(start, StorageRun { index: run.index + 1, ..run });
        }
    } else if run.stage is Examine {
        assert(storage_step(run, event).ledger == before || storage_step(run, event).ledger
            == with_r2(
            before,
            key,
            r2_entry_of(
                intended_object(run.operations[run.index]->PutStorage_0),
                OperationState::Pending,
            ),
        ));
    } else if run.stage is Remote {
        let pending = choose|pending: R2EntryView|
            run.ledger == #[trigger] with_r2(before, key, pending);
        let after = storage_step(run, event);
        if after.stage == StorageStageView::PersistOutcome(None) {
            match run.operations[run.index] {
                OperationView::PutStorage(desired) => {
                    let entry = r2_entry_of(intended_object(desired), OperationState::Confirmed);
                    assert(before.r2_inventory.insert(key, pending).insert(key, entry)
                        =~= before.r2_inventory.insert(key, entry));
                    assert(after.ledger == with_r2(run.ledger, key, entry));
                    assert(with_r2(run.ledger, key, entry) == with_r2(before, key, entry));
                },
                OperationView::DeleteStorage(_) => {
                    assert(before.r2_inventory.insert(key, pending).remove(key)
                        =~= before.r2_inventory.remove(key));
                    assert(after.ledger == without_r2(run.ledger, key));
                    assert(without_r2(run.ledger, key) == without_r2(before, key));
                },
                _ => {},
            }
            assert(after.ledger == object_published(before, run.operations[run.index]));
        }
    }
}

/// Whatever happened, a run has published what is before its index, and nothing
/// else.
pub proof fn lemma_storage_steps_in_step(
    operations: Seq<OperationView>,
    ledger: LedgerView,
    events: Seq<StorageEventView>,
)
    ensures
        ({
            let end = storage_steps(storage_started(operations, ledger), events);
            &&& storage_sound(end)
            &&& storage_in_step(ledger, end)
            &&& end.operations == operations.filter(|o: OperationView| is_storage_operation(o))
        }),
    decreases events.len(),
{
    let run = storage_started(operations, ledger);
    if events.len() == 0 {
        law_started_storage_is_sound(operations, ledger);
        let kept = operations.filter(|o: OperationView| is_storage_operation(o));
        let first = StorageRun {
            operations: kept,
            index: 0,
            ledger,
            previous: None,
            stage: StorageStageView::Done(None),
        };
        assert(storage_entered(first).operations == kept);
        lemma_entered_in_step(ledger, first);
    } else {
        lemma_storage_steps_in_step(operations, ledger, events.drop_last());
        let before = storage_steps(run, events.drop_last());
        law_storage_stays_sound(before, events.last());
        lemma_storage_step_in_step(ledger, before, events.last());
    }
}

/// A run that ends without an error, whatever happened on the way, has
/// published every storage operation of the plan, in order, and the ledger
/// says so and nothing else.
pub proof fn law_successful_storage_run_publishes_all(
    operations: Seq<OperationView>,
    ledger: LedgerView,
    events: Seq<StorageEventView>,
)
    requires
        storage_steps(storage_started(operations, ledger), events).stage
            == StorageStageView::Done(None),
    ensures
        ({
            let kept = operations.filter(|o: OperationView| is_storage_operation(o));
            storage_steps(storage_started(operations, ledger), events).ledger == objects_published(
                ledger,
                kept,
                kept.len() as int,
            )
        }),
{
    lemma_storage_steps_in_step(operations, ledger, events);
}

} // verus!
