//! Repository execution for an [`IntegrationPlan`] as ONE commit batch.
//!
//! The executor applies only repository operations (`WriteRepository`,
//! `DeleteRepository`) from an already computed plan; storage and hosting
//! operations belong to other executors and are ignored here. It never
//! recomputes desired state and never invokes the planner. Like the storage
//! executor it is a machine: [`RepositoryExecutor::action`] says what is to be
//! done next, [`RepositoryExecutor::handle`] takes what came of it.
//!
//! Unlike storage, repository operations are not individually published:
//! writing only creates an unreferenced remote blob, deleting only stages a
//! change in the provider, and the single commit is the only action that
//! publishes. The transactional unit is therefore the whole batch:
//!
//! ```text
//! local validation of every write against its declared source
//! (application bundle member or committed publication file)
//!     -> Pending (base revision) recorded for every path and persisted
//!     -> staging: writes and deletions in plan order
//!     -> one commit
//!     -> Confirmed (commit revision) / removal persisted, or Unknown persisted
//! ```
//!
//! The persisted `Pending` always precedes the first remote change. If the
//! ref update cannot be confirmed, every path of the batch becomes `Unknown`
//! and execution stops: no retry, no second commit. Rejections that provably
//! left the ref untouched roll the ledger back to the previously recorded
//! state instead: `Unknown` is reserved for genuinely indeterminate updates.

use crate::bundle::{bundle_content, content_at, ApplicationBundle};
use crate::digest::{hex_digest, hex_sha256};
use crate::file_source::{
    source_problem, source_problem_text, FileObservation, FileObservationView, SourceRole,
};
use crate::inventory::{is_listed, lemma_listed, Duplicate};
use crate::ledger::{
    github_entry_error, github_recorded, github_removed, law_recorded_file_accepted,
    law_removed_file_accepted, law_valid_iff_no_error, ledger_error, ledger_failure_text,
    ledger_json, ledger_valid, optional_ledger, status_name, status_text, with_github,
    without_github, GitHubEntryView, GitHubInventoryEntry, IntegrationLedger, LedgerError,
    LedgerErrorView, LedgerFailure, LedgerFailureView, LedgerView, OperationState,
};
use crate::paths::{is_portable_path, PublicationPath, RepositoryPath};
use crate::planner::{
    copy_requirements, operations_view, requirements_view, DesiredFileView, DesiredRepositoryFile,
    IntegrationOperation, IntegrationPlan, OperationView, ReconciliationRequirement,
    RepositoryFileSource, RequirementView, SourceView,
};
use crate::provider::{
    CommitInfo, FailureKind, FailureView, FileMetadata, FileMetadataView, ProviderError,
    ProviderErrorText, ProviderFailure,
};
use crate::text::{
    decimal, decimal_text, is_blank_text, is_sha256_text, joined, joined3, option_text, same_text,
};
use vstd::prelude::*;

verus! {

// ---------------------------------------------------------------------------
// Errors
// ---------------------------------------------------------------------------
/// Why repository execution failed.
///
/// Every failure stops execution before any later step; the durable ledger
/// always reflects the last safely known state.
#[derive(Debug, PartialEq, Eq)]
pub enum RepositoryExecutionError {
    /// The plan carries reconciliation requirements; nothing was executed.
    ReconciliationRequired(Vec<ReconciliationRequirement>),
    /// A planned operation contradicts the ledger state handed to the
    /// executor (or repeats a path inside the batch); no ledger or remote
    /// change was made.
    InconsistentPlan(String),
    /// Bundle or publication file validation failed before any ledger or
    /// remote change.
    LocalValidation { path: RepositoryPath, message: String },
    /// The publication output directory could not be resolved.
    InvalidRoot(String),
    /// The repository check or the base revision probe failed before any
    /// `Pending` was recorded; nothing was staged and the ledger is untouched.
    Initialization(String),
    /// Staging or commit provably produced no publication; the previous
    /// ledger state was restored and persisted.
    Rejected(String),
    /// The ref update may have been applied; `Unknown` was persisted for the
    /// whole batch and execution stopped without retrying.
    Ambiguous(String),
    /// The ledger could not be mutated or persisted.
    Ledger(LedgerFailure),
}

/// The mathematical form of a repository error.
pub enum RepositoryErrorView {
    ReconciliationRequired(Seq<RequirementView>),
    InconsistentPlan(Seq<char>),
    LocalValidation(Seq<char>, Seq<char>),
    InvalidRoot(Seq<char>),
    Initialization(Seq<char>),
    Rejected(Seq<char>),
    Ambiguous(Seq<char>),
    Ledger(LedgerFailureView),
}

impl View for RepositoryExecutionError {
    type V = RepositoryErrorView;

    open spec fn view(&self) -> RepositoryErrorView {
        match *self {
            RepositoryExecutionError::ReconciliationRequired(requirements) =>
                RepositoryErrorView::ReconciliationRequired(requirements_view(requirements@)),
            RepositoryExecutionError::InconsistentPlan(text) =>
                RepositoryErrorView::InconsistentPlan(text@),
            RepositoryExecutionError::LocalValidation { path, message } =>
                RepositoryErrorView::LocalValidation(path@, message@),
            RepositoryExecutionError::InvalidRoot(text) => RepositoryErrorView::InvalidRoot(text@),
            RepositoryExecutionError::Initialization(text) => RepositoryErrorView::Initialization(
                text@,
            ),
            RepositoryExecutionError::Rejected(text) => RepositoryErrorView::Rejected(text@),
            RepositoryExecutionError::Ambiguous(text) => RepositoryErrorView::Ambiguous(text@),
            RepositoryExecutionError::Ledger(failure) => RepositoryErrorView::Ledger(failure@),
        }
    }
}

/// The error in words.
pub open spec fn repository_error_text(e: RepositoryErrorView) -> Seq<char> {
    match e {
        RepositoryErrorView::ReconciliationRequired(requirements) =>
            "repository execution requires reconciliation first ("@ + decimal_text(
                requirements.len(),
            ) + " requirement(s))"@,
        RepositoryErrorView::InconsistentPlan(text) => "inconsistent plan: "@ + text,
        RepositoryErrorView::LocalValidation(path, message) => path + ": "@ + message,
        RepositoryErrorView::InvalidRoot(text) =>
            "failed to resolve the publication output directory: "@ + text,
        RepositoryErrorView::Initialization(text) => text,
        RepositoryErrorView::Rejected(text) => text,
        RepositoryErrorView::Ambiguous(text) => text,
        RepositoryErrorView::Ledger(failure) => ledger_failure_text(failure),
    }
}

impl RepositoryExecutionError {
    /// The error in words.
    pub fn message(&self) -> (r: String)
        ensures
            r@ == repository_error_text(self@),
    {
        match self {
            RepositoryExecutionError::ReconciliationRequired(requirements) => {
                let count: String = decimal(requirements.len() as u64);
                joined3(
                    "repository execution requires reconciliation first (",
                    count.as_str(),
                    " requirement(s))",
                )
            },
            RepositoryExecutionError::InconsistentPlan(text) => joined(
                "inconsistent plan: ",
                text.as_str(),
            ),
            RepositoryExecutionError::LocalValidation { path, message } => joined3(
                path.as_str(),
                ": ",
                message.as_str(),
            ),
            RepositoryExecutionError::InvalidRoot(text) => joined(
                "failed to resolve the publication output directory: ",
                text.as_str(),
            ),
            RepositoryExecutionError::Initialization(text) => text.clone(),
            RepositoryExecutionError::Rejected(text) => text.clone(),
            RepositoryExecutionError::Ambiguous(text) => text.clone(),
            RepositoryExecutionError::Ledger(failure) => failure.message(),
        }
    }
}

/// The mathematical form of an optional error.
pub open spec fn repository_failure(e: Option<RepositoryExecutionError>) -> Option<
    RepositoryErrorView,
> {
    match e {
        Some(error) => Some(error@),
        None => None,
    }
}

/// Outcome of one run.
#[derive(Debug, PartialEq, Eq)]
pub struct RepositoryExecutionReport {
    pub written: Vec<RepositoryPath>,
    pub deleted: Vec<RepositoryPath>,
    /// Real commit SHA that published the batch; `None` when the plan had no
    /// repository operations and no commit was created.
    pub revision: Option<String>,
}

impl Default for RepositoryExecutionReport {
    /// The report of a run that had nothing to do.
    fn default() -> (r: Self)
        ensures
            r.written@ == Seq::<RepositoryPath>::empty(),
            r.deleted@ == Seq::<RepositoryPath>::empty(),
            r.revision is None,
    {
        RepositoryExecutionReport { written: Vec::new(), deleted: Vec::new(), revision: None }
    }
}

// ---------------------------------------------------------------------------
// What a provider failure means
// ---------------------------------------------------------------------------
/// Whether a commit failure provably left the branch ref untouched.
///
/// Only the final non-forced update of the ref publishes, and an error
/// response proves that the request was rejected. Only a missing response or
/// a successful one that could not be parsed leaves the update indeterminate.
pub open spec fn commit_failure_kind(error: ProviderErrorText) -> FailureKind {
    match error {
        ProviderErrorText::Network | ProviderErrorText::Integrity => FailureKind::Ambiguous,
        _ => FailureKind::NoEffect,
    }
}

/// Whether a commit failure provably left the branch ref untouched.
pub fn classify_commit_failure(error: &ProviderError) -> (r: FailureKind)
    ensures
        r == commit_failure_kind(error@),
{
    match error {
        ProviderError::AuthenticationFailed
        | ProviderError::AuthenticationRequired
        | ProviderError::PermissionDenied
        | ProviderError::NotFound
        | ProviderError::Conflict
        | ProviderError::Other
        | ProviderError::InvalidKey(_)
        | ProviderError::InvalidPath(_)
        | ProviderError::AlreadyExists
        | ProviderError::Unsupported
        | ProviderError::Io(_) => FailureKind::NoEffect,
        ProviderError::Network | ProviderError::Integrity => FailureKind::Ambiguous,
    }
}

// ---------------------------------------------------------------------------
// The batch
// ---------------------------------------------------------------------------
/// Whether an operation is one on the repository.
pub open spec fn is_repository_operation(operation: OperationView) -> bool {
    operation is WriteRepository || operation is DeleteRepository
}

/// The path that a repository operation is about.
pub open spec fn operation_path(operation: OperationView) -> Seq<char> {
    match operation {
        OperationView::WriteRepository(file) => file.path,
        OperationView::DeleteRepository(path) => path,
        _ => Seq::empty(),
    }
}

/// What the ledger says of a file.
pub open spec fn github_entry(ledger: LedgerView, path: Seq<char>) -> Option<GitHubEntryView> {
    if ledger.github_inventory.dom().contains(path) {
        Some(ledger.github_inventory[path])
    } else {
        None
    }
}

/// What the ledger says of the files of a batch, in its order.
pub open spec fn batch_entries(batch: Seq<OperationView>, ledger: LedgerView) -> Seq<
    Option<GitHubEntryView>,
> {
    Seq::new(batch.len(), |i: int| github_entry(ledger, operation_path(batch[i])))
}

/// Why an operation contradicts the ledger or the batch: a path may occur
/// once, a write needs an absent or confirmed entry, a deletion a confirmed
/// one.
pub open spec fn guard_text(batch: Seq<OperationView>, ledger: LedgerView, i: int) -> Option<
    Seq<char>,
> {
    let path = operation_path(batch[i]);
    let entry = github_entry(ledger, path);
    if exists|j: int| 0 <= j < i && #[trigger] operation_path(batch[j]) == path {
        Some("duplicate repository operation for "@ + path)
    } else if entry is None {
        if batch[i] is DeleteRepository {
            Some("cannot DELETE "@ + path + " because it is absent from the ledger"@)
        } else {
            None
        }
    } else if entry->0.status == OperationState::Confirmed {
        None
    } else {
        Some(
            (if batch[i] is DeleteRepository {
                "cannot DELETE "@
            } else {
                "cannot WRITE "@
            }) + path + " while the ledger marks it "@ + status_text(entry->0.status),
        )
    }
}

/// The first such contradiction from an operation on.
pub open spec fn guards_text(batch: Seq<OperationView>, ledger: LedgerView, i: int) -> Option<
    Seq<char>,
>
    decreases batch.len() - i,
{
    if i < 0 || i >= batch.len() {
        None
    } else {
        match guard_text(batch, ledger, i) {
            Some(text) => Some(text),
            None => guards_text(batch, ledger, i + 1),
        }
    }
}

/// Why the bundle does not hold the bytes of a write.
pub open spec fn bundle_problem_text(
    files: Seq<(Seq<char>, Seq<u8>)>,
    file: DesiredFileView,
) -> Option<Seq<char>> {
    match content_at(files, file.path) {
        None => Some("file is not present in the application bundle"@),
        Some(content) => if hex_sha256(content) != file.sha256 {
            Some(
                "bundle content SHA-256 "@ + hex_sha256(content) + " does not match the desired "@
                    + file.sha256,
            )
        } else if content.len() != file.size_bytes {
            Some(
                "bundle content size "@ + decimal_text(content.len())
                    + " does not match the desired "@ + decimal_text(file.size_bytes as nat)
                    + " bytes"@,
            )
        } else {
            None
        },
    }
}

/// Why the bundle does not hold the bytes of a write.
fn bundle_problem(bundle: &ApplicationBundle, file: &DesiredRepositoryFile) -> (r: Option<String>)
    ensures
        option_text(r) == bundle_problem_text(bundle@.files, file@),
{
    match bundle_content(bundle, &file.path) {
        None => Some("file is not present in the application bundle".to_owned()),
        Some(content) => {
            let sha256: String = hex_digest(content);
            if !same_text(sha256.as_str(), file.sha256.as_str()) {
                let mut text: String = joined3(
                    "bundle content SHA-256 ",
                    sha256.as_str(),
                    " does not match the desired ",
                );
                text.append(file.sha256.as_str());
                return Some(text);
            }
            if content.len() as u64 != file.size_bytes {
                let found: String = decimal(content.len() as u64);
                let wanted: String = decimal(file.size_bytes);
                let mut text: String = joined3(
                    "bundle content size ",
                    found.as_str(),
                    " does not match the desired ",
                );
                text.append(wanted.as_str());
                text.append(" bytes");
                return Some(text);
            }
            None
        },
    }
}

/// What the ledger is to say of a batch.
pub enum BatchGoal {
    /// In flight or indeterminate, on the base revision.
    Attempted(Seq<char>, OperationState),
    /// What it said before the batch.
    Restored,
    /// Published by the commit with this revision.
    Published(Seq<char>),
}

/// What the ledger is to say of a batch.
#[derive(Debug, PartialEq, Eq)]
enum Goal {
    Attempted(String, OperationState),
    Restored,
    Published(String),
}

impl View for Goal {
    type V = BatchGoal;

    closed spec fn view(&self) -> BatchGoal {
        match *self {
            Goal::Attempted(base, status) => BatchGoal::Attempted(base@, status),
            Goal::Restored => BatchGoal::Restored,
            Goal::Published(revision) => BatchGoal::Published(revision@),
        }
    }
}

/// What is recorded of an operation whose outcome is open.
pub open spec fn attempted_entry(
    operation: OperationView,
    previous: Option<GitHubEntryView>,
    revision: Seq<char>,
    status: OperationState,
) -> GitHubEntryView {
    GitHubEntryView {
        sha256: match operation {
            OperationView::WriteRepository(file) => file.sha256,
            _ => previous->0.sha256,
        },
        revision,
        status,
    }
}

/// A change of the ledger for one operation.
pub open spec fn goal_reached(
    ledger: LedgerView,
    operation: OperationView,
    previous: Option<GitHubEntryView>,
    goal: BatchGoal,
) -> Result<LedgerView, LedgerErrorView> {
    let path = operation_path(operation);
    match goal {
        BatchGoal::Attempted(revision, status) => github_recorded(
            ledger,
            path,
            attempted_entry(operation, previous, revision, status),
        ),
        BatchGoal::Restored => match previous {
            None => github_removed(ledger, path),
            Some(entry) => github_recorded(ledger, path, entry),
        },
        BatchGoal::Published(revision) => match operation {
            OperationView::WriteRepository(file) => github_recorded(
                ledger,
                path,
                GitHubEntryView {
                    sha256: file.sha256,
                    revision,
                    status: OperationState::Confirmed,
                },
            ),
            _ => github_removed(ledger, path),
        },
    }
}

/// The ledger after the changes for the operations from one on, and the error
/// at which they stopped.
pub open spec fn batch_reached(
    ledger: LedgerView,
    batch: Seq<OperationView>,
    previous: Seq<Option<GitHubEntryView>>,
    goal: BatchGoal,
    i: int,
) -> (LedgerView, Option<LedgerErrorView>)
    decreases batch.len() - i,
{
    if i < 0 || i >= batch.len() {
        (ledger, None)
    } else {
        match goal_reached(ledger, batch[i], previous[i], goal) {
            Ok(next) => batch_reached(next, batch, previous, goal, i + 1),
            Err(e) => (ledger, Some(e)),
        }
    }
}

// ---------------------------------------------------------------------------
// The machine
// ---------------------------------------------------------------------------
/// What the machine waits for.
#[derive(Debug, PartialEq, Eq)]
enum RepositoryStage {
    /// The publication file of a write is looked at.
    Examine,
    /// The repository is checked.
    Ensure,
    /// The base revision is read.
    Probe,
    /// The pending batch is written.
    PersistPending,
    /// An operation is staged.
    Stage,
    /// The batch is committed.
    Commit,
    /// The outcome is written, and the run then ends.
    PersistOutcome(Option<RepositoryExecutionError>),
    /// Nothing: the run has ended.
    Done(Option<RepositoryExecutionError>),
}

/// The mathematical form of a stage.
pub enum RepositoryStageView {
    Examine,
    Ensure,
    Probe,
    PersistPending,
    Stage,
    Commit,
    PersistOutcome(Option<RepositoryErrorView>),
    Done(Option<RepositoryErrorView>),
}

impl View for RepositoryStage {
    type V = RepositoryStageView;

    closed spec fn view(&self) -> RepositoryStageView {
        match *self {
            RepositoryStage::Examine => RepositoryStageView::Examine,
            RepositoryStage::Ensure => RepositoryStageView::Ensure,
            RepositoryStage::Probe => RepositoryStageView::Probe,
            RepositoryStage::PersistPending => RepositoryStageView::PersistPending,
            RepositoryStage::Stage => RepositoryStageView::Stage,
            RepositoryStage::Commit => RepositoryStageView::Commit,
            RepositoryStage::PersistOutcome(e) => RepositoryStageView::PersistOutcome(
                repository_failure(e),
            ),
            RepositoryStage::Done(e) => RepositoryStageView::Done(repository_failure(e)),
        }
    }
}

/// What came of an action.
#[derive(Debug, PartialEq, Eq)]
pub enum RepositoryEvent {
    /// The publication file was looked at.
    Examined(FileObservation),
    /// The repository was checked.
    Ensured(Result<(), ProviderFailure>),
    /// The commit call returned: the base revision where nothing was staged.
    Committed(Result<CommitInfo, ProviderFailure>),
    /// The ledger was written.
    Persisted,
    /// The ledger could not be written. The durable ledger, where it can be
    /// read, stays authoritative.
    NotPersisted { durable: Option<IntegrationLedger>, message: String },
    /// The write was staged.
    Written(Result<FileMetadata, ProviderFailure>),
    /// The deletion was staged.
    Deleted(Result<(), ProviderFailure>),
}

/// The mathematical form of an event.
pub enum RepositoryEventView {
    Examined(FileObservationView),
    Ensured(Result<(), FailureView>),
    Committed(Result<Seq<char>, FailureView>),
    Persisted,
    NotPersisted(Option<LedgerView>, Seq<char>),
    Written(Result<FileMetadataView, FailureView>),
    Deleted(Result<(), FailureView>),
}

impl View for RepositoryEvent {
    type V = RepositoryEventView;

    open spec fn view(&self) -> RepositoryEventView {
        match *self {
            RepositoryEvent::Examined(seen) => RepositoryEventView::Examined(seen@),
            RepositoryEvent::Ensured(outcome) => RepositoryEventView::Ensured(
                match outcome {
                    Ok(()) => Ok(()),
                    Err(failure) => Err(failure@),
                },
            ),
            RepositoryEvent::Committed(outcome) => RepositoryEventView::Committed(
                match outcome {
                    Ok(info) => Ok(info.revision@),
                    Err(failure) => Err(failure@),
                },
            ),
            RepositoryEvent::Persisted => RepositoryEventView::Persisted,
            RepositoryEvent::NotPersisted { durable, message } => RepositoryEventView::NotPersisted(
                optional_ledger(durable),
                message@,
            ),
            RepositoryEvent::Written(outcome) => RepositoryEventView::Written(
                match outcome {
                    Ok(metadata) => Ok(metadata@),
                    Err(failure) => Err(failure@),
                },
            ),
            RepositoryEvent::Deleted(outcome) => RepositoryEventView::Deleted(
                match outcome {
                    Ok(()) => Ok(()),
                    Err(failure) => Err(failure@),
                },
            ),
        }
    }
}

/// What is to be done next.
#[derive(Debug, PartialEq, Eq)]
pub enum RepositoryAction<'a> {
    /// Look at the publication file below the output directory.
    Examine(&'a PublicationPath),
    /// Check that the repository is there.
    Ensure,
    /// Commit what is staged, with this message. Where nothing is staged this
    /// only reads the base revision.
    Commit(String),
    /// Write the ledger.
    Persist(&'a IntegrationLedger),
    /// Stage the write of the file, from the bundle or the publication file.
    Write(&'a DesiredRepositoryFile),
    /// Stage the deletion of the file.
    Delete(&'a RepositoryPath),
    /// Nothing: the run has ended.
    Finished,
}

/// The mathematical form of an action.
pub enum RepositoryActionView {
    Examine(Seq<char>),
    Ensure,
    Commit(Seq<char>),
    Persist(LedgerView),
    Write(DesiredFileView),
    Delete(Seq<char>),
    Finished,
}

impl<'a> View for RepositoryAction<'a> {
    type V = RepositoryActionView;

    open spec fn view(&self) -> RepositoryActionView {
        match *self {
            RepositoryAction::Examine(path) => RepositoryActionView::Examine(path@),
            RepositoryAction::Ensure => RepositoryActionView::Ensure,
            RepositoryAction::Commit(message) => RepositoryActionView::Commit(message@),
            RepositoryAction::Persist(ledger) => RepositoryActionView::Persist(ledger@),
            RepositoryAction::Write(file) => RepositoryActionView::Write(file@),
            RepositoryAction::Delete(path) => RepositoryActionView::Delete(path@),
            RepositoryAction::Finished => RepositoryActionView::Finished,
        }
    }
}

/// What a run works on.
#[derive(Debug, PartialEq, Eq)]
struct Batch<'a> {
    operations: Vec<IntegrationOperation>,
    bundle: &'a ApplicationBundle,
    previous: Vec<Option<GitHubInventoryEntry>>,
    index: usize,
    ledger: IntegrationLedger,
    base: String,
    revision: Option<String>,
}

/// Executes the repository operations of a plan, as a single commit batch
/// with a durably persisted ledger transition before and after the remote
/// work.
#[derive(Debug, PartialEq, Eq)]
pub struct RepositoryExecutor<'a> {
    batch: Batch<'a>,
    stage: RepositoryStage,
}

/// The mathematical form of a run.
pub struct RepositoryRun {
    pub operations: Seq<OperationView>,
    pub files: Seq<(Seq<char>, Seq<u8>)>,
    /// What the ledger said of each file before the batch.
    pub previous: Seq<Option<GitHubEntryView>>,
    /// The operation that is validated or staged.
    pub index: int,
    pub ledger: LedgerView,
    /// The revision on which the batch is staged.
    pub base: Seq<char>,
    /// The revision that published the batch.
    pub revision: Option<Seq<char>>,
    pub stage: RepositoryStageView,
}

/// The mathematical form of an optional entry.
pub open spec fn optional_github(e: Option<GitHubInventoryEntry>) -> Option<GitHubEntryView> {
    match e {
        Some(entry) => Some(entry@),
        None => None,
    }
}

/// The mathematical form of an optional ledger error.
pub open spec fn optional_error(e: Option<LedgerError>) -> Option<LedgerErrorView> {
    match e {
        Some(error) => Some(error@),
        None => None,
    }
}

/// The mathematical form of optional entries.
pub open spec fn github_entries(s: Seq<Option<GitHubInventoryEntry>>) -> Seq<
    Option<GitHubEntryView>,
> {
    Seq::new(s.len(), |i: int| optional_github(s[i]))
}

impl<'a> View for Batch<'a> {
    type V = RepositoryRun;

    /// The run before its stage is known.
    closed spec fn view(&self) -> RepositoryRun {
        RepositoryRun {
            operations: operations_view(self.operations@),
            files: self.bundle@.files,
            previous: github_entries(self.previous@),
            index: self.index as int,
            ledger: self.ledger@,
            base: self.base@,
            revision: option_text(self.revision),
            stage: RepositoryStageView::Done(None),
        }
    }
}

impl<'a> View for RepositoryExecutor<'a> {
    type V = RepositoryRun;

    closed spec fn view(&self) -> RepositoryRun {
        at_stage(self.batch@, self.stage@)
    }
}

/// A run at another stage.
pub open spec fn at_stage(run: RepositoryRun, stage: RepositoryStageView) -> RepositoryRun {
    RepositoryRun { stage, ..run }
}

/// Whether a run holds together: only repository operations, what the ledger
/// said of each, a recorded entry for each deletion until the run has ended,
/// an operation where one is looked at, and a publication file where one is
/// examined.
pub open spec fn repository_run_fits(run: RepositoryRun) -> bool {
    &&& run.previous.len() == run.operations.len()
    &&& 0 <= run.index <= run.operations.len()
    &&& forall|i: int|
        0 <= i < run.operations.len() ==> {
            &&& is_repository_operation(#[trigger] run.operations[i])
            &&& run.operations[i] is DeleteRepository ==> run.stage is Done || run.previous[i] is Some
        }
    &&& run.stage is Examine || run.stage is Stage ==> run.index < run.operations.len()
    &&& run.stage is Examine ==> run.operations[run.index] is WriteRepository
        && run.operations[run.index]->WriteRepository_0.source is PublicationFile
}

/// A run that has ended with an error.
pub open spec fn repository_failed(run: RepositoryRun, e: RepositoryErrorView) -> RepositoryRun {
    at_stage(run, RepositoryStageView::Done(Some(e)))
}

/// A run whose remaining writes are validated, from its index on: it stops at
/// a publication file, which is to be looked at, or at a write that the bundle
/// does not hold; with all of them valid the repository is checked.
pub open spec fn repository_validated(run: RepositoryRun) -> RepositoryRun
    decreases run.operations.len() - run.index,
{
    if run.index < 0 || run.index >= run.operations.len() {
        at_stage(run, RepositoryStageView::Ensure)
    } else {
        match run.operations[run.index] {
            OperationView::WriteRepository(file) => match file.source {
                SourceView::BundleMember => match bundle_problem_text(run.files, file) {
                    Some(text) => repository_failed(
                        run,
                        RepositoryErrorView::LocalValidation(file.path, text),
                    ),
                    None => repository_validated(RepositoryRun { index: run.index + 1, ..run }),
                },
                SourceView::PublicationFile(_) => at_stage(run, RepositoryStageView::Examine),
            },
            _ => repository_validated(RepositoryRun { index: run.index + 1, ..run }),
        }
    }
}

/// Validation does not depend on the stage from which it starts.
proof fn lemma_validation_ignores_stage(a: RepositoryRun, b: RepositoryRun)
    requires
        a == at_stage(b, a.stage),
    ensures
        repository_validated(a) == repository_validated(b),
    decreases a.operations.len() - a.index,
{
    if 0 <= a.index < a.operations.len() {
        lemma_validation_ignores_stage(
            RepositoryRun { index: a.index + 1, ..a },
            RepositoryRun { index: b.index + 1, ..b },
        );
    }
}

/// A run after the ledger was changed for the whole batch: it goes on in the
/// stage, or ends where the ledger refused a change.
pub open spec fn repository_changed(
    run: RepositoryRun,
    goal: BatchGoal,
    stage: RepositoryStageView,
) -> RepositoryRun {
    let reached = batch_reached(run.ledger, run.operations, run.previous, goal, 0);
    RepositoryRun {
        ledger: reached.0,
        stage: match reached.1 {
            Some(e) => RepositoryStageView::Done(
                Some(RepositoryErrorView::Ledger(LedgerFailureView::Refused(e))),
            ),
            None => stage,
        },
        ..run
    }
}

/// A run that provably published nothing: the previous state is restored.
pub open spec fn repository_rejected(run: RepositoryRun, message: Seq<char>) -> RepositoryRun {
    repository_changed(
        run,
        BatchGoal::Restored,
        RepositoryStageView::PersistOutcome(Some(RepositoryErrorView::Rejected(message))),
    )
}

/// A run at the operation after the one that was staged.
pub open spec fn repository_advanced(run: RepositoryRun) -> RepositoryRun {
    RepositoryRun {
        index: run.index + 1,
        stage: if run.index + 1 < run.operations.len() {
            RepositoryStageView::Stage
        } else {
            RepositoryStageView::Commit
        },
        ..run
    }
}

/// A run whose ledger could not be written.
pub open spec fn repository_not_persisted(
    run: RepositoryRun,
    durable: Option<LedgerView>,
    message: Seq<char>,
) -> RepositoryRun {
    RepositoryRun {
        ledger: match durable {
            Some(ledger) => ledger,
            None => run.ledger,
        },
        stage: RepositoryStageView::Done(
            Some(RepositoryErrorView::Ledger(LedgerFailureView::NotPersisted(message))),
        ),
        ..run
    }
}

/// A run whose batch was committed.
pub open spec fn repository_settled(
    run: RepositoryRun,
    outcome: Result<Seq<char>, FailureView>,
) -> RepositoryRun {
    match outcome {
        Ok(revision) => repository_changed(
            RepositoryRun { revision: Some(revision), ..run },
            BatchGoal::Published(revision),
            RepositoryStageView::PersistOutcome(None),
        ),
        Err(failure) => match commit_failure_kind(failure.error) {
            FailureKind::NoEffect => repository_rejected(
                run,
                "commit was rejected and the ref was not updated: "@ + failure.description,
            ),
            FailureKind::Ambiguous => repository_changed(
                run,
                BatchGoal::Attempted(run.base, OperationState::Unknown),
                RepositoryStageView::PersistOutcome(
                    Some(
                        RepositoryErrorView::Ambiguous(
                            "commit outcome cannot be determined; the ref may have been updated: "@
                                + failure.description,
                        ),
                    ),
                ),
            ),
        },
    }
}

/// A run after an event. An event that the run does not wait for changes
/// nothing.
pub open spec fn repository_step(run: RepositoryRun, event: RepositoryEventView) -> RepositoryRun {
    match (run.stage, event) {
        (RepositoryStageView::Examine, RepositoryEventView::Examined(seen)) => match run.operations[run.index] {
            OperationView::WriteRepository(file) => match file.source {
                SourceView::PublicationFile(source_path) => match source_problem_text(
                    SourceRole::PublicationFile,
                    source_path,
                    seen,
                    file.sha256,
                    file.size_bytes,
                ) {
                    Some(problem) => repository_failed(
                        run,
                        RepositoryErrorView::LocalValidation(
                            file.path,
                            "invalid publication file: "@ + problem,
                        ),
                    ),
                    None => repository_validated(RepositoryRun { index: run.index + 1, ..run }),
                },
                _ => run,
            },
            _ => run,
        },
        (RepositoryStageView::Ensure, RepositoryEventView::Ensured(outcome)) => match outcome {
            Ok(()) => at_stage(run, RepositoryStageView::Probe),
            Err(failure) => repository_failed(
                run,
                RepositoryErrorView::Initialization(
                    "repository is not available before staging: "@ + failure.description,
                ),
            ),
        },
        (RepositoryStageView::Probe, RepositoryEventView::Committed(outcome)) => match outcome {
            Ok(base) => repository_changed(
                RepositoryRun { base, index: 0, ..run },
                BatchGoal::Attempted(base, OperationState::Pending),
                RepositoryStageView::PersistPending,
            ),
            Err(failure) => repository_failed(
                run,
                RepositoryErrorView::Initialization(
                    "failed to read the repository base revision: "@ + failure.description,
                ),
            ),
        },
        (RepositoryStageView::PersistPending, RepositoryEventView::Persisted) => at_stage(
            run,
            if run.index < run.operations.len() {
                RepositoryStageView::Stage
            } else {
                RepositoryStageView::Commit
            },
        ),
        (
            RepositoryStageView::PersistPending,
            RepositoryEventView::NotPersisted(durable, message),
        ) => repository_not_persisted(run, durable, message),
        (RepositoryStageView::Stage, RepositoryEventView::Written(outcome)) => match run.operations[run.index] {
            OperationView::WriteRepository(file) => match outcome {
                Ok(metadata) => if metadata == (FileMetadataView {
                    path: file.path,
                    size_bytes: file.size_bytes,
                    sha256: file.sha256,
                }) {
                    repository_advanced(run)
                } else {
                    repository_rejected(
                        run,
                        "write of "@ + file.path
                            + " returned divergent metadata; the batch was not committed"@,
                    )
                },
                Err(failure) => repository_rejected(
                    run,
                    "staging of "@ + file.path + " failed before publication: "@
                        + failure.description,
                ),
            },
            _ => run,
        },
        (RepositoryStageView::Stage, RepositoryEventView::Deleted(outcome)) => match run.operations[run.index] {
            OperationView::DeleteRepository(path) => match outcome {
                Ok(()) => repository_advanced(run),
                Err(failure) => repository_rejected(
                    run,
                    "staging the deletion of "@ + path + " failed before publication: "@
                        + failure.description,
                ),
            },
            _ => run,
        },
        (RepositoryStageView::Commit, RepositoryEventView::Committed(outcome)) =>
            repository_settled(run, outcome),
        (RepositoryStageView::PersistOutcome(failure), RepositoryEventView::Persisted) => at_stage(
            run,
            RepositoryStageView::Done(failure),
        ),
        (
            RepositoryStageView::PersistOutcome(_),
            RepositoryEventView::NotPersisted(durable, message),
        ) => repository_not_persisted(run, durable, message),
        _ => run,
    }
}

/// The message of the batch's commit: it depends on the generation alone.
pub open spec fn commit_message(ledger: LedgerView) -> Seq<char> {
    "photo-publisher publish "@ + ledger.local_generation
}

/// What a run asks for.
pub open spec fn repository_action(run: RepositoryRun) -> RepositoryActionView {
    match run.stage {
        RepositoryStageView::Examine => match run.operations[run.index] {
            OperationView::WriteRepository(file) => match file.source {
                SourceView::PublicationFile(path) => RepositoryActionView::Examine(path),
                _ => RepositoryActionView::Finished,
            },
            _ => RepositoryActionView::Finished,
        },
        RepositoryStageView::Ensure => RepositoryActionView::Ensure,
        RepositoryStageView::Probe => RepositoryActionView::Commit(commit_message(run.ledger)),
        RepositoryStageView::PersistPending => RepositoryActionView::Persist(run.ledger),
        RepositoryStageView::Stage => match run.operations[run.index] {
            OperationView::WriteRepository(file) => RepositoryActionView::Write(file),
            OperationView::DeleteRepository(path) => RepositoryActionView::Delete(path),
            _ => RepositoryActionView::Finished,
        },
        RepositoryStageView::Commit => RepositoryActionView::Commit(commit_message(run.ledger)),
        RepositoryStageView::PersistOutcome(_) => RepositoryActionView::Persist(run.ledger),
        RepositoryStageView::Done(_) => RepositoryActionView::Finished,
    }
}

/// A run at its beginning: an empty batch is done at once, one that
/// contradicts the ledger has failed, and any other is validated.
pub open spec fn repository_started(
    operations: Seq<OperationView>,
    files: Seq<(Seq<char>, Seq<u8>)>,
    ledger: LedgerView,
) -> RepositoryRun {
    let batch = operations.filter(|o: OperationView| is_repository_operation(o));
    let run = RepositoryRun {
        operations: batch,
        files,
        previous: batch_entries(batch, ledger),
        index: 0,
        ledger,
        base: Seq::empty(),
        revision: None,
        stage: RepositoryStageView::Done(None),
    };
    if batch.len() == 0 {
        run
    } else {
        match guards_text(batch, ledger, 0) {
            Some(text) => repository_failed(run, RepositoryErrorView::InconsistentPlan(text)),
            None => repository_validated(run),
        }
    }
}

/// The paths of the writes among operations.
pub open spec fn written_paths(operations: Seq<OperationView>) -> Seq<Seq<char>> {
    operations.filter_map(
        |o: OperationView|
            match o {
                OperationView::WriteRepository(file) => Some(file.path),
                _ => None,
            },
    )
}

/// The paths of the deletions among operations.
pub open spec fn deleted_paths(operations: Seq<OperationView>) -> Seq<Seq<char>> {
    operations.filter_map(
        |o: OperationView|
            match o {
                OperationView::DeleteRepository(path) => Some(path),
                _ => None,
            },
    )
}

/// The texts of paths.
pub open spec fn paths_view(paths: Seq<RepositoryPath>) -> Seq<Seq<char>> {
    Seq::new(paths.len(), |i: int| paths[i]@)
}

impl<'a> Batch<'a> {
    /// What a run that has not ended needs of its batch.
    spec fn whole(&self) -> bool {
        repository_run_fits(at_stage(self@, RepositoryStageView::Ensure))
    }

    /// Changes the ledger for one operation.
    fn reach(&mut self, i: usize, goal: &Goal) -> (r: Result<(), LedgerError>)
        requires
            old(self).whole(),
            i < old(self).operations@.len(),
        ensures
            final(self)@ == (RepositoryRun { ledger: final(self)@.ledger, ..old(self)@ }),
            match goal_reached(old(self)@.ledger, old(self)@.operations[i as int], old(self)@.previous[i as int], goal@) {
                Ok(next) => r is Ok && final(self)@.ledger == next,
                Err(e) => r matches Err(f) && f@ == e && final(self)@.ledger == old(self)@.ledger,
            },
    {
        proof {
            assert(self@.operations[i as int] == self.operations@[i as int]@);
            assert(self@.previous[i as int] == optional_github(self.previous@[i as int]));
        }
        match (goal, &self.operations[i]) {
            (Goal::Attempted(base, status), IntegrationOperation::WriteRepository(file)) => {
                let path: RepositoryPath = file.path.duplicate();
                let sha256: String = file.sha256.clone();
                self.ledger.record_github_file(&path, sha256, base.clone(), *status)
            },
            (Goal::Attempted(base, status), IntegrationOperation::DeleteRepository { path }) => {
                match &self.previous[i] {
                    Some(entry) => {
                        let sha256: String = entry.sha256.clone();
                        let path: RepositoryPath = path.duplicate();
                        self.ledger.record_github_file(&path, sha256, base.clone(), *status)
                    },
                    None => Ok(()),
                }
            },
            (Goal::Published(revision), IntegrationOperation::WriteRepository(file)) => {
                let path: RepositoryPath = file.path.duplicate();
                let sha256: String = file.sha256.clone();
                self.ledger.record_github_file(
                    &path,
                    sha256,
                    revision.clone(),
                    OperationState::Confirmed,
                )
            },
            (Goal::Published(_), IntegrationOperation::DeleteRepository { path }) => {
                let path: RepositoryPath = path.duplicate();
                self.ledger.remove_github_file(&path)
            },
            (Goal::Restored, IntegrationOperation::WriteRepository(file)) => {
                let path: RepositoryPath = file.path.duplicate();
                self.restore(&path, i)
            },
            (Goal::Restored, IntegrationOperation::DeleteRepository { path }) => {
                let path: RepositoryPath = path.duplicate();
                self.restore(&path, i)
            },
            _ => Ok(()),
        }
    }

    /// Records what the ledger said of a file before the batch.
    fn restore(&mut self, path: &RepositoryPath, i: usize) -> (r: Result<(), LedgerError>)
        requires
            i < old(self).previous@.len(),
        ensures
            final(self)@ == (RepositoryRun { ledger: final(self)@.ledger, ..old(self)@ }),
            match (match optional_github(old(self).previous@[i as int]) {
                None => github_removed(old(self)@.ledger, path@),
                Some(entry) => github_recorded(old(self)@.ledger, path@, entry),
            }) {
                Ok(next) => r is Ok && final(self)@.ledger == next,
                Err(e) => r matches Err(f) && f@ == e && final(self)@.ledger == old(self)@.ledger,
            },
    {
        match &self.previous[i] {
            None => self.ledger.remove_github_file(path),
            Some(entry) => {
                let sha256: String = entry.sha256.clone();
                let revision: String = entry.revision.clone();
                let status: OperationState = entry.status;
                self.ledger.record_github_file(path, sha256, revision, status)
            },
        }
    }

    /// Changes the ledger for the whole batch.
    fn reach_all(&mut self, goal: &Goal) -> (r: Option<LedgerError>)
        requires
            old(self).whole(),
        ensures
            final(self)@ == (RepositoryRun { ledger: final(self)@.ledger, ..old(self)@ }),
            (final(self)@.ledger, optional_error(r)) == batch_reached(
                old(self)@.ledger,
                old(self)@.operations,
                old(self)@.previous,
                goal@,
                0,
            ),
    {
        let ghost start = self@;
        let mut i: usize = 0;
        while i < self.operations.len()
            invariant
                i <= self.operations@.len(),
                self.whole(),
                start == old(self)@,
                self@ == (RepositoryRun { ledger: self@.ledger, ..start }),
                batch_reached(start.ledger, start.operations, start.previous, goal@, 0)
                    == batch_reached(self@.ledger, start.operations, start.previous, goal@, i as int),
            decreases self.operations@.len() - i,
        {
            match self.reach(i, goal) {
                Ok(()) => {},
                Err(e) => {
                    return Some(e);
                },
            }
            i = i + 1;
        }
        None
    }

    /// Changes the ledger for the whole batch, then goes on in the stage.
    fn changed(self, goal: Goal, stage: RepositoryStage) -> (r: RepositoryExecutor<'a>)
        requires
            self.whole(),
            !(stage is Examine || stage is Stage),
        ensures
            r@ == repository_changed(self@, goal@, stage@),
    {
        let mut batch: Batch<'a> = self;
        match batch.reach_all(&goal) {
            Some(e) => RepositoryExecutor {
                batch,
                stage: RepositoryStage::Done(
                    Some(RepositoryExecutionError::Ledger(LedgerFailure::Refused(e))),
                ),
            },
            None => RepositoryExecutor { batch, stage },
        }
    }

    /// Restores what the ledger said before the batch.
    fn rejected(self, message: String) -> (r: RepositoryExecutor<'a>)
        requires
            self.whole(),
        ensures
            r@ == repository_rejected(self@, message@),
    {
        self.changed(
            Goal::Restored,
            RepositoryStage::PersistOutcome(Some(RepositoryExecutionError::Rejected(message))),
        )
    }

    /// Validates the writes from the index on.
    fn validated(self) -> (r: RepositoryExecutor<'a>)
        requires
            self.whole(),
        ensures
            r@ == repository_validated(self@),
    {
        let ghost start = self@;
        let mut batch: Batch<'a> = self;
        while batch.index < batch.operations.len()
            invariant
                batch.whole(),
                start == self@,
                repository_validated(start) == repository_validated(batch@),
            decreases batch.operations@.len() - batch.index,
        {
            proof {
                assert(batch@.operations[batch.index as int]
                    == batch.operations@[batch.index as int]@);
            }
            match &batch.operations[batch.index] {
                IntegrationOperation::WriteRepository(file) => match &file.source {
                    RepositoryFileSource::BundleMember => {
                        match bundle_problem(batch.bundle, file) {
                            Some(message) => {
                                let path: RepositoryPath = file.path.duplicate();
                                return RepositoryExecutor {
                                    batch,
                                    stage: RepositoryStage::Done(
                                        Some(
                                            RepositoryExecutionError::LocalValidation {
                                                path,
                                                message,
                                            },
                                        ),
                                    ),
                                };
                            },
                            None => {},
                        }
                    },
                    RepositoryFileSource::PublicationFile { .. } => {
                        return RepositoryExecutor { batch, stage: RepositoryStage::Examine };
                    },
                },
                _ => {},
            }
            let ghost before = batch@;
            batch.index = batch.index + 1;
            proof {
                assert(batch@ == (RepositoryRun { index: before.index + 1, ..before }));
            }
        }
        RepositoryExecutor { batch, stage: RepositoryStage::Ensure }
    }

    /// Goes on after an operation was staged.
    fn advanced(self) -> (r: RepositoryExecutor<'a>)
        requires
            self.whole(),
            self.index < self.operations@.len(),
        ensures
            r@ == repository_advanced(self@),
    {
        let mut batch: Batch<'a> = self;
        proof {
            assert(batch.operations.len() <= usize::MAX);
        }
        batch.index = batch.index + 1;
        if batch.index < batch.operations.len() {
            RepositoryExecutor { batch, stage: RepositoryStage::Stage }
        } else {
            RepositoryExecutor { batch, stage: RepositoryStage::Commit }
        }
    }

    /// Ends with the durable ledger where the changed one could not be written.
    fn not_persisted(self, durable: Option<IntegrationLedger>, message: String) -> (r:
        RepositoryExecutor<'a>)
        requires
            self.whole(),
        ensures
            r@ == repository_not_persisted(self@, optional_ledger(durable), message@),
    {
        let mut batch: Batch<'a> = self;
        match durable {
            Some(ledger) => {
                batch.ledger = ledger;
            },
            None => {},
        }
        RepositoryExecutor {
            batch,
            stage: RepositoryStage::Done(
                Some(RepositoryExecutionError::Ledger(LedgerFailure::NotPersisted(message))),
            ),
        }
    }

    /// Records what the commit of the batch came to.
    fn settled(self, outcome: Result<CommitInfo, ProviderFailure>) -> (r: RepositoryExecutor<'a>)
        requires
            self.whole(),
        ensures
            r@ == repository_settled(
                self@,
                match outcome {
                    Ok(info) => Ok(info.revision@),
                    Err(failure) => Err(failure@),
                },
            ),
    {
        let mut batch: Batch<'a> = self;
        match outcome {
            Ok(info) => {
                batch.revision = Some(info.revision.clone());
                batch.changed(
                    Goal::Published(info.revision),
                    RepositoryStage::PersistOutcome(None),
                )
            },
            Err(failure) => match classify_commit_failure(&failure.error) {
                FailureKind::NoEffect => batch.rejected(
                    joined(
                        "commit was rejected and the ref was not updated: ",
                        failure.description.as_str(),
                    ),
                ),
                FailureKind::Ambiguous => {
                    let base: String = batch.base.clone();
                    let message: String = joined(
                        "commit outcome cannot be determined; the ref may have been updated: ",
                        failure.description.as_str(),
                    );
                    batch.changed(
                        Goal::Attempted(base, OperationState::Unknown),
                        RepositoryStage::PersistOutcome(
                            Some(RepositoryExecutionError::Ambiguous(message)),
                        ),
                    )
                },
            },
        }
    }

    /// Takes the observation of a publication file.
    #[verifier::rlimit(40)]
    fn examined(self, seen: FileObservation) -> (r: RepositoryExecutor<'a>)
        requires
            self.whole(),
            self.index < self.operations@.len(),
            self@.operations[self@.index] is WriteRepository,
            self@.operations[self@.index]->WriteRepository_0.source is PublicationFile,
        ensures
            r@ == repository_step(
                at_stage(self@, RepositoryStageView::Examine),
                RepositoryEventView::Examined(seen@),
            ),
    {
        let mut batch: Batch<'a> = self;
        proof {
            assert(batch@.operations[batch.index as int] == batch.operations@[batch.index as int]@);
            assert(batch.operations.len() <= usize::MAX);
        }
        let (path, problem): (RepositoryPath, Option<String>) = match &batch.operations[batch.index] {
            IntegrationOperation::WriteRepository(file) => match &file.source {
                RepositoryFileSource::PublicationFile { source_path } => (
                    file.path.duplicate(),
                    source_problem(
                        SourceRole::PublicationFile,
                        source_path.as_str(),
                        &seen,
                        file.sha256.as_str(),
                        file.size_bytes,
                    ),
                ),
                _ => {
                    return RepositoryExecutor { batch, stage: RepositoryStage::Examine };
                },
            },
            _ => {
                return RepositoryExecutor { batch, stage: RepositoryStage::Examine };
            },
        };
        match problem {
            Some(problem) => {
                let message: String = joined("invalid publication file: ", problem.as_str());
                RepositoryExecutor {
                    batch,
                    stage: RepositoryStage::Done(
                        Some(RepositoryExecutionError::LocalValidation { path, message }),
                    ),
                }
            },
            None => {
                batch.index = batch.index + 1;
                proof {
                    let run = at_stage(self@, RepositoryStageView::Examine);
                    assert(batch@ == (RepositoryRun { index: self@.index + 1, ..self@ }));
                    lemma_validation_ignores_stage(
                        batch@,
                        RepositoryRun { index: run.index + 1, ..run },
                    );
                }
                batch.validated()
            },
        }
    }

    /// Takes whether the repository is there.
    fn ensured(self, outcome: Result<(), ProviderFailure>) -> (r: RepositoryExecutor<'a>)
        requires
            self.whole(),
        ensures
            r@ == repository_step(
                at_stage(self@, RepositoryStageView::Ensure),
                RepositoryEvent::Ensured(outcome)@,
            ),
    {
        match outcome {
            Ok(()) => RepositoryExecutor { batch: self, stage: RepositoryStage::Probe },
            Err(failure) => {
                let message: String = joined(
                    "repository is not available before staging: ",
                    failure.description.as_str(),
                );
                RepositoryExecutor {
                    batch: self,
                    stage: RepositoryStage::Done(
                        Some(RepositoryExecutionError::Initialization(message)),
                    ),
                }
            },
        }
    }

    /// Takes the base revision and marks the batch as in flight.
    fn probed(self, outcome: Result<CommitInfo, ProviderFailure>) -> (r: RepositoryExecutor<'a>)
        requires
            self.whole(),
        ensures
            r@ == repository_step(
                at_stage(self@, RepositoryStageView::Probe),
                RepositoryEvent::Committed(outcome)@,
            ),
    {
        match outcome {
            Ok(info) => {
                let mut batch: Batch<'a> = self;
                batch.base = info.revision.clone();
                batch.index = 0;
                batch.changed(
                    Goal::Attempted(info.revision, OperationState::Pending),
                    RepositoryStage::PersistPending,
                )
            },
            Err(failure) => {
                let message: String = joined(
                    "failed to read the repository base revision: ",
                    failure.description.as_str(),
                );
                RepositoryExecutor {
                    batch: self,
                    stage: RepositoryStage::Done(
                        Some(RepositoryExecutionError::Initialization(message)),
                    ),
                }
            },
        }
    }

    /// Takes the outcome of staging a write.
    fn written(self, outcome: Result<FileMetadata, ProviderFailure>) -> (r: RepositoryExecutor<'a>)
        requires
            self.whole(),
            self.index < self.operations@.len(),
        ensures
            r@ == repository_step(
                at_stage(self@, RepositoryStageView::Stage),
                RepositoryEvent::Written(outcome)@,
            ),
    {
        proof {
            assert(self@.operations[self.index as int] == self.operations@[self.index as int]@);
        }
        let file: DesiredRepositoryFile = match &self.operations[self.index] {
            IntegrationOperation::WriteRepository(file) => file.duplicate(),
            _ => {
                return RepositoryExecutor { batch: self, stage: RepositoryStage::Stage };
            },
        };
        match outcome {
            Ok(metadata) => {
                if same_text(metadata.path.as_str(), file.path.as_str()) && same_text(
                    metadata.sha256.as_str(),
                    file.sha256.as_str(),
                ) && metadata.size_bytes == file.size_bytes {
                    self.advanced()
                } else {
                    self.rejected(
                        joined3(
                            "write of ",
                            file.path.as_str(),
                            " returned divergent metadata; the batch was not committed",
                        ),
                    )
                }
            },
            Err(failure) => {
                let mut message: String = joined3(
                    "staging of ",
                    file.path.as_str(),
                    " failed before publication: ",
                );
                message.append(failure.description.as_str());
                self.rejected(message)
            },
        }
    }

    /// Takes the outcome of staging a deletion.
    fn deleted(self, outcome: Result<(), ProviderFailure>) -> (r: RepositoryExecutor<'a>)
        requires
            self.whole(),
            self.index < self.operations@.len(),
        ensures
            r@ == repository_step(
                at_stage(self@, RepositoryStageView::Stage),
                RepositoryEvent::Deleted(outcome)@,
            ),
    {
        proof {
            assert(self@.operations[self.index as int] == self.operations@[self.index as int]@);
        }
        let path: RepositoryPath = match &self.operations[self.index] {
            IntegrationOperation::DeleteRepository { path } => path.duplicate(),
            _ => {
                return RepositoryExecutor { batch: self, stage: RepositoryStage::Stage };
            },
        };
        match outcome {
            Ok(()) => self.advanced(),
            Err(failure) => {
                let mut message: String = joined3(
                    "staging the deletion of ",
                    path.as_str(),
                    " failed before publication: ",
                );
                message.append(failure.description.as_str());
                self.rejected(message)
            },
        }
    }
}

/// Whether an operation contradicts the ledger or the batch.
fn guard(operations: &Vec<IntegrationOperation>, ledger: &IntegrationLedger, i: usize) -> (r:
    Option<String>)
    requires
        i < operations@.len(),
        forall|j: int|
            0 <= j < operations@.len() ==> is_repository_operation(
                #[trigger] operations_view(operations@)[j],
            ),
    ensures
        option_text(r) == guard_text(operations_view(operations@), ledger@, i as int),
{
    let ghost batch = operations_view(operations@);
    proof {
        assert(batch[i as int] == operations@[i as int]@);
    }
    let (path, deletes): (&RepositoryPath, bool) = match path_of(&operations[i]) {
        Some(found) => found,
        None => {
            return None;
        },
    };
    let mut j: usize = 0;
    while j < i
        invariant
            j <= i < operations@.len(),
            batch == operations_view(operations@),
            path@ == operation_path(batch[i as int]),
            forall|k: int| 0 <= k < operations@.len() ==> is_repository_operation(#[trigger] batch[k]),
            forall|k: int| 0 <= k < j ==> #[trigger] operation_path(batch[k]) != path@,
        decreases i - j,
    {
        proof {
            assert(batch[j as int] == operations@[j as int]@);
        }
        match path_of(&operations[j]) {
            Some((other, _)) => {
                if same_text(other.as_str(), path.as_str()) {
                    proof {
                        assert(operation_path(batch[j as int]) == path@);
                    }
                    return Some(joined("duplicate repository operation for ", path.as_str()));
                }
            },
            None => {},
        }
        j = j + 1;
    }
    match ledger.github_inventory.get(path.as_str()) {
        None => {
            if deletes {
                Some(
                    joined3(
                        "cannot DELETE ",
                        path.as_str(),
                        " because it is absent from the ledger",
                    ),
                )
            } else {
                None
            }
        },
        Some(entry) => {
            if entry.status == OperationState::Confirmed {
                None
            } else {
                let mut text: String = joined3(
                    if deletes {
                        "cannot DELETE "
                    } else {
                        "cannot WRITE "
                    },
                    path.as_str(),
                    " while the ledger marks it ",
                );
                text.append(status_name(entry.status));
                Some(text)
            }
        },
    }
}

/// The path of a repository operation, and whether it deletes.
fn path_of(operation: &IntegrationOperation) -> (r: Option<(&RepositoryPath, bool)>)
    ensures
        match r {
            Some((path, deletes)) => is_repository_operation(operation@) && path@ == operation_path(
                operation@,
            ) && deletes == (operation@ is DeleteRepository),
            None => !is_repository_operation(operation@),
        },
{
    match operation {
        IntegrationOperation::WriteRepository(file) => Some((&file.path, false)),
        IntegrationOperation::DeleteRepository { path } => Some((path, true)),
        _ => None,
    }
}

impl<'a> RepositoryExecutor<'a> {
    #[verifier::type_invariant]
    spec fn fits(self) -> bool {
        repository_run_fits(self@)
    }

    /// Starts a run. A plan that still carries reconciliation requirements is
    /// refused and nothing is executed. A plan without repository operations
    /// succeeds without any remote call.
    pub fn new(
        plan: &IntegrationPlan,
        bundle: &'a ApplicationBundle,
        ledger: IntegrationLedger,
    ) -> (r: Result<RepositoryExecutor<'a>, RepositoryExecutionError>)
        ensures
            match r {
                Ok(run) => plan@.requirements.len() == 0 && run@ == repository_started(
                    plan@.operations,
                    bundle@.files,
                    ledger@,
                ) && repository_run_fits(run@),
                Err(e) => plan@.requirements.len() > 0 && e@
                    == RepositoryErrorView::ReconciliationRequired(plan@.requirements),
            },
    {
        if plan.reconciliation_requirements.len() > 0 {
            return Err(
                RepositoryExecutionError::ReconciliationRequired(
                    copy_requirements(&plan.reconciliation_requirements),
                ),
            );
        }
        let ghost all = operations_view(plan.operations@);
        let ghost on_repository = |o: OperationView| is_repository_operation(o);
        let mut operations: Vec<IntegrationOperation> = Vec::new();
        let mut i: usize = 0;
        proof {
            reveal(Seq::filter);
            assert(operations_view(operations@) =~= all.take(0).filter(on_repository));
        }
        while i < plan.operations.len()
            invariant
                i <= plan.operations@.len(),
                all == operations_view(plan.operations@),
                on_repository == (|o: OperationView| is_repository_operation(o)),
                operations_view(operations@) == all.take(i as int).filter(on_repository),
                forall|j: int|
                    0 <= j < operations@.len() ==> is_repository_operation(
                        #[trigger] operations_view(operations@)[j],
                    ),
            decreases plan.operations@.len() - i,
        {
            let ghost before = operations_view(operations@);
            proof {
                reveal(Seq::filter);
                assert(all[i as int] == plan.operations@[i as int]@);
                assert(all.take(i as int + 1).drop_last() =~= all.take(i as int));
                assert(all.take(i as int + 1).last() == all[i as int]);
            }
            match path_of(&plan.operations[i]) {
                Some(_) => {
                    operations.push(plan.operations[i].duplicate());
                    proof {
                        let after = operations_view(operations@);
                        assert(after =~= before.push(all[i as int]));
                        assert forall|j: int|
                            0 <= j < operations@.len() implies is_repository_operation(
                            #[trigger] after[j],
                        ) by {
                            if j < before.len() {
                                assert(after[j] == before[j]);
                            }
                        }
                    }
                },
                None => {},
            }
            i = i + 1;
        }
        proof {
            assert(all.take(all.len() as int) =~= all);
        }
        let run: RepositoryExecutor<'a> = Self::guarded(operations, bundle, ledger);
        proof {
            use_type_invariant(&run);
        }
        Ok(run)
    }

    /// Checks a batch against the ledger, then validates its writes.
    fn guarded(
        operations: Vec<IntegrationOperation>,
        bundle: &'a ApplicationBundle,
        ledger: IntegrationLedger,
    ) -> (r: RepositoryExecutor<'a>)
        requires
            forall|j: int|
                0 <= j < operations@.len() ==> is_repository_operation(
                    #[trigger] operations_view(operations@)[j],
                ),
        ensures
            ({
                let batch = operations_view(operations@);
                let run = RepositoryRun {
                    operations: batch,
                    files: bundle@.files,
                    previous: batch_entries(batch, ledger@),
                    index: 0,
                    ledger: ledger@,
                    base: Seq::empty(),
                    revision: None,
                    stage: RepositoryStageView::Done(None),
                };
                r@ == if batch.len() == 0 {
                    run
                } else {
                    match guards_text(batch, ledger@, 0) {
                        Some(text) => repository_failed(
                            run,
                            RepositoryErrorView::InconsistentPlan(text),
                        ),
                        None => repository_validated(run),
                    }
                }
            }),
    {
        let ghost batch = operations_view(operations@);
        let mut previous: Vec<Option<GitHubInventoryEntry>> = Vec::new();
        let mut problem: Option<String> = None;
        let mut i: usize = 0;
        while i < operations.len()
            invariant
                i <= operations@.len(),
                batch == operations_view(operations@),
                previous@.len() == i,
                forall|j: int|
                    0 <= j < operations@.len() ==> is_repository_operation(#[trigger] batch[j]),
                forall|j: int|
                    0 <= j < i ==> #[trigger] github_entries(previous@)[j] == github_entry(
                        ledger@,
                        operation_path(batch[j]),
                    ),
                match problem {
                    Some(text) => guards_text(batch, ledger@, 0) == Some(text@),
                    None => guards_text(batch, ledger@, 0) == guards_text(batch, ledger@, i as int)
                        && forall|j: int|
                        0 <= j < i && batch[j] is DeleteRepository ==> #[trigger] github_entry(
                            ledger@,
                            operation_path(batch[j]),
                        ) is Some,
                },
            decreases operations@.len() - i,
        {
            proof {
                assert(batch[i as int] == operations@[i as int]@);
            }
            match &problem {
                None => {
                    problem = guard(&operations, &ledger, i);
                },
                Some(_) => {},
            }
            let ghost before = github_entries(previous@);
            let entry: Option<GitHubInventoryEntry> = match path_of(&operations[i]) {
                Some((path, _)) => match ledger.github_inventory.get(path.as_str()) {
                    Some(entry) => Some(entry.duplicate()),
                    None => None,
                },
                None => None,
            };
            previous.push(entry);
            proof {
                let after = github_entries(previous@);
                assert(after =~= before.push(optional_github(entry)));
                assert forall|j: int| 0 <= j < i + 1 implies #[trigger] after[j] == github_entry(
                    ledger@,
                    operation_path(batch[j]),
                ) by {
                    if j < i {
                        assert(after[j] == before[j]);
                    }
                }
            }
            i = i + 1;
        }
        proof {
            assert(github_entries(previous@) =~= batch_entries(batch, ledger@));
        }
        let empty: bool = operations.len() == 0;
        let run: Batch<'a> = Batch {
            operations,
            bundle,
            previous,
            index: 0,
            ledger,
            base: "".to_owned(),
            revision: None,
        };
        proof {
            reveal_strlit("");
            assert(""@ =~= Seq::<char>::empty());
        }
        if empty {
            return RepositoryExecutor { batch: run, stage: RepositoryStage::Done(None) };
        }
        match problem {
            Some(text) => RepositoryExecutor {
                batch: run,
                stage: RepositoryStage::Done(
                    Some(RepositoryExecutionError::InconsistentPlan(text)),
                ),
            },
            None => {
                proof {
                    assert forall|j: int| 0 <= j < run@.operations.len() implies {
                        &&& is_repository_operation(#[trigger] run@.operations[j])
                        &&& run@.operations[j] is DeleteRepository ==> run@.previous[j] is Some
                    } by {
                        assert(run@.operations[j] == batch[j]);
                        assert(github_entries(run.previous@)[j] == github_entry(
                            ledger@,
                            operation_path(batch[j]),
                        ));
                    }
                }
                run.validated()
            },
        }
    }

    /// What is to be done next.
    pub fn action(&self) -> (r: RepositoryAction<'_>)
        ensures
            r@ == repository_action(self@),
            r@ is Finished <==> self@.stage is Done,
    {
        proof {
            use_type_invariant(self);
            if self.batch.index < self.batch.operations@.len() {
                assert(operations_view(self.batch.operations@)[self.batch.index as int]
                    == self.batch.operations@[self.batch.index as int]@);
            }
        }
        match &self.stage {
            RepositoryStage::Examine => match &self.batch.operations[self.batch.index] {
                IntegrationOperation::WriteRepository(file) => match &file.source {
                    RepositoryFileSource::PublicationFile { source_path } => {
                        RepositoryAction::Examine(source_path)
                    },
                    _ => RepositoryAction::Finished,
                },
                _ => RepositoryAction::Finished,
            },
            RepositoryStage::Ensure => RepositoryAction::Ensure,
            RepositoryStage::Probe => RepositoryAction::Commit(
                joined("photo-publisher publish ", self.batch.ledger.local_generation.as_str()),
            ),
            RepositoryStage::PersistPending => RepositoryAction::Persist(&self.batch.ledger),
            RepositoryStage::Stage => match &self.batch.operations[self.batch.index] {
                IntegrationOperation::WriteRepository(file) => RepositoryAction::Write(file),
                IntegrationOperation::DeleteRepository { path } => RepositoryAction::Delete(path),
                _ => RepositoryAction::Finished,
            },
            RepositoryStage::Commit => RepositoryAction::Commit(
                joined("photo-publisher publish ", self.batch.ledger.local_generation.as_str()),
            ),
            RepositoryStage::PersistOutcome(_) => RepositoryAction::Persist(&self.batch.ledger),
            RepositoryStage::Done(_) => RepositoryAction::Finished,
        }
    }

    /// The ledger as the run has changed it so far.
    pub fn ledger(&self) -> (r: &IntegrationLedger)
        ensures
            r@ == self@.ledger,
    {
        &self.batch.ledger
    }

    /// Takes what came of the action. An event that the run does not wait for
    /// changes nothing.
    pub fn handle(self, event: RepositoryEvent) -> (r: RepositoryExecutor<'a>)
        ensures
            r@ == repository_step(self@, event@),
    {
        proof {
            use_type_invariant(&self);
        }
        let RepositoryExecutor { batch, stage } = self;
        match (stage, event) {
            (RepositoryStage::Examine, RepositoryEvent::Examined(seen)) => batch.examined(seen),
            (RepositoryStage::Ensure, RepositoryEvent::Ensured(outcome)) => batch.ensured(outcome),
            (RepositoryStage::Probe, RepositoryEvent::Committed(outcome)) => batch.probed(outcome),
            (RepositoryStage::PersistPending, RepositoryEvent::Persisted) => {
                if batch.index < batch.operations.len() {
                    RepositoryExecutor { batch, stage: RepositoryStage::Stage }
                } else {
                    RepositoryExecutor { batch, stage: RepositoryStage::Commit }
                }
            },
            (
                RepositoryStage::PersistPending,
                RepositoryEvent::NotPersisted { durable, message },
            ) => batch.not_persisted(durable, message),
            (RepositoryStage::Stage, RepositoryEvent::Written(outcome)) => batch.written(outcome),
            (RepositoryStage::Stage, RepositoryEvent::Deleted(outcome)) => batch.deleted(outcome),
            (RepositoryStage::Commit, RepositoryEvent::Committed(outcome)) => batch.settled(
                outcome,
            ),
            (RepositoryStage::PersistOutcome(failure), RepositoryEvent::Persisted) => {
                RepositoryExecutor { batch, stage: RepositoryStage::Done(failure) }
            },
            (
                RepositoryStage::PersistOutcome(_),
                RepositoryEvent::NotPersisted { durable, message },
            ) => batch.not_persisted(durable, message),
            (stage, _) => RepositoryExecutor { batch, stage },
        }
    }

    /// The ledger and the result of a run that has ended.
    pub fn finish(self) -> (r: (
        IntegrationLedger,
        Result<RepositoryExecutionReport, RepositoryExecutionError>,
    ))
        requires
            self@.stage is Done,
        ensures
            r.0@ == self@.ledger,
            match (self@.stage, r.1) {
                (RepositoryStageView::Done(None), Ok(report)) => paths_view(report.written@)
                    == written_paths(self@.operations) && paths_view(report.deleted@)
                    == deleted_paths(self@.operations) && option_text(report.revision)
                    == self@.revision,
                (RepositoryStageView::Done(Some(e)), Err(f)) => f@ == e,
                _ => false,
            },
    {
        let RepositoryExecutor { batch, stage } = self;
        let Batch { operations, bundle: _, previous: _, index: _, ledger, base: _, revision } =
            batch;
        match stage {
            RepositoryStage::Done(Some(e)) => {
                return (ledger, Err(e));
            },
            _ => {},
        }
        let ghost all = operations_view(operations@);
        let mut written: Vec<RepositoryPath> = Vec::new();
        let mut deleted: Vec<RepositoryPath> = Vec::new();
        let mut i: usize = 0;
        proof {
            assert(paths_view(written@) =~= written_paths(all.take(0)));
            assert(paths_view(deleted@) =~= deleted_paths(all.take(0)));
        }
        while i < operations.len()
            invariant
                i <= operations@.len(),
                all == operations_view(operations@),
                paths_view(written@) == written_paths(all.take(i as int)),
                paths_view(deleted@) == deleted_paths(all.take(i as int)),
            decreases operations@.len() - i,
        {
            let ghost up = paths_view(written@);
            let ghost down = paths_view(deleted@);
            proof {
                assert(all.take(i as int + 1).drop_last() =~= all.take(i as int));
                assert(all.take(i as int + 1).last() == operations@[i as int]@);
            }
            match &operations[i] {
                IntegrationOperation::WriteRepository(file) => {
                    written.push(file.path.duplicate());
                    proof {
                        assert(paths_view(written@) =~= up + seq![file.path@]);
                    }
                },
                IntegrationOperation::DeleteRepository { path } => {
                    deleted.push(path.duplicate());
                    proof {
                        assert(paths_view(deleted@) =~= down + seq![path@]);
                    }
                },
                _ => {},
            }
            i = i + 1;
        }
        proof {
            assert(all.take(all.len() as int) =~= all);
        }
        (ledger, Ok(RepositoryExecutionReport { written, deleted, revision }))
    }
}

// ---------------------------------------------------------------------------
// Laws
// ---------------------------------------------------------------------------
/// A run after several events.
pub open spec fn repository_steps(
    run: RepositoryRun,
    events: Seq<RepositoryEventView>,
) -> RepositoryRun
    decreases events.len(),
{
    if events.len() == 0 {
        run
    } else {
        repository_step(repository_steps(run, events.drop_last()), events.last())
    }
}

/// Whether an operation from one on is about a path.
pub open spec fn in_batch(batch: Seq<OperationView>, i: int, path: Seq<char>) -> bool {
    exists|j: int| i <= j < batch.len() && #[trigger] operation_path(batch[j]) == path
}

/// Whether a batch names each path once.
pub open spec fn paths_distinct(batch: Seq<OperationView>) -> bool {
    forall|i: int, j: int|
        0 <= i < j < batch.len() ==> #[trigger] operation_path(batch[i])
            != #[trigger] operation_path(batch[j])
}

/// Whether two ledgers differ in their repository files at most.
pub open spec fn same_but_files(a: LedgerView, b: LedgerView) -> bool {
    &&& a.schema_version == b.schema_version
    &&& a.configuration_fingerprint == b.configuration_fingerprint
    &&& a.local_generation == b.local_generation
    &&& a.state_hash == b.state_hash
    &&& a.manifest_hash == b.manifest_hash
    &&& a.r2_inventory == b.r2_inventory
    &&& a.vercel == b.vercel
}

/// Whether two ledgers say the same of a path.
pub open spec fn same_file(a: LedgerView, b: LedgerView, path: Seq<char>) -> bool {
    github_entry(a, path) == github_entry(b, path)
}

/// Whether an operation is recorded as part of a batch on a revision: with the
/// digest of the file that it writes, or the one that was recorded before for
/// the file that it deletes.
pub open spec fn is_attempted(
    ledger: LedgerView,
    operation: OperationView,
    previous: Option<GitHubEntryView>,
    revision: Seq<char>,
    status: OperationState,
) -> bool {
    github_entry(ledger, operation_path(operation)) == Some(
        attempted_entry(operation, previous, revision, status),
    )
}

/// Whether the ledger says that an operation is published by a revision.
pub open spec fn is_published(
    ledger: LedgerView,
    operation: OperationView,
    revision: Seq<char>,
) -> bool {
    github_entry(ledger, operation_path(operation)) == match operation {
        OperationView::WriteRepository(file) => Some(
            GitHubEntryView {
                sha256: file.sha256,
                revision,
                status: OperationState::Confirmed,
            },
        ),
        _ => None,
    }
}

proof fn lemma_in_batch_next(batch: Seq<OperationView>, i: int)
    requires
        0 <= i < batch.len(),
    ensures
        forall|path: Seq<char>| #[trigger]
            in_batch(batch, i, path) <==> operation_path(batch[i]) == path || in_batch(
                batch,
                i + 1,
                path,
            ),
{
    assert forall|path: Seq<char>| #[trigger]
        in_batch(batch, i, path) implies operation_path(batch[i]) == path || in_batch(
        batch,
        i + 1,
        path,
    ) by {
        let j = choose|j: int| i <= j < batch.len() && #[trigger] operation_path(batch[j]) == path;
        if j > i {
            assert(in_batch(batch, i + 1, path));
        }
    }
    assert forall|path: Seq<char>| operation_path(batch[i]) == path || in_batch(batch, i + 1, path)
        implies #[trigger] in_batch(batch, i, path) by {
        if in_batch(batch, i + 1, path) {
            let j = choose|j: int|
                i + 1 <= j < batch.len() && #[trigger] operation_path(batch[j]) == path;
            assert(operation_path(batch[j]) == path);
        } else {
            assert(operation_path(batch[i]) == path);
        }
    }
}

proof fn lemma_attempted(
    ledger: LedgerView,
    batch: Seq<OperationView>,
    previous: Seq<Option<GitHubEntryView>>,
    revision: Seq<char>,
    status: OperationState,
    i: int,
)
    requires
        0 <= i <= batch.len(),
        paths_distinct(batch),
        batch_reached(ledger, batch, previous, BatchGoal::Attempted(revision, status), i).1 is None,
    ensures
        ({
            let after = batch_reached(
                ledger,
                batch,
                previous,
                BatchGoal::Attempted(revision, status),
                i,
            ).0;
            &&& is_listed(ledger.github_inventory) ==> is_listed(after.github_inventory)
            &&& same_but_files(after, ledger)
            &&& forall|path: Seq<char>|
                !in_batch(batch, i, path) ==> #[trigger] same_file(after, ledger, path)
            &&& forall|j: int|
                i <= j < batch.len() ==> is_attempted(
                    after,
                    #[trigger] batch[j],
                    previous[j],
                    revision,
                    status,
                )
        }),
    decreases batch.len() - i,
{
    let goal = BatchGoal::Attempted(revision, status);
    if i < batch.len() {
        let next = goal_reached(ledger, batch[i], previous[i], goal)->Ok_0;
        if is_listed(ledger.github_inventory) {
            let path = operation_path(batch[i]);
            lemma_listed(ledger.github_inventory, path, next.github_inventory[path]);
        }
        lemma_attempted(next, batch, previous, revision, status, i + 1);
        lemma_in_batch_next(batch, i);
        let after = batch_reached(ledger, batch, previous, goal, i).0;
        assert forall|path: Seq<char>| !in_batch(batch, i, path) implies #[trigger] same_file(
            after,
            ledger,
            path,
        ) by {
            assert(same_file(after, next, path));
        }
        let path = operation_path(batch[i]);
        if in_batch(batch, i + 1, path) {
            let j = choose|j: int|
                i + 1 <= j < batch.len() && #[trigger] operation_path(batch[j]) == path;
            assert(operation_path(batch[i]) != operation_path(batch[j]));
        }
        assert(same_file(after, next, path));
        assert(is_attempted(after, batch[i], previous[i], revision, status));
    }
}

proof fn lemma_published(
    ledger: LedgerView,
    batch: Seq<OperationView>,
    previous: Seq<Option<GitHubEntryView>>,
    revision: Seq<char>,
    i: int,
)
    requires
        0 <= i <= batch.len(),
        paths_distinct(batch),
        forall|j: int| 0 <= j < batch.len() ==> is_repository_operation(#[trigger] batch[j]),
        batch_reached(ledger, batch, previous, BatchGoal::Published(revision), i).1 is None,
    ensures
        ({
            let after = batch_reached(ledger, batch, previous, BatchGoal::Published(revision), i).0;
            &&& is_listed(ledger.github_inventory) ==> is_listed(after.github_inventory)
            &&& same_but_files(after, ledger)
            &&& forall|path: Seq<char>|
                !in_batch(batch, i, path) ==> #[trigger] same_file(after, ledger, path)
            &&& forall|j: int|
                i <= j < batch.len() ==> is_published(after, #[trigger] batch[j], revision)
        }),
    decreases batch.len() - i,
{
    let goal = BatchGoal::Published(revision);
    if i < batch.len() {
        let next = goal_reached(ledger, batch[i], previous[i], goal)->Ok_0;
        if is_listed(ledger.github_inventory) {
            let path = operation_path(batch[i]);
            lemma_listed(ledger.github_inventory, path, next.github_inventory[path]);
        }
        lemma_published(next, batch, previous, revision, i + 1);
        lemma_in_batch_next(batch, i);
        let after = batch_reached(ledger, batch, previous, goal, i).0;
        let path = operation_path(batch[i]);
        assert forall|other: Seq<char>| !in_batch(batch, i, other) implies #[trigger] same_file(
            after,
            ledger,
            other,
        ) by {
            assert(same_file(after, next, other));
        }
        if in_batch(batch, i + 1, path) {
            let j = choose|j: int|
                i + 1 <= j < batch.len() && #[trigger] operation_path(batch[j]) == path;
            assert(operation_path(batch[i]) != operation_path(batch[j]));
        }
        assert(same_file(after, next, path));
        assert(is_published(after, batch[i], revision));
    }
}

/// What the ledger needs of an operation of a batch to record it.
pub open spec fn operation_valid(operation: OperationView) -> bool {
    match operation {
        OperationView::WriteRepository(file) => is_portable_path(file.path) && is_sha256_text(
            file.sha256,
        ),
        OperationView::DeleteRepository(path) => is_portable_path(path),
        _ => false,
    }
}

/// A valid ledger accepts every operation of a valid batch as attempted.
pub proof fn lemma_attempt_accepted(
    ledger: LedgerView,
    batch: Seq<OperationView>,
    previous: Seq<Option<GitHubEntryView>>,
    revision: Seq<char>,
    status: OperationState,
    i: int,
)
    requires
        0 <= i <= batch.len() == previous.len(),
        ledger_valid(ledger),
        !is_blank_text(revision),
        forall|j: int|
            0 <= j < batch.len() ==> operation_valid(#[trigger] batch[j]) && (
            batch[j] is DeleteRepository ==> previous[j] is Some && is_sha256_text(
                previous[j]->0.sha256,
            )),
    ensures
        ({
            let reached = batch_reached(
                ledger,
                batch,
                previous,
                BatchGoal::Attempted(revision, status),
                i,
            );
            reached.1 is None && ledger_valid(reached.0)
        }),
    decreases batch.len() - i,
{
    let goal = BatchGoal::Attempted(revision, status);
    if i < batch.len() {
        assert(operation_valid(batch[i]));
        let entry = GitHubEntryView {
            sha256: match batch[i] {
                OperationView::WriteRepository(file) => file.sha256,
                _ => previous[i]->0.sha256,
            },
            revision,
            status,
        };
        let path = operation_path(batch[i]);
        law_recorded_file_accepted(ledger, path, entry);
        lemma_attempt_accepted(
            with_github(ledger, path, entry),
            batch,
            previous,
            revision,
            status,
            i + 1,
        );
    }
}

proof fn lemma_restored(
    ledger: LedgerView,
    start: LedgerView,
    batch: Seq<OperationView>,
    previous: Seq<Option<GitHubEntryView>>,
    i: int,
)
    requires
        0 <= i <= batch.len(),
        ledger_valid(ledger),
        ledger_valid(start),
        same_but_files(ledger, start),
        paths_distinct(batch),
        previous == batch_entries(batch, start),
        forall|path: Seq<char>| #[trigger]
            in_batch(batch, i, path) ==> github_entry(ledger, path) is Some,
        forall|path: Seq<char>|
            !in_batch(batch, i, path) ==> #[trigger] same_file(ledger, start, path),
    ensures
        batch_reached(ledger, batch, previous, BatchGoal::Restored, i) == (
            start,
            None::<LedgerErrorView>,
        ),
    decreases batch.len() - i,
{
    if i >= batch.len() {
        assert forall|path: Seq<char>| true implies #[trigger] ledger.github_inventory.dom().contains(
            path,
        ) == start.github_inventory.dom().contains(path) && (
        ledger.github_inventory.dom().contains(path) ==> ledger.github_inventory[path]
            == start.github_inventory[path]) by {
            assert(!in_batch(batch, i, path));
            assert(same_file(ledger, start, path));
        }
        assert(ledger.github_inventory =~= start.github_inventory);
        assert(ledger_json(ledger) == ledger_json(start));
    } else {
        let path = operation_path(batch[i]);
        lemma_in_batch_next(batch, i);
        assert(in_batch(batch, i, path));
        if in_batch(batch, i + 1, path) {
            let j = choose|j: int|
                i + 1 <= j < batch.len() && #[trigger] operation_path(batch[j]) == path;
            assert(operation_path(batch[i]) != operation_path(batch[j]));
        }
        assert(previous[i] == github_entry(start, path));
        let next = match previous[i] {
            None => without_github(ledger, path),
            Some(entry) => with_github(ledger, path, entry),
        };
        match previous[i] {
            None => law_removed_file_accepted(ledger, path),
            Some(entry) => law_recorded_file_accepted(ledger, path, entry),
        }
        assert forall|other: Seq<char>| #[trigger] in_batch(batch, i + 1, other) implies github_entry(
            next,
            other,
        ) is Some by {
            assert(in_batch(batch, i, other));
        }
        assert forall|other: Seq<char>| !in_batch(batch, i + 1, other) implies #[trigger] same_file(
            next,
            start,
            other,
        ) by {
            if other != path {
                assert(!in_batch(batch, i, other));
                assert(same_file(ledger, start, other));
            }
        }
        lemma_restored(next, start, batch, previous, i + 1);
    }
}

/// Whether a run has its batch in flight.
pub open spec fn batch_in_flight(run: RepositoryRun) -> bool {
    run.stage is PersistPending || run.stage is Stage || run.stage is Commit
}

/// What holds of every run that began on a ledger: it holds together; until
/// the base revision is known the ledger is as it was; a batch in flight is
/// recorded as pending on the base revision, path by path, and nothing else
/// has changed; and a batch that succeeded is published and nothing else has
/// changed.
pub open spec fn repository_sound(start: LedgerView, run: RepositoryRun) -> bool {
    &&& repository_run_fits(run)
    &&& !(run.stage is Done) ==> {
        &&& paths_distinct(run.operations)
        &&& run.operations.len() > 0
        &&& run.previous == batch_entries(run.operations, start)
    }
    &&& match run.stage {
        RepositoryStageView::Examine
        | RepositoryStageView::Ensure
        | RepositoryStageView::Probe => run.ledger == start,
        RepositoryStageView::PersistPending
        | RepositoryStageView::Stage
        | RepositoryStageView::Commit => {
            &&& (run.ledger, None::<LedgerErrorView>) == batch_reached(
                start,
                run.operations,
                run.previous,
                BatchGoal::Attempted(run.base, OperationState::Pending),
                0,
            )
            &&& is_listed(start.github_inventory) ==> is_listed(run.ledger.github_inventory)
            &&& same_but_files(run.ledger, start)
            &&& forall|path: Seq<char>|
                !in_batch(run.operations, 0, path) ==> #[trigger] same_file(run.ledger, start, path)
            &&& forall|j: int|
                0 <= j < run.operations.len() ==> is_attempted(
                    run.ledger,
                    #[trigger] run.operations[j],
                    run.previous[j],
                    run.base,
                    OperationState::Pending,
                )
        },
        RepositoryStageView::PersistOutcome(None) => batch_published(start, run),
        RepositoryStageView::Done(None) => if run.operations.len() == 0 {
            run.ledger == start && run.revision is None
        } else {
            batch_published(start, run)
        },
        _ => true,
    }
}

/// Whether the batch of a run that began on a ledger is published, and nothing
/// else has changed.
pub open spec fn batch_published(start: LedgerView, run: RepositoryRun) -> bool {
    &&& run.revision is Some
    &&& is_listed(start.github_inventory) ==> is_listed(run.ledger.github_inventory)
    &&& same_but_files(run.ledger, start)
    &&& forall|path: Seq<char>|
        !in_batch(run.operations, 0, path) ==> #[trigger] same_file(run.ledger, start, path)
    &&& forall|j: int|
        0 <= j < run.operations.len() ==> is_published(
            run.ledger,
            #[trigger] run.operations[j],
            run.revision->0,
        )
}

proof fn lemma_validated_sound(start: LedgerView, run: RepositoryRun)
    requires
        repository_run_fits(at_stage(run, RepositoryStageView::Ensure)),
        paths_distinct(run.operations),
        run.operations.len() > 0,
        run.previous == batch_entries(run.operations, start),
        run.ledger == start,
    ensures
        repository_sound(start, repository_validated(run)),
        repository_validated(run).operations == run.operations,
        !batch_in_flight(repository_validated(run)),
        !(repository_validated(run).stage is PersistOutcome),
        repository_validated(run).stage != RepositoryStageView::Done(None),
    decreases run.operations.len() - run.index,
{
    if run.index < run.operations.len() {
        lemma_validated_sound(start, RepositoryRun { index: run.index + 1, ..run });
    }
}

proof fn lemma_guards_distinct(batch: Seq<OperationView>, ledger: LedgerView, n: int)
    requires
        0 <= n <= batch.len(),
        guards_text(batch, ledger, n) is None,
        forall|j: int| 0 <= j < n ==> #[trigger] guard_text(batch, ledger, j) is None,
    ensures
        forall|j: int| 0 <= j < batch.len() ==> #[trigger] guard_text(batch, ledger, j) is None,
    decreases batch.len() - n,
{
    if n < batch.len() {
        lemma_guards_distinct(batch, ledger, n + 1);
    }
}

/// A run is sound from its beginning.
pub proof fn law_started_repository_is_sound(
    operations: Seq<OperationView>,
    files: Seq<(Seq<char>, Seq<u8>)>,
    ledger: LedgerView,
)
    ensures
        repository_sound(ledger, repository_started(operations, files, ledger)),
        repository_started(operations, files, ledger).operations == operations.filter(
            |o: OperationView| is_repository_operation(o),
        ),
{
    let on_repository = |o: OperationView| is_repository_operation(o);
    let batch = operations.filter(on_repository);
    assert forall|i: int| 0 <= i < batch.len() implies is_repository_operation(
        #[trigger] batch[i],
    ) by {
        operations.lemma_filter_pred(on_repository, i);
    }
    if batch.len() > 0 && guards_text(batch, ledger, 0) is None {
        lemma_guards_distinct(batch, ledger, 0);
        assert forall|i: int, j: int| 0 <= i < j < batch.len() implies #[trigger] operation_path(
            batch[i],
        ) != #[trigger] operation_path(batch[j]) by {
            assert(guard_text(batch, ledger, j) is None);
        }
        let run = RepositoryRun {
            operations: batch,
            files,
            previous: batch_entries(batch, ledger),
            index: 0,
            ledger,
            base: Seq::empty(),
            revision: None,
            stage: RepositoryStageView::Done(None),
        };
        assert forall|i: int| 0 <= i < batch.len() implies {
            &&& is_repository_operation(#[trigger] batch[i])
            &&& batch[i] is DeleteRepository ==> run.previous[i] is Some
        } by {
            assert(guard_text(batch, ledger, i) is None);
        }
        lemma_validated_sound(ledger, run);
    }
}

/// Whatever happens, a run stays sound.
pub proof fn law_repository_stays_sound(
    start: LedgerView,
    run: RepositoryRun,
    event: RepositoryEventView,
)
    requires
        repository_sound(start, run),
    ensures
        repository_sound(start, repository_step(run, event)),
        repository_step(run, event).operations == run.operations,
{
    match (run.stage, event) {
        (RepositoryStageView::Examine, RepositoryEventView::Examined(_)) => {
            lemma_validated_sound(start, RepositoryRun { index: run.index + 1, ..run });
        },
        (RepositoryStageView::Probe, RepositoryEventView::Committed(Ok(base))) => {
            let goal = BatchGoal::Attempted(base, OperationState::Pending);
            if batch_reached(run.ledger, run.operations, run.previous, goal, 0).1 is None {
                lemma_attempted(
                    run.ledger,
                    run.operations,
                    run.previous,
                    base,
                    OperationState::Pending,
                    0,
                );
            }
        },
        (RepositoryStageView::Commit, RepositoryEventView::Committed(Ok(revision))) => {
            let goal = BatchGoal::Published(revision);
            let reached = batch_reached(run.ledger, run.operations, run.previous, goal, 0);
            if reached.1 is None {
                lemma_published(run.ledger, run.operations, run.previous, revision, 0);
                assert forall|path: Seq<char>| !in_batch(run.operations, 0, path) implies
                #[trigger] same_file(reached.0, start, path) by {
                    assert(same_file(reached.0, run.ledger, path));
                    assert(same_file(run.ledger, start, path));
                }
            }
        },
        _ => {},
    }
}

/// The persisted `Pending` always precedes the first remote change: a run asks
/// for a write, a deletion or the commit of the batch only after it asked for
/// the ledger to be written with every path of the batch pending on the base
/// revision, and was told that this was done.
pub proof fn law_pending_precedes_repository_change(
    start: LedgerView,
    run: RepositoryRun,
    event: RepositoryEventView,
)
    requires
        repository_sound(start, run),
        !(run.stage is Stage || run.stage is Commit),
        ({
            let after = repository_step(run, event).stage;
            after is Stage || after is Commit
        }),
    ensures
        repository_action(run) == RepositoryActionView::Persist(run.ledger),
        event is Persisted,
        forall|j: int|
            0 <= j < run.operations.len() ==> is_attempted(
                run.ledger,
                #[trigger] run.operations[j],
                github_entry(start, operation_path(run.operations[j])),
                run.base,
                OperationState::Pending,
            ),
{
    if run.stage is Examine {
        lemma_validated_sound(start, RepositoryRun { index: run.index + 1, ..run });
    }
}

/// Marking every path as in flight and restoring what was recorded before gives
/// back the ledger.
proof fn lemma_rejected_batch_restored(
    ledger: LedgerView,
    batch: Seq<OperationView>,
    base: Seq<char>,
)
    requires
        ledger_valid(ledger),
        paths_distinct(batch),
        !is_blank_text(base),
        forall|j: int|
            0 <= j < batch.len() ==> operation_valid(#[trigger] batch[j]) && (
            batch[j] is DeleteRepository ==> github_entry(ledger, operation_path(batch[j])) is Some),
    ensures
        ({
            let previous = batch_entries(batch, ledger);
            let marked = batch_reached(
                ledger,
                batch,
                previous,
                BatchGoal::Attempted(base, OperationState::Pending),
                0,
            );
            &&& marked.1 is None
            &&& batch_reached(marked.0, batch, previous, BatchGoal::Restored, 0) == (
                ledger,
                None::<LedgerErrorView>,
            )
        }),
{
    let previous = batch_entries(batch, ledger);
    assert forall|j: int| 0 <= j < batch.len() implies operation_valid(#[trigger] batch[j]) && (
    batch[j] is DeleteRepository ==> previous[j] is Some && is_sha256_text(
        previous[j]->0.sha256,
    )) by {
        let path = operation_path(batch[j]);
        if batch[j] is DeleteRepository {
            assert(ledger.github_inventory.dom().contains(path));
            assert(github_entry_error(path, ledger.github_inventory[path]) is None);
        }
    }
    lemma_attempt_accepted(ledger, batch, previous, base, OperationState::Pending, 0);
    lemma_attempted(ledger, batch, previous, base, OperationState::Pending, 0);
    let marked = batch_reached(
        ledger,
        batch,
        previous,
        BatchGoal::Attempted(base, OperationState::Pending),
        0,
    ).0;
    assert forall|path: Seq<char>| #[trigger] in_batch(batch, 0, path) implies github_entry(
        marked,
        path,
    ) is Some by {
        let j = choose|j: int| 0 <= j < batch.len() && #[trigger] operation_path(batch[j]) == path;
        assert(is_attempted(marked, batch[j], previous[j], base, OperationState::Pending));
    }
    lemma_restored(marked, ledger, batch, previous, 0);
}

/// A run that provably published nothing leaves the ledger exactly as it was
/// before the batch.
pub proof fn law_rejected_batch_restores_ledger(
    start: LedgerView,
    run: RepositoryRun,
    event: RepositoryEventView,
)
    requires
        ledger_valid(start),
        repository_sound(start, run),
        batch_in_flight(run),
        forall|j: int| 0 <= j < run.operations.len() ==> operation_valid(#[trigger] run.operations[j]),
        ({
            let after = repository_step(run, event).stage;
            after matches RepositoryStageView::PersistOutcome(
                Some(RepositoryErrorView::Rejected(_)),
            )
        }),
    ensures
        repository_step(run, event).ledger == start,
{
    let batch = run.operations;
    let entry = GitHubEntryView {
        sha256: match batch[0] {
            OperationView::WriteRepository(file) => file.sha256,
            _ => run.previous[0]->0.sha256,
        },
        revision: run.base,
        status: OperationState::Pending,
    };
    let path = operation_path(batch[0]);
    let first = with_github(start, path, entry);
    assert(ledger_error(first) is None);
    lemma_listed(start.github_inventory, path, entry);
    law_valid_iff_no_error(first);
    assert(first.github_inventory.dom().contains(path));
    assert(!is_blank_text(run.base));
    assert forall|j: int| 0 <= j < batch.len() implies operation_valid(#[trigger] batch[j]) && (
    batch[j] is DeleteRepository ==> github_entry(start, operation_path(batch[j])) is Some) by {
        assert(is_repository_operation(run.operations[j]));
    }
    lemma_rejected_batch_restored(start, batch, run.base);
}

/// A commit whose outcome cannot be determined leaves every path of the batch
/// recorded as `Unknown` on the base revision, with the digest of the file that
/// was to be written, or of the one that was to be deleted.
pub proof fn law_ambiguous_commit_is_unknown(
    start: LedgerView,
    run: RepositoryRun,
    failure: FailureView,
)
    requires
        repository_sound(start, run),
        run.stage is Commit,
        commit_failure_kind(failure.error) == FailureKind::Ambiguous,
        repository_step(run, RepositoryEventView::Committed(Err(failure))).stage is PersistOutcome,
    ensures
        forall|j: int|
            0 <= j < run.operations.len() ==> is_attempted(
                repository_step(run, RepositoryEventView::Committed(Err(failure))).ledger,
                #[trigger] run.operations[j],
                github_entry(start, operation_path(run.operations[j])),
                run.base,
                OperationState::Unknown,
            ),
{
    lemma_attempted(
        run.ledger,
        run.operations,
        run.previous,
        run.base,
        OperationState::Unknown,
        0,
    );
}

/// A run that has ended stays as it is, whatever happens.
pub proof fn law_ended_repository_is_final(run: RepositoryRun, event: RepositoryEventView)
    requires
        run.stage is Done,
    ensures
        repository_step(run, event) == run,
        repository_action(run) == RepositoryActionView::Finished,
{
}

/// The batch is committed once: after its commit returned a run asks for
/// nothing but the ledger to be written.
pub proof fn law_batch_is_committed_once(run: RepositoryRun, event: RepositoryEventView)
    requires
        run.stage is Commit,
        repository_step(run, event) != run,
    ensures
        ({
            let after = repository_step(run, event).stage;
            after is PersistOutcome || after is Done
        }),
{
}

/// The message of the commit does not change while a batch is carried out.
pub proof fn law_commit_message_is_stable(
    start: LedgerView,
    run: RepositoryRun,
    event: RepositoryEventView,
)
    requires
        repository_sound(start, run),
        !(run.stage is Done),
        !(repository_step(run, event).stage is Done),
        !(run.stage is PersistOutcome),
        !(repository_step(run, event).stage is PersistOutcome),
    ensures
        commit_message(repository_step(run, event).ledger) == commit_message(start),
{
    law_repository_stays_sound(start, run, event);
}

proof fn lemma_repository_steps_sound(
    operations: Seq<OperationView>,
    files: Seq<(Seq<char>, Seq<u8>)>,
    ledger: LedgerView,
    events: Seq<RepositoryEventView>,
)
    ensures
        ({
            let end = repository_steps(repository_started(operations, files, ledger), events);
            &&& repository_sound(ledger, end)
            &&& end.operations == operations.filter(|o: OperationView| is_repository_operation(o))
        }),
    decreases events.len(),
{
    let run = repository_started(operations, files, ledger);
    if events.len() == 0 {
        law_started_repository_is_sound(operations, files, ledger);
    } else {
        lemma_repository_steps_sound(operations, files, ledger, events.drop_last());
        law_repository_stays_sound(
            ledger,
            repository_steps(run, events.drop_last()),
            events.last(),
        );
    }
}

/// A run that ends without an error, whatever happened on the way, has
/// published every repository operation of the plan by one revision, and the
/// ledger says so and nothing else. Without such operations it has changed
/// nothing and made no commit.
pub proof fn law_successful_repository_run_publishes_all(
    operations: Seq<OperationView>,
    files: Seq<(Seq<char>, Seq<u8>)>,
    ledger: LedgerView,
    events: Seq<RepositoryEventView>,
)
    requires
        repository_steps(repository_started(operations, files, ledger), events).stage
            == RepositoryStageView::Done(None),
    ensures
        ({
            let end = repository_steps(repository_started(operations, files, ledger), events);
            &&& end.operations == operations.filter(|o: OperationView| is_repository_operation(o))
            &&& if end.operations.len() == 0 {
                end.ledger == ledger && end.revision is None
            } else {
                batch_published(ledger, end)
            }
        }),
{
    lemma_repository_steps_sound(operations, files, ledger, events);
}

} // verus!
