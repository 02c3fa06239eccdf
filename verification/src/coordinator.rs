//! Integrated publication coordination as a saga ordered
//! `Storage → Repository → Hosting`.
//!
//! The coordinator orders the executors and nothing else. It is not a
//! transaction: if any step fails, execution stops immediately, earlier steps
//! are never compensated automatically, and the durable ledger state written
//! by the executors is what governs the next cycle. The coordinator stores no
//! state of its own: publication identity lives in the ledger header (adopted
//! here, once, before any remote effect), and every resource state transition
//! belongs to the executors.
//!
//! ```text
//! reconciliation requirements?  -> refuse, nothing remote
//! ledger Pending/Unknown?       -> refuse, nothing remote
//! provenance mismatch?          -> refuse, nothing remote
//! adopt publication header (when safe and needed) -> persist
//! storage execution     (only if storage operations exist)
//! repository execution  (only if repository operations exist)
//! hosting execution     (only if a PublishHosting operation exists)
//! ```

use crate::executor::{
    is_storage_operation, keys_view, storage_error_text, StorageErrorView, StorageExecutionError,
    StorageExecutionReport,
};
use crate::hosting::{
    hosting_error_text, optional_deployment, HostingErrorView, HostingExecutionError,
    HostingExecutionReport,
};
use crate::inventory::{
    ascending_entries, is_listed, lemma_key_position, lemma_listed_entries, Inventory,
};
use crate::ledger::{
    attempted, law_adoption_preserves_inventories, ledger_failure_text, ledger_valid,
    optional_ledger, status_name, status_text, with_header, GitHubInventoryEntry, IntegrationLedger,
    LedgerFailure, LedgerFailureView, LedgerView, OperationState, R2InventoryEntry,
};
use crate::planner::{
    copy_requirements, desired_error, operations_view, requirements_view, DesiredPublication,
    DesiredView, IntegrationOperation, IntegrationPlan, IntegrationPlanView, OperationView,
    ReconciliationRequirement, RequirementView,
};
use crate::provider::DeploymentView;
use crate::repository::{
    is_repository_operation, paths_view, repository_error_text, RepositoryErrorView,
    RepositoryExecutionError, RepositoryExecutionReport,
};
use crate::text::{decimal, decimal_text, joined, joined3, option_text, same_text};
use vstd::prelude::*;

verus! {

// ---------------------------------------------------------------------------
// Errors and reports
// ---------------------------------------------------------------------------
/// Why an integrated publication run failed.
///
/// Executor errors are wrapped per phase, preserving their original
/// classification. Nothing is reclassified, retried, resolved, or hidden.
#[derive(Debug, PartialEq, Eq)]
pub enum CoordinationError {
    /// The plan carries reconciliation requirements; nothing was adopted,
    /// persisted, or executed.
    Blocked(Vec<ReconciliationRequirement>),
    /// The durable ledger records a `Pending`/`Unknown` entry of a previous,
    /// unfinished publication; adopting a new header or executing anything
    /// would recontextualize an unsafe state, so nothing happened.
    UnsafeLedger(String),
    /// The desired publication and the ledger do not describe a consistent
    /// continuation of the same publication; nothing was executed.
    ProvenanceMismatch(String),
    /// The ledger header could not be adopted or persisted; no executor ran.
    Ledger(LedgerFailure),
    /// Storage phase failure, with its original classification.
    Storage(StorageExecutionError),
    /// Repository phase failure, with its original classification.
    Repository(RepositoryExecutionError),
    /// Hosting phase failure, with its original classification.
    Hosting(HostingExecutionError),
}

/// The mathematical form of a coordination error.
pub enum CoordinationErrorView {
    Blocked(Seq<RequirementView>),
    UnsafeLedger(Seq<char>),
    ProvenanceMismatch(Seq<char>),
    Ledger(LedgerFailureView),
    Storage(StorageErrorView),
    Repository(RepositoryErrorView),
    Hosting(HostingErrorView),
}

impl View for CoordinationError {
    type V = CoordinationErrorView;

    open spec fn view(&self) -> CoordinationErrorView {
        match *self {
            CoordinationError::Blocked(requirements) => CoordinationErrorView::Blocked(
                requirements_view(requirements@),
            ),
            CoordinationError::UnsafeLedger(text) => CoordinationErrorView::UnsafeLedger(text@),
            CoordinationError::ProvenanceMismatch(text) =>
                CoordinationErrorView::ProvenanceMismatch(text@),
            CoordinationError::Ledger(failure) => CoordinationErrorView::Ledger(failure@),
            CoordinationError::Storage(e) => CoordinationErrorView::Storage(e@),
            CoordinationError::Repository(e) => CoordinationErrorView::Repository(e@),
            CoordinationError::Hosting(e) => CoordinationErrorView::Hosting(e@),
        }
    }
}

/// The error in words.
pub open spec fn coordination_error_text(e: CoordinationErrorView) -> Seq<char> {
    match e {
        CoordinationErrorView::Blocked(requirements) =>
            "publication requires reconciliation first ("@ + decimal_text(requirements.len())
                + " requirement(s))"@,
        CoordinationErrorView::UnsafeLedger(text) => "unsafe ledger state: "@ + text,
        CoordinationErrorView::ProvenanceMismatch(text) => "publication provenance mismatch: "@
            + text,
        CoordinationErrorView::Ledger(failure) => ledger_failure_text(failure),
        CoordinationErrorView::Storage(e) => "storage execution failed: "@ + storage_error_text(e),
        CoordinationErrorView::Repository(e) => "repository execution failed: "@
            + repository_error_text(e),
        CoordinationErrorView::Hosting(e) => "hosting execution failed: "@ + hosting_error_text(e),
    }
}

impl CoordinationError {
    /// The error in words.
    pub fn message(&self) -> (r: String)
        ensures
            r@ == coordination_error_text(self@),
    {
        match self {
            CoordinationError::Blocked(requirements) => {
                let count: String = decimal(requirements.len() as u64);
                joined3(
                    "publication requires reconciliation first (",
                    count.as_str(),
                    " requirement(s))",
                )
            },
            CoordinationError::UnsafeLedger(text) => joined("unsafe ledger state: ", text.as_str()),
            CoordinationError::ProvenanceMismatch(text) => joined(
                "publication provenance mismatch: ",
                text.as_str(),
            ),
            CoordinationError::Ledger(failure) => failure.message(),
            CoordinationError::Storage(e) => joined(
                "storage execution failed: ",
                e.message().as_str(),
            ),
            CoordinationError::Repository(e) => joined(
                "repository execution failed: ",
                e.message().as_str(),
            ),
            CoordinationError::Hosting(e) => joined(
                "hosting execution failed: ",
                e.message().as_str(),
            ),
        }
    }
}

/// The mathematical form of an optional error.
pub open spec fn coordination_failure(e: Option<CoordinationError>) -> Option<
    CoordinationErrorView,
> {
    match e {
        Some(error) => Some(error@),
        None => None,
    }
}

/// Outcome of one run.
///
/// Each field is `Some` exactly when that family had work in the plan and its
/// executor completed durably. "Published" is deliberately not stored here or
/// anywhere: it remains derivable from the durable ledger.
#[derive(Debug, PartialEq, Eq)]
pub struct PublicationReport {
    pub storage: Option<StorageExecutionReport>,
    pub repository: Option<RepositoryExecutionReport>,
    pub hosting: Option<HostingExecutionReport>,
}

impl Default for PublicationReport {
    /// The report of a run that had nothing to do.
    fn default() -> (r: Self)
        ensures
            r.storage is None,
            r.repository is None,
            r.hosting is None,
    {
        PublicationReport { storage: None, repository: None, hosting: None }
    }
}

/// The mathematical form of a storage report.
pub struct StorageReportView {
    pub uploaded: Seq<Seq<char>>,
    pub deleted: Seq<Seq<char>>,
}

/// The mathematical form of a repository report.
pub struct RepositoryReportView {
    pub written: Seq<Seq<char>>,
    pub deleted: Seq<Seq<char>>,
    pub revision: Option<Seq<char>>,
}

/// The mathematical form of a hosting report.
pub struct HostingReportView {
    pub deployment: Option<DeploymentView>,
}

/// The mathematical form of a publication report.
pub struct PublicationReportView {
    pub storage: Option<StorageReportView>,
    pub repository: Option<RepositoryReportView>,
    pub hosting: Option<HostingReportView>,
}

impl View for StorageExecutionReport {
    type V = StorageReportView;

    open spec fn view(&self) -> StorageReportView {
        StorageReportView {
            uploaded: keys_view(self.uploaded@),
            deleted: keys_view(self.deleted@),
        }
    }
}

impl View for RepositoryExecutionReport {
    type V = RepositoryReportView;

    open spec fn view(&self) -> RepositoryReportView {
        RepositoryReportView {
            written: paths_view(self.written@),
            deleted: paths_view(self.deleted@),
            revision: option_text(self.revision),
        }
    }
}

impl View for HostingExecutionReport {
    type V = HostingReportView;

    open spec fn view(&self) -> HostingReportView {
        HostingReportView { deployment: optional_deployment(self.deployment) }
    }
}

impl View for PublicationReport {
    type V = PublicationReportView;

    open spec fn view(&self) -> PublicationReportView {
        PublicationReportView {
            storage: match self.storage {
                Some(report) => Some(report@),
                None => None,
            },
            repository: match self.repository {
                Some(report) => Some(report@),
                None => None,
            },
            hosting: match self.hosting {
                Some(report) => Some(report@),
                None => None,
            },
        }
    }
}

// ---------------------------------------------------------------------------
// Gates
// ---------------------------------------------------------------------------
/// The status of every recorded object, in key order.
pub open spec fn object_statuses(ledger: LedgerView) -> Seq<(Seq<char>, OperationState)> {
    let entries = ascending_entries(ledger.r2_inventory);
    Seq::new(entries.len(), |i: int| (entries[i].0, entries[i].1.status))
}

/// The status of every recorded file, in path order.
pub open spec fn file_statuses(ledger: LedgerView) -> Seq<(Seq<char>, OperationState)> {
    let entries = ascending_entries(ledger.github_inventory);
    Seq::new(entries.len(), |i: int| (entries[i].0, entries[i].1.status))
}

/// The first entry, from one on, that is not confirmed.
pub open spec fn first_unsettled(s: Seq<(Seq<char>, OperationState)>, i: int) -> Option<
    (Seq<char>, OperationState),
>
    decreases s.len() - i,
{
    if i < 0 || i >= s.len() {
        None
    } else if s[i].1 != OperationState::Confirmed {
        Some(s[i])
    } else {
        first_unsettled(s, i + 1)
    }
}

/// A description of the first ledger entry that is not `Confirmed`, if any.
/// Such entries mean a previous publication did not conclude safely and must
/// block any new run.
pub open spec fn unsafe_ledger_text(ledger: LedgerView) -> Option<Seq<char>> {
    match first_unsettled(object_statuses(ledger), 0) {
        Some((key, status)) => Some("storage object "@ + key + " is "@ + status_text(status)),
        None => match first_unsettled(file_statuses(ledger), 0) {
            Some((path, status)) => Some(
                "repository file "@ + path + " is "@ + status_text(status),
            ),
            None => match ledger.vercel {
                Some(entry) => if entry.status != OperationState::Confirmed {
                    Some("hosting publication is "@ + status_text(entry.status))
                } else {
                    None
                },
                None => None,
            },
        },
    }
}

/// Whether every entry of a ledger is confirmed.
pub open spec fn all_confirmed(ledger: LedgerView) -> bool {
    &&& forall|key: Seq<char>|
        ledger.r2_inventory.dom().contains(key) ==> (
        #[trigger] ledger.r2_inventory[key]).status == OperationState::Confirmed
    &&& forall|path: Seq<char>|
        ledger.github_inventory.dom().contains(path) ==> (
        #[trigger] ledger.github_inventory[path]).status == OperationState::Confirmed
    &&& ledger.vercel is Some ==> ledger.vercel->0.status == OperationState::Confirmed
}

/// Why the desired publication does not continue the ledger's. A new
/// generation with the same configuration does; the same generation with
/// other hashes does not.
pub open spec fn provenance_text(desired: DesiredView, ledger: LedgerView) -> Option<Seq<char>> {
    if desired.configuration_fingerprint != ledger.configuration_fingerprint {
        Some("configuration fingerprint differs between desired state and ledger"@)
    } else if ledger.local_generation == desired.local.generation && (ledger.state_hash
        != desired.local.state_hash || ledger.manifest_hash != desired.local.manifest_hash) {
        Some("same generation with different publication hashes"@)
    } else {
        None
    }
}

/// Whether the ledger's header names the desired publication.
pub open spec fn header_matches(desired: DesiredView, ledger: LedgerView) -> bool {
    ledger.local_generation == desired.local.generation && ledger.state_hash
        == desired.local.state_hash && ledger.manifest_hash == desired.local.manifest_hash
}

fn unsettled_object(inventory: &Inventory<R2InventoryEntry>) -> (r: Option<
    (String, OperationState),
>)
    ensures
        forall|ledger: LedgerView|
            #![trigger object_statuses(ledger)]
            ledger.r2_inventory == inventory@ ==> (match r {
                Some((key, status)) => first_unsettled(object_statuses(ledger), 0) == Some(
                    (key@, status),
                ),
                None => first_unsettled(object_statuses(ledger), 0) is None,
            }),
{
    let n: usize = inventory.len();
    let ghost entries = ascending_entries(inventory@);
    let ghost s = Seq::new(entries.len(), |i: int| (entries[i].0, entries[i].1.status));
    let mut i: usize = 0;
    while i < n
        invariant
            i <= n,
            n == entries.len(),
            entries == ascending_entries(inventory@),
            s == Seq::new(entries.len(), |i: int| (entries[i].0, entries[i].1.status)),
            first_unsettled(s, 0) == first_unsettled(s, i as int),
        decreases n - i,
    {
        let status: OperationState = inventory.value_at(i).status;
        if status != OperationState::Confirmed {
            return Some((inventory.key_at(i).clone(), status));
        }
        i = i + 1;
    }
    None
}

fn unsettled_file(inventory: &Inventory<GitHubInventoryEntry>) -> (r: Option<
    (String, OperationState),
>)
    ensures
        forall|ledger: LedgerView|
            #![trigger file_statuses(ledger)]
            ledger.github_inventory == inventory@ ==> (match r {
                Some((path, status)) => first_unsettled(file_statuses(ledger), 0) == Some(
                    (path@, status),
                ),
                None => first_unsettled(file_statuses(ledger), 0) is None,
            }),
{
    let n: usize = inventory.len();
    let ghost entries = ascending_entries(inventory@);
    let ghost s = Seq::new(entries.len(), |i: int| (entries[i].0, entries[i].1.status));
    let mut i: usize = 0;
    while i < n
        invariant
            i <= n,
            n == entries.len(),
            entries == ascending_entries(inventory@),
            s == Seq::new(entries.len(), |i: int| (entries[i].0, entries[i].1.status)),
            first_unsettled(s, 0) == first_unsettled(s, i as int),
        decreases n - i,
    {
        let status: OperationState = inventory.value_at(i).status;
        if status != OperationState::Confirmed {
            return Some((inventory.key_at(i).clone(), status));
        }
        i = i + 1;
    }
    None
}

/// A description of the first ledger entry that is not `Confirmed`, if any.
pub fn unsafe_ledger_state(ledger: &IntegrationLedger) -> (r: Option<String>)
    ensures
        option_text(r) == unsafe_ledger_text(ledger@),
{
    match unsettled_object(&ledger.r2_inventory) {
        Some((key, status)) => {
            let mut text: String = joined3("storage object ", key.as_str(), " is ");
            text.append(status_name(status));
            return Some(text);
        },
        None => {},
    }
    match unsettled_file(&ledger.github_inventory) {
        Some((path, status)) => {
            let mut text: String = joined3("repository file ", path.as_str(), " is ");
            text.append(status_name(status));
            return Some(text);
        },
        None => {},
    }
    match &ledger.vercel {
        Some(entry) => if entry.status != OperationState::Confirmed {
            Some(joined("hosting publication is ", status_name(entry.status)))
        } else {
            None
        },
        None => None,
    }
}

// ---------------------------------------------------------------------------
// The machine
// ---------------------------------------------------------------------------
/// What the machine waits for.
#[derive(Debug, PartialEq, Eq)]
enum CoordinationStage {
    /// The adopted header is written.
    Adopt,
    /// The storage operations are executed.
    Storage,
    /// The repository operations are executed.
    Repository,
    /// The hosting operation is executed.
    Hosting,
    /// Nothing: the run has ended.
    Done(Option<CoordinationError>),
}

/// The mathematical form of a stage.
pub enum CoordinationStageView {
    Adopt,
    Storage,
    Repository,
    Hosting,
    Done(Option<CoordinationErrorView>),
}

impl View for CoordinationStage {
    type V = CoordinationStageView;

    closed spec fn view(&self) -> CoordinationStageView {
        match *self {
            CoordinationStage::Adopt => CoordinationStageView::Adopt,
            CoordinationStage::Storage => CoordinationStageView::Storage,
            CoordinationStage::Repository => CoordinationStageView::Repository,
            CoordinationStage::Hosting => CoordinationStageView::Hosting,
            CoordinationStage::Done(e) => CoordinationStageView::Done(coordination_failure(e)),
        }
    }
}

/// What came of an action. A phase that ended hands back the ledger as it
/// left it.
#[allow(inconsistent_fields)]
#[derive(Debug, PartialEq, Eq)]
pub enum CoordinationEvent {
    /// The ledger was written.
    Persisted,
    /// The ledger could not be written. The durable ledger, where it can be
    /// read, stays authoritative.
    NotPersisted { durable: Option<IntegrationLedger>, message: String },
    /// The storage phase ended.
    StorageEnded {
        ledger: IntegrationLedger,
        result: Result<StorageExecutionReport, StorageExecutionError>,
    },
    /// The repository phase ended.
    RepositoryEnded {
        ledger: IntegrationLedger,
        result: Result<RepositoryExecutionReport, RepositoryExecutionError>,
    },
    /// The hosting phase ended.
    HostingEnded {
        ledger: IntegrationLedger,
        result: Result<HostingExecutionReport, HostingExecutionError>,
    },
}

/// The mathematical form of an event.
pub enum CoordinationEventView {
    Persisted,
    NotPersisted(Option<LedgerView>, Seq<char>),
    StorageEnded(LedgerView, Result<StorageReportView, StorageErrorView>),
    RepositoryEnded(LedgerView, Result<RepositoryReportView, RepositoryErrorView>),
    HostingEnded(LedgerView, Result<HostingReportView, HostingErrorView>),
}

impl View for CoordinationEvent {
    type V = CoordinationEventView;

    open spec fn view(&self) -> CoordinationEventView {
        match *self {
            CoordinationEvent::Persisted => CoordinationEventView::Persisted,
            CoordinationEvent::NotPersisted { durable, message } =>
                CoordinationEventView::NotPersisted(optional_ledger(durable), message@),
            CoordinationEvent::StorageEnded { ledger, result } =>
                CoordinationEventView::StorageEnded(
                ledger@,
                match result {
                    Ok(report) => Ok(report@),
                    Err(e) => Err(e@),
                },
            ),
            CoordinationEvent::RepositoryEnded { ledger, result } =>
                CoordinationEventView::RepositoryEnded(
                ledger@,
                match result {
                    Ok(report) => Ok(report@),
                    Err(e) => Err(e@),
                },
            ),
            CoordinationEvent::HostingEnded { ledger, result } =>
                CoordinationEventView::HostingEnded(
                ledger@,
                match result {
                    Ok(report) => Ok(report@),
                    Err(e) => Err(e@),
                },
            ),
        }
    }
}

/// What is to be done next.
#[derive(Debug, PartialEq, Eq)]
pub enum CoordinationAction<'a> {
    /// Write the ledger.
    Persist(&'a IntegrationLedger),
    /// Execute the plan's storage operations on this ledger.
    Storage(&'a IntegrationLedger),
    /// Execute the plan's repository operations on this ledger.
    Repository(&'a IntegrationLedger),
    /// Execute the plan's hosting operation on this ledger.
    Hosting(&'a IntegrationLedger),
    /// Nothing: the run has ended.
    Finished,
}

/// The mathematical form of an action.
pub enum CoordinationActionView {
    Persist(LedgerView),
    Storage(LedgerView),
    Repository(LedgerView),
    Hosting(LedgerView),
    Finished,
}

impl<'a> View for CoordinationAction<'a> {
    type V = CoordinationActionView;

    open spec fn view(&self) -> CoordinationActionView {
        match *self {
            CoordinationAction::Persist(ledger) => CoordinationActionView::Persist(ledger@),
            CoordinationAction::Storage(ledger) => CoordinationActionView::Storage(ledger@),
            CoordinationAction::Repository(ledger) => CoordinationActionView::Repository(ledger@),
            CoordinationAction::Hosting(ledger) => CoordinationActionView::Hosting(ledger@),
            CoordinationAction::Finished => CoordinationActionView::Finished,
        }
    }
}

/// Which families have operations in a plan.
#[derive(Debug, Clone, Copy, PartialEq, Eq, Structural)]
pub struct Families {
    pub storage: bool,
    pub repository: bool,
    pub hosting: bool,
}

/// Which families have operations among these.
pub open spec fn families_of(operations: Seq<OperationView>) -> Families {
    Families {
        storage: exists|i: int|
            0 <= i < operations.len() && is_storage_operation(#[trigger] operations[i]),
        repository: exists|i: int|
            0 <= i < operations.len() && is_repository_operation(#[trigger] operations[i]),
        hosting: exists|i: int|
            0 <= i < operations.len() && #[trigger] operations[i] is PublishHosting,
    }
}

/// Runs one integrated publication as a strictly ordered saga. Only families
/// that have operations in the plan are executed.
#[derive(Debug, PartialEq, Eq)]
pub struct Coordinator {
    families: Families,
    ledger: IntegrationLedger,
    report: PublicationReport,
    stage: CoordinationStage,
}

/// The mathematical form of a run.
pub struct CoordinationRun {
    pub families: Families,
    pub ledger: LedgerView,
    pub report: PublicationReportView,
    pub stage: CoordinationStageView,
}

impl View for Coordinator {
    type V = CoordinationRun;

    closed spec fn view(&self) -> CoordinationRun {
        CoordinationRun {
            families: self.families,
            ledger: self.ledger@,
            report: self.report@,
            stage: self.stage@,
        }
    }
}

/// The first phase with work from the hosting phase on.
pub open spec fn from_hosting(families: Families) -> CoordinationStageView {
    if families.hosting {
        CoordinationStageView::Hosting
    } else {
        CoordinationStageView::Done(None)
    }
}

/// The first phase with work from the repository phase on.
pub open spec fn from_repository(families: Families) -> CoordinationStageView {
    if families.repository {
        CoordinationStageView::Repository
    } else {
        from_hosting(families)
    }
}

/// The first phase with work.
pub open spec fn from_storage(families: Families) -> CoordinationStageView {
    if families.storage {
        CoordinationStageView::Storage
    } else {
        from_repository(families)
    }
}

/// A run that has ended with an error.
pub open spec fn coordination_failed(
    run: CoordinationRun,
    e: CoordinationErrorView,
) -> CoordinationRun {
    CoordinationRun { stage: CoordinationStageView::Done(Some(e)), ..run }
}

/// A run at its beginning: the gates in their order, then the adoption of the
/// header where it names another publication, then the phases.
pub open spec fn coordination_started(
    plan: IntegrationPlanView,
    desired: DesiredView,
    ledger: LedgerView,
) -> CoordinationRun {
    let run = CoordinationRun {
        families: families_of(plan.operations),
        ledger,
        report: PublicationReportView { storage: None, repository: None, hosting: None },
        stage: CoordinationStageView::Done(None),
    };
    if plan.requirements.len() > 0 {
        coordination_failed(run, CoordinationErrorView::Blocked(plan.requirements))
    } else if unsafe_ledger_text(ledger) is Some {
        coordination_failed(
            run,
            CoordinationErrorView::UnsafeLedger(unsafe_ledger_text(ledger)->0),
        )
    } else if provenance_text(desired, ledger) is Some {
        coordination_failed(
            run,
            CoordinationErrorView::ProvenanceMismatch(provenance_text(desired, ledger)->0),
        )
    } else if header_matches(desired, ledger) {
        CoordinationRun { stage: from_storage(run.families), ..run }
    } else {
        match attempted(
            with_header(
                ledger,
                desired.configuration_fingerprint,
                desired.local.generation,
                desired.local.state_hash,
                desired.local.manifest_hash,
            ),
        ) {
            Ok(adopted) => CoordinationRun {
                ledger: adopted,
                stage: CoordinationStageView::Adopt,
                ..run
            },
            Err(e) => coordination_failed(
                run,
                CoordinationErrorView::Ledger(LedgerFailureView::Refused(e)),
            ),
        }
    }
}

/// A run after an event. An event that the run does not wait for changes
/// nothing.
pub open spec fn coordination_step(
    run: CoordinationRun,
    event: CoordinationEventView,
) -> CoordinationRun {
    match (run.stage, event) {
        (CoordinationStageView::Adopt, CoordinationEventView::Persisted) => CoordinationRun {
            stage: from_storage(run.families),
            ..run
        },
        (CoordinationStageView::Adopt, CoordinationEventView::NotPersisted(durable, message)) =>
            coordination_failed(
            CoordinationRun {
                ledger: match durable {
                    Some(ledger) => ledger,
                    None => run.ledger,
                },
                ..run
            },
            CoordinationErrorView::Ledger(LedgerFailureView::NotPersisted(message)),
        ),
        (CoordinationStageView::Storage, CoordinationEventView::StorageEnded(ledger, result)) =>
            match result {
            Ok(report) => CoordinationRun {
                ledger,
                report: PublicationReportView { storage: Some(report), ..run.report },
                stage: from_repository(run.families),
                ..run
            },
            Err(e) => coordination_failed(
                CoordinationRun { ledger, ..run },
                CoordinationErrorView::Storage(e),
            ),
        },
        (
            CoordinationStageView::Repository,
            CoordinationEventView::RepositoryEnded(ledger, result),
        ) => match result {
            Ok(report) => CoordinationRun {
                ledger,
                report: PublicationReportView { repository: Some(report), ..run.report },
                stage: from_hosting(run.families),
                ..run
            },
            Err(e) => coordination_failed(
                CoordinationRun { ledger, ..run },
                CoordinationErrorView::Repository(e),
            ),
        },
        (CoordinationStageView::Hosting, CoordinationEventView::HostingEnded(ledger, result)) =>
            match result {
            Ok(report) => CoordinationRun {
                ledger,
                report: PublicationReportView { hosting: Some(report), ..run.report },
                stage: CoordinationStageView::Done(None),
                ..run
            },
            Err(e) => coordination_failed(
                CoordinationRun { ledger, ..run },
                CoordinationErrorView::Hosting(e),
            ),
        },
        _ => run,
    }
}

/// What a run asks for.
pub open spec fn coordination_action(run: CoordinationRun) -> CoordinationActionView {
    match run.stage {
        CoordinationStageView::Adopt => CoordinationActionView::Persist(run.ledger),
        CoordinationStageView::Storage => CoordinationActionView::Storage(run.ledger),
        CoordinationStageView::Repository => CoordinationActionView::Repository(run.ledger),
        CoordinationStageView::Hosting => CoordinationActionView::Hosting(run.ledger),
        CoordinationStageView::Done(_) => CoordinationActionView::Finished,
    }
}

fn hosting_stage(families: Families) -> (r: CoordinationStage)
    ensures
        r@ == from_hosting(families),
{
    if families.hosting {
        CoordinationStage::Hosting
    } else {
        CoordinationStage::Done(None)
    }
}

fn repository_stage(families: Families) -> (r: CoordinationStage)
    ensures
        r@ == from_repository(families),
{
    if families.repository {
        CoordinationStage::Repository
    } else {
        hosting_stage(families)
    }
}

fn storage_stage(families: Families) -> (r: CoordinationStage)
    ensures
        r@ == from_storage(families),
{
    if families.storage {
        CoordinationStage::Storage
    } else {
        repository_stage(families)
    }
}

fn families(operations: &Vec<IntegrationOperation>) -> (r: Families)
    ensures
        r == families_of(operations_view(operations@)),
{
    let ghost all = operations_view(operations@);
    let mut found: Families = Families { storage: false, repository: false, hosting: false };
    let mut i: usize = 0;
    while i < operations.len()
        invariant
            i <= operations@.len(),
            all == operations_view(operations@),
            found.storage == exists|j: int| 0 <= j < i && is_storage_operation(#[trigger] all[j]),
            found.repository == exists|j: int|
                0 <= j < i && is_repository_operation(#[trigger] all[j]),
            found.hosting == exists|j: int| 0 <= j < i && #[trigger] all[j] is PublishHosting,
        decreases operations@.len() - i,
    {
        proof {
            assert(all[i as int] == operations@[i as int]@);
        }
        match &operations[i] {
            IntegrationOperation::PutStorage(_) => {
                found.storage = true;
            },
            IntegrationOperation::DeleteStorage { .. } => {
                found.storage = true;
            },
            IntegrationOperation::WriteRepository(_) => {
                found.repository = true;
            },
            IntegrationOperation::DeleteRepository { .. } => {
                found.repository = true;
            },
            IntegrationOperation::PublishHosting { .. } => {
                found.hosting = true;
            },
        }
        i = i + 1;
    }
    found
}

impl Coordinator {
    /// Starts a run. Safety gates (reconciliation, unsafe ledger, and
    /// provenance) come before any executor or ledger adoption.
    pub fn new(
        plan: &IntegrationPlan,
        desired: &DesiredPublication,
        ledger: IntegrationLedger,
    ) -> (r: Coordinator)
        ensures
            r@ == coordination_started(plan@, desired@, ledger@),
    {
        let families: Families = families(&plan.operations);
        let mut run: Coordinator = Coordinator {
            families,
            ledger,
            report: PublicationReport { storage: None, repository: None, hosting: None },
            stage: CoordinationStage::Done(None),
        };
        if plan.reconciliation_requirements.len() > 0 {
            run.stage =
            CoordinationStage::Done(
                Some(
                    CoordinationError::Blocked(
                        copy_requirements(&plan.reconciliation_requirements),
                    ),
                ),
            );
            return run;
        }
        match unsafe_ledger_state(&run.ledger) {
            Some(text) => {
                run.stage = CoordinationStage::Done(Some(CoordinationError::UnsafeLedger(text)));
                return run;
            },
            None => {},
        }
        if !same_text(
            desired.configuration_fingerprint(),
            run.ledger.configuration_fingerprint.as_str(),
        ) {
            run.stage =
            CoordinationStage::Done(
                Some(
                    CoordinationError::ProvenanceMismatch(
                        "configuration fingerprint differs between desired state and ledger".to_owned(),
                    ),
                ),
            );
            return run;
        }
        let same_generation: bool = same_text(
            run.ledger.local_generation.as_str(),
            desired.local().generation.as_str(),
        );
        let same_hashes: bool = same_text(
            run.ledger.state_hash.as_str(),
            desired.local().state_hash.as_str(),
        ) && same_text(
            run.ledger.manifest_hash.as_str(),
            desired.local().manifest_hash.as_str(),
        );
        if same_generation && !same_hashes {
            run.stage =
            CoordinationStage::Done(
                Some(
                    CoordinationError::ProvenanceMismatch(
                        "same generation with different publication hashes".to_owned(),
                    ),
                ),
            );
            return run;
        }
        if same_generation {
            run.stage = storage_stage(families);
            return run;
        }
        match run.ledger.adopt_publication(
            desired.configuration_fingerprint().to_owned(),
            desired.local().generation.clone(),
            desired.local().state_hash.clone(),
            desired.local().manifest_hash.clone(),
        ) {
            Ok(()) => {
                run.stage = CoordinationStage::Adopt;
            },
            Err(e) => {
                run.stage =
                CoordinationStage::Done(
                    Some(CoordinationError::Ledger(LedgerFailure::Refused(e))),
                );
            },
        }
        run
    }

    /// What is to be done next.
    pub fn action(&self) -> (r: CoordinationAction<'_>)
        ensures
            r@ == coordination_action(self@),
            r@ is Finished <==> self@.stage is Done,
    {
        match &self.stage {
            CoordinationStage::Adopt => CoordinationAction::Persist(&self.ledger),
            CoordinationStage::Storage => CoordinationAction::Storage(&self.ledger),
            CoordinationStage::Repository => CoordinationAction::Repository(&self.ledger),
            CoordinationStage::Hosting => CoordinationAction::Hosting(&self.ledger),
            CoordinationStage::Done(_) => CoordinationAction::Finished,
        }
    }

    /// The ledger as the run has it.
    pub fn ledger(&self) -> (r: &IntegrationLedger)
        ensures
            r@ == self@.ledger,
    {
        &self.ledger
    }

    /// Takes what came of the action. It stops at the first error and never
    /// compensates, retries, or resolves earlier phases. An event that the run
    /// does not wait for changes nothing.
    pub fn handle(self, event: CoordinationEvent) -> (r: Coordinator)
        ensures
            r@ == coordination_step(self@, event@),
    {
        let Coordinator { families, ledger, report, stage } = self;
        match (stage, event) {
            (CoordinationStage::Adopt, CoordinationEvent::Persisted) => Coordinator {
                families,
                ledger,
                report,
                stage: storage_stage(families),
            },
            (CoordinationStage::Adopt, CoordinationEvent::NotPersisted { durable, message }) => {
                Coordinator {
                    families,
                    ledger: match durable {
                        Some(durable) => durable,
                        None => ledger,
                    },
                    report,
                    stage: CoordinationStage::Done(
                        Some(CoordinationError::Ledger(LedgerFailure::NotPersisted(message))),
                    ),
                }
            },
            (
                CoordinationStage::Storage,
                CoordinationEvent::StorageEnded { ledger: after, result },
            ) => match result {
                Ok(done) => Coordinator {
                    families,
                    ledger: after,
                    report: PublicationReport {
                        storage: Some(done),
                        repository: report.repository,
                        hosting: report.hosting,
                    },
                    stage: repository_stage(families),
                },
                Err(e) => Coordinator {
                    families,
                    ledger: after,
                    report,
                    stage: CoordinationStage::Done(Some(CoordinationError::Storage(e))),
                },
            },
            (
                CoordinationStage::Repository,
                CoordinationEvent::RepositoryEnded { ledger: after, result },
            ) => match result {
                Ok(done) => Coordinator {
                    families,
                    ledger: after,
                    report: PublicationReport {
                        storage: report.storage,
                        repository: Some(done),
                        hosting: report.hosting,
                    },
                    stage: hosting_stage(families),
                },
                Err(e) => Coordinator {
                    families,
                    ledger: after,
                    report,
                    stage: CoordinationStage::Done(Some(CoordinationError::Repository(e))),
                },
            },
            (
                CoordinationStage::Hosting,
                CoordinationEvent::HostingEnded { ledger: after, result },
            ) => match result {
                Ok(done) => Coordinator {
                    families,
                    ledger: after,
                    report: PublicationReport {
                        storage: report.storage,
                        repository: report.repository,
                        hosting: Some(done),
                    },
                    stage: CoordinationStage::Done(None),
                },
                Err(e) => Coordinator {
                    families,
                    ledger: after,
                    report,
                    stage: CoordinationStage::Done(Some(CoordinationError::Hosting(e))),
                },
            },
            (stage, _) => Coordinator { families, ledger, report, stage },
        }
    }

    /// The ledger and the result of a run that has ended.
    pub fn finish(self) -> (r: (IntegrationLedger, Result<PublicationReport, CoordinationError>))
        requires
            self@.stage is Done,
        ensures
            r.0@ == self@.ledger,
            match (self@.stage, r.1) {
                (CoordinationStageView::Done(None), Ok(report)) => report@ == self@.report,
                (CoordinationStageView::Done(Some(e)), Err(f)) => f@ == e,
                _ => false,
            },
    {
        let Coordinator { families: _, ledger, report, stage } = self;
        match stage {
            CoordinationStage::Done(Some(e)) => (ledger, Err(e)),
            _ => (ledger, Ok(report)),
        }
    }
}

// ---------------------------------------------------------------------------
// Laws
// ---------------------------------------------------------------------------
proof fn lemma_first_unsettled(s: Seq<(Seq<char>, OperationState)>, i: int)
    requires
        0 <= i <= s.len(),
    ensures
        first_unsettled(s, i) is None <==> forall|j: int|
            i <= j < s.len() ==> (#[trigger] s[j]).1 == OperationState::Confirmed,
    decreases s.len() - i,
{
    if i < s.len() {
        lemma_first_unsettled(s, i + 1);
    }
}

/// The ledger is safe exactly when every entry of it is confirmed.
pub proof fn law_safe_iff_all_confirmed(ledger: LedgerView)
    requires
        is_listed(ledger.r2_inventory),
        is_listed(ledger.github_inventory),
    ensures
        unsafe_ledger_text(ledger) is None <==> all_confirmed(ledger),
{
    let objects = ascending_entries(ledger.r2_inventory);
    let files = ascending_entries(ledger.github_inventory);
    lemma_first_unsettled(object_statuses(ledger), 0);
    lemma_first_unsettled(file_statuses(ledger), 0);
    lemma_listed_entries(ledger.r2_inventory);
    lemma_listed_entries(ledger.github_inventory);
    if unsafe_ledger_text(ledger) is None {
        assert forall|key: Seq<char>| ledger.r2_inventory.dom().contains(key) implies (
        #[trigger] ledger.r2_inventory[key]).status == OperationState::Confirmed by {
            let j = choose|j: int| 0 <= j < objects.len() && objects[j].0 == key;
            lemma_key_position(objects, j);
            assert(object_statuses(ledger)[j].1 == OperationState::Confirmed);
        }
        assert forall|path: Seq<char>| ledger.github_inventory.dom().contains(path) implies (
        #[trigger] ledger.github_inventory[path]).status == OperationState::Confirmed by {
            let j = choose|j: int| 0 <= j < files.len() && files[j].0 == path;
            lemma_key_position(files, j);
            assert(file_statuses(ledger)[j].1 == OperationState::Confirmed);
        }
    }
    if all_confirmed(ledger) {
        assert forall|j: int| 0 <= j < objects.len() implies (
        #[trigger] object_statuses(ledger)[j]).1 == OperationState::Confirmed by {
            lemma_key_position(objects, j);
            assert(ledger.r2_inventory[objects[j].0].status == OperationState::Confirmed);
        }
        assert forall|j: int| 0 <= j < files.len() implies (
        #[trigger] file_statuses(ledger)[j]).1 == OperationState::Confirmed by {
            lemma_key_position(files, j);
            assert(ledger.github_inventory[files[j].0].status == OperationState::Confirmed);
        }
    }
}

/// A run after several events.
pub open spec fn coordination_steps(
    run: CoordinationRun,
    events: Seq<CoordinationEventView>,
) -> CoordinationRun
    decreases events.len(),
{
    if events.len() == 0 {
        run
    } else {
        coordination_step(coordination_steps(run, events.drop_last()), events.last())
    }
}

/// Nothing is adopted, written or executed where the plan carries requirements,
/// the ledger is unsafe, or the publication does not continue the ledger's.
pub proof fn law_refused_publication_does_nothing(
    plan: IntegrationPlanView,
    desired: DesiredView,
    ledger: LedgerView,
)
    requires
        plan.requirements.len() > 0 || unsafe_ledger_text(ledger) is Some || provenance_text(
            desired,
            ledger,
        ) is Some,
    ensures
        ({
            let run = coordination_started(plan, desired, ledger);
            &&& run.ledger == ledger
            &&& coordination_action(run) == CoordinationActionView::Finished
            &&& run.stage matches CoordinationStageView::Done(Some(_))
        }),
{
}

/// How far a stage is in the saga.
pub open spec fn stage_rank(stage: CoordinationStageView) -> int {
    match stage {
        CoordinationStageView::Adopt => 0,
        CoordinationStageView::Storage => 1,
        CoordinationStageView::Repository => 2,
        CoordinationStageView::Hosting => 3,
        CoordinationStageView::Done(_) => 4,
    }
}

/// The phases are strictly sequential: an event either changes nothing or
/// brings the run forward, so that each executor runs at most once, storage
/// before repository before hosting.
pub proof fn law_phases_in_order(run: CoordinationRun, event: CoordinationEventView)
    ensures
        coordination_step(run, event) == run || stage_rank(
            coordination_step(run, event).stage,
        ) > stage_rank(run.stage),
{
}

/// An executor runs only where the plan has work for it.
pub proof fn law_only_planned_families_run(run: CoordinationRun, event: CoordinationEventView)
    requires
        coordination_step(run, event) != run,
    ensures
        ({
            let after = coordination_step(run, event);
            &&& after.families == run.families
            &&& after.stage is Storage ==> run.families.storage
            &&& after.stage is Repository ==> run.families.repository
            &&& after.stage is Hosting ==> run.families.hosting
        }),
{
}

/// A failed phase ends the run with the error as the executor gave it, and
/// keeps what earlier phases reported.
pub proof fn law_failed_phase_ends_run(run: CoordinationRun, event: CoordinationEventView)
    requires
        match (run.stage, event) {
            (CoordinationStageView::Storage, CoordinationEventView::StorageEnded(_, Err(_))) =>
                true,
            (CoordinationStageView::Repository, CoordinationEventView::RepositoryEnded(_, Err(_))) =>
                true,
            (CoordinationStageView::Hosting, CoordinationEventView::HostingEnded(_, Err(_))) =>
                true,
            _ => false,
        },
    ensures
        ({
            let after = coordination_step(run, event);
            &&& after.report == run.report
            &&& after.stage == CoordinationStageView::Done(
                Some(
                    match event {
                        CoordinationEventView::StorageEnded(_, Err(e)) =>
                            CoordinationErrorView::Storage(e),
                        CoordinationEventView::RepositoryEnded(_, Err(e)) =>
                            CoordinationErrorView::Repository(e),
                        CoordinationEventView::HostingEnded(_, Err(e)) =>
                            CoordinationErrorView::Hosting(e),
                        _ => arbitrary(),
                    },
                ),
            )
        }),
{
}

/// A run that has ended stays as it is, whatever happens.
pub proof fn law_ended_coordination_is_final(run: CoordinationRun, event: CoordinationEventView)
    requires
        run.stage is Done,
    ensures
        coordination_step(run, event) == run,
        coordination_action(run) == CoordinationActionView::Finished,
{
}

/// A new generation is adopted, and written, before anything is executed, and
/// its adoption keeps what the ledger knows of every resource.
pub proof fn law_adoption_comes_first(
    plan: IntegrationPlanView,
    desired: DesiredView,
    ledger: LedgerView,
)
    requires
        ledger_valid(ledger),
        desired_error(desired) is None,
        plan.requirements.len() == 0,
        unsafe_ledger_text(ledger) is None,
        provenance_text(desired, ledger) is None,
        !header_matches(desired, ledger),
    ensures
        ({
            let run = coordination_started(plan, desired, ledger);
            &&& coordination_action(run) == CoordinationActionView::Persist(run.ledger)
            &&& header_matches(desired, run.ledger)
            &&& run.ledger.configuration_fingerprint == ledger.configuration_fingerprint
            &&& run.ledger.r2_inventory == ledger.r2_inventory
            &&& run.ledger.github_inventory == ledger.github_inventory
            &&& run.ledger.vercel == ledger.vercel
            &&& ledger_valid(run.ledger)
        }),
{
    law_adoption_preserves_inventories(
        ledger,
        desired.configuration_fingerprint,
        desired.local.generation,
        desired.local.state_hash,
        desired.local.manifest_hash,
    );
}

} // verus!
