//! Hosting execution for an [`IntegrationPlan`].
//!
//! The executor applies only `PublishHosting` operations from an already
//! computed plan; storage and repository operations belong to their own
//! executors and are ignored here. It never recomputes desired state and never
//! invokes the planner. Like the other executors it is a machine:
//! [`HostingExecutor::action`] says what is to be done next,
//! [`HostingExecutor::handle`] takes what came of it.
//!
//! A deployment is not idempotent: every publication may create a new remote
//! deployment. The safety protocol is therefore:
//!
//! ```text
//! reconciliation requirements refused
//!     -> provenance guard (desired fingerprints/generation == ledger header)
//!     -> local validation (bundle fingerprint matches the operation)
//!     -> Pending recorded (desired fingerprint, no identity) and persisted
//!     -> publication
//!     -> known result recorded (Confirmed with id+url, rollback, or Unknown)
//!     -> durable persistence
//! ```
//!
//! The persisted `Pending` always precedes the remote call. Only errors that
//! provably precede deployment creation (authentication, permission, missing
//! project, conflict) restore the previous ledger state; every other failure
//! becomes `Unknown`, and execution stops: no retry, no second deployment.

use crate::bundle::{ApplicationBundle, BundleView};
use crate::config::HostingPublicationConfig;
use crate::ledger::{
    copy_vercel, law_rerecord_hosting, law_valid_iff_no_error, ledger_failure_text, ledger_valid,
    option_vercel, optional_ledger, status_name, status_text, vercel_recorded, vercel_removed,
    with_vercel, IntegrationLedger, LedgerErrorView, LedgerFailure, LedgerFailureView, LedgerView,
    OperationState, VercelPublication, VercelView,
};
use crate::planner::{
    copy_requirements, operations_view, requirements_view, DesiredPublication, DesiredView,
    IntegrationOperation, IntegrationPlan, OperationView, ReconciliationRequirement,
    RequirementView,
};
use crate::provider::{
    DeploymentInfo, DeploymentView, FailureKind, FailureView, ProviderError, ProviderErrorText,
    ProviderFailure,
};
use crate::text::{decimal, decimal_text, is_blank, is_blank_text, joined, joined3, same_text};
use vstd::prelude::*;

verus! {

/// Provider-neutral port implemented by the application's composition layer.
///
/// An adapter may translate the bundle into a provider-specific configuration
/// without exposing a concrete hosting provider here.
pub trait HostingPublisher {
    fn publish(
        &mut self,
        bundle: &ApplicationBundle,
        configuration: &HostingPublicationConfig,
    ) -> Result<DeploymentInfo, ProviderFailure>;
}

// ---------------------------------------------------------------------------
// Errors
// ---------------------------------------------------------------------------
/// Why hosting execution failed.
///
/// Every failure stops execution immediately; the durable ledger always
/// reflects the last safely known state.
#[derive(Debug, PartialEq, Eq)]
pub enum HostingExecutionError {
    /// The plan carries reconciliation requirements; nothing was executed.
    ReconciliationRequired(Vec<ReconciliationRequirement>),
    /// The plan or the provenance of the desired state contradicts the
    /// ledger handed to the executor; no ledger or remote change was made.
    InconsistentPlan(String),
    /// Local validation (bundle fingerprint) failed before any ledger or
    /// remote change.
    LocalValidation(String),
    /// The provider provably created no deployment; the previous ledger
    /// state was restored and persisted.
    Rejected(String),
    /// The deployment may have been created; `Unknown` was persisted and
    /// execution stopped without retrying, polling, or deduplicating.
    Ambiguous(String),
    /// The ledger could not be mutated or persisted.
    Ledger(LedgerFailure),
}

/// The mathematical form of a hosting error.
pub enum HostingErrorView {
    ReconciliationRequired(Seq<RequirementView>),
    InconsistentPlan(Seq<char>),
    LocalValidation(Seq<char>),
    Rejected(Seq<char>),
    Ambiguous(Seq<char>),
    Ledger(LedgerFailureView),
}

impl View for HostingExecutionError {
    type V = HostingErrorView;

    open spec fn view(&self) -> HostingErrorView {
        match *self {
            HostingExecutionError::ReconciliationRequired(requirements) =>
                HostingErrorView::ReconciliationRequired(requirements_view(requirements@)),
            HostingExecutionError::InconsistentPlan(text) => HostingErrorView::InconsistentPlan(
                text@,
            ),
            HostingExecutionError::LocalValidation(text) => HostingErrorView::LocalValidation(
                text@,
            ),
            HostingExecutionError::Rejected(text) => HostingErrorView::Rejected(text@),
            HostingExecutionError::Ambiguous(text) => HostingErrorView::Ambiguous(text@),
            HostingExecutionError::Ledger(failure) => HostingErrorView::Ledger(failure@),
        }
    }
}

/// The error in words.
pub open spec fn hosting_error_text(e: HostingErrorView) -> Seq<char> {
    match e {
        HostingErrorView::ReconciliationRequired(requirements) =>
            "hosting execution requires reconciliation first ("@ + decimal_text(requirements.len())
                + " requirement(s))"@,
        HostingErrorView::InconsistentPlan(text) => "inconsistent plan: "@ + text,
        HostingErrorView::LocalValidation(text) => text,
        HostingErrorView::Rejected(text) => text,
        HostingErrorView::Ambiguous(text) => text,
        HostingErrorView::Ledger(failure) => ledger_failure_text(failure),
    }
}

impl HostingExecutionError {
    /// The error in words.
    pub fn message(&self) -> (r: String)
        ensures
            r@ == hosting_error_text(self@),
    {
        match self {
            HostingExecutionError::ReconciliationRequired(requirements) => {
                let count: String = decimal(requirements.len() as u64);
                joined3(
                    "hosting execution requires reconciliation first (",
                    count.as_str(),
                    " requirement(s))",
                )
            },
            HostingExecutionError::InconsistentPlan(text) => joined(
                "inconsistent plan: ",
                text.as_str(),
            ),
            HostingExecutionError::LocalValidation(text) => text.clone(),
            HostingExecutionError::Rejected(text) => text.clone(),
            HostingExecutionError::Ambiguous(text) => text.clone(),
            HostingExecutionError::Ledger(failure) => failure.message(),
        }
    }
}

/// The mathematical form of an optional error.
pub open spec fn hosting_failure(e: Option<HostingExecutionError>) -> Option<HostingErrorView> {
    match e {
        Some(error) => Some(error@),
        None => None,
    }
}

/// Outcome of one run.
#[derive(Debug, PartialEq, Eq)]
pub struct HostingExecutionReport {
    /// Present exactly when a deployment was published and its `Confirmed`
    /// state was durably persisted. Absent when the plan had no hosting
    /// operation (nothing was executed).
    pub deployment: Option<DeploymentInfo>,
}

impl Default for HostingExecutionReport {
    /// The report of a run that had nothing to do.
    fn default() -> (r: Self)
        ensures
            r.deployment is None,
    {
        HostingExecutionReport { deployment: None }
    }
}

/// The mathematical form of an optional deployment.
pub open spec fn optional_deployment(d: Option<DeploymentInfo>) -> Option<DeploymentView> {
    match d {
        Some(info) => Some(info@),
        None => None,
    }
}

// ---------------------------------------------------------------------------
// What a provider failure means
// ---------------------------------------------------------------------------
/// Whether a publication failure provably created no deployment.
///
/// Credentials are looked up before the request, and an error response proves
/// that the request was rejected. Everything else is indeterminate: a response
/// may have been lost, a build may have ended after the deployment was
/// created, or an identity could not be read.
pub open spec fn publish_failure_kind(error: ProviderErrorText) -> FailureKind {
    match error {
        ProviderErrorText::AuthenticationRequired
        | ProviderErrorText::AuthenticationFailed
        | ProviderErrorText::PermissionDenied
        | ProviderErrorText::NotFound
        | ProviderErrorText::Conflict => FailureKind::NoEffect,
        _ => FailureKind::Ambiguous,
    }
}

/// Whether a publication failure provably created no deployment.
pub fn classify_publish_failure(error: &ProviderError) -> (r: FailureKind)
    ensures
        r == publish_failure_kind(error@),
{
    match error {
        ProviderError::AuthenticationRequired
        | ProviderError::AuthenticationFailed
        | ProviderError::PermissionDenied
        | ProviderError::NotFound
        | ProviderError::Conflict => FailureKind::NoEffect,
        ProviderError::Network
        | ProviderError::Integrity
        | ProviderError::Other
        | ProviderError::Io(_)
        | ProviderError::InvalidKey(_)
        | ProviderError::InvalidPath(_)
        | ProviderError::AlreadyExists
        | ProviderError::Unsupported => FailureKind::Ambiguous,
    }
}

// ---------------------------------------------------------------------------
// The machine
// ---------------------------------------------------------------------------
/// What the machine waits for.
#[derive(Debug, PartialEq, Eq)]
enum HostingStage {
    /// The pending entry is written.
    PersistPending,
    /// The bundle is published.
    Publish,
    /// The outcome is written, and the run then ends.
    PersistOutcome(Option<HostingExecutionError>),
    /// Nothing: the run has ended.
    Done(Option<HostingExecutionError>),
}

/// The mathematical form of a stage.
pub enum HostingStageView {
    PersistPending,
    Publish,
    PersistOutcome(Option<HostingErrorView>),
    Done(Option<HostingErrorView>),
}

impl View for HostingStage {
    type V = HostingStageView;

    closed spec fn view(&self) -> HostingStageView {
        match *self {
            HostingStage::PersistPending => HostingStageView::PersistPending,
            HostingStage::Publish => HostingStageView::Publish,
            HostingStage::PersistOutcome(e) => HostingStageView::PersistOutcome(hosting_failure(e)),
            HostingStage::Done(e) => HostingStageView::Done(hosting_failure(e)),
        }
    }
}

/// What came of an action.
#[derive(Debug, PartialEq, Eq)]
pub enum HostingEvent {
    /// The ledger was written.
    Persisted,
    /// The ledger could not be written. The durable ledger, where it can be
    /// read, stays authoritative.
    NotPersisted { durable: Option<IntegrationLedger>, message: String },
    /// The publication returned.
    Published(Result<DeploymentInfo, ProviderFailure>),
}

/// The mathematical form of an event.
pub enum HostingEventView {
    Persisted,
    NotPersisted(Option<LedgerView>, Seq<char>),
    Published(Result<DeploymentView, FailureView>),
}

impl View for HostingEvent {
    type V = HostingEventView;

    open spec fn view(&self) -> HostingEventView {
        match *self {
            HostingEvent::Persisted => HostingEventView::Persisted,
            HostingEvent::NotPersisted { durable, message } => HostingEventView::NotPersisted(
                optional_ledger(durable),
                message@,
            ),
            HostingEvent::Published(outcome) => HostingEventView::Published(
                match outcome {
                    Ok(deployment) => Ok(deployment@),
                    Err(failure) => Err(failure@),
                },
            ),
        }
    }
}

/// What is to be done next.
#[derive(Debug, PartialEq, Eq)]
pub enum HostingAction<'a> {
    /// Write the ledger.
    Persist(&'a IntegrationLedger),
    /// Publish the bundle.
    Publish,
    /// Nothing: the run has ended.
    Finished,
}

/// The mathematical form of an action.
pub enum HostingActionView {
    Persist(LedgerView),
    Publish,
    Finished,
}

impl<'a> View for HostingAction<'a> {
    type V = HostingActionView;

    open spec fn view(&self) -> HostingActionView {
        match *self {
            HostingAction::Persist(ledger) => HostingActionView::Persist(ledger@),
            HostingAction::Publish => HostingActionView::Publish,
            HostingAction::Finished => HostingActionView::Finished,
        }
    }
}

/// Executes the `PublishHosting` operation of a plan, persisting every ledger
/// transition.
#[derive(Debug, PartialEq, Eq)]
pub struct HostingExecutor {
    fingerprint: String,
    ledger: IntegrationLedger,
    previous: Option<VercelPublication>,
    deployment: Option<DeploymentInfo>,
    stage: HostingStage,
}

/// The mathematical form of a run.
pub struct HostingRun {
    /// The fingerprint of the bundle that is published.
    pub fingerprint: Seq<char>,
    pub ledger: LedgerView,
    /// What the ledger said of hosting before the run.
    pub previous: Option<VercelView>,
    /// The deployment that was confirmed.
    pub deployment: Option<DeploymentView>,
    pub stage: HostingStageView,
}

impl View for HostingExecutor {
    type V = HostingRun;

    closed spec fn view(&self) -> HostingRun {
        HostingRun {
            fingerprint: self.fingerprint@,
            ledger: self.ledger@,
            previous: option_vercel(self.previous),
            deployment: optional_deployment(self.deployment),
            stage: self.stage@,
        }
    }
}

/// The hosting entry of a bundle whose deployment has no known identity.
pub open spec fn unidentified(fingerprint: Seq<char>, status: OperationState) -> VercelView {
    VercelView { bundle_fingerprint: fingerprint, status, deployment_id: None, url: None }
}

/// The hosting entry of a confirmed deployment.
pub open spec fn confirmed_deployment(
    fingerprint: Seq<char>,
    deployment: DeploymentView,
) -> VercelView {
    VercelView {
        bundle_fingerprint: fingerprint,
        status: OperationState::Confirmed,
        deployment_id: Some(deployment.id),
        url: Some(deployment.url),
    }
}

/// A run that has ended with an error.
pub open spec fn hosting_failed(run: HostingRun, e: HostingErrorView) -> HostingRun {
    HostingRun { stage: HostingStageView::Done(Some(e)), ..run }
}

/// A run after a ledger change: it goes on in the stage, or ends where the
/// ledger refused the change.
pub open spec fn hosting_changed(
    run: HostingRun,
    change: Result<LedgerView, LedgerErrorView>,
    stage: HostingStageView,
) -> HostingRun {
    match change {
        Ok(ledger) => HostingRun { ledger, stage, ..run },
        Err(e) => hosting_failed(run, HostingErrorView::Ledger(LedgerFailureView::Refused(e))),
    }
}

/// A run whose deployment may or may not exist.
pub open spec fn hosting_ambiguous(run: HostingRun, message: Seq<char>) -> HostingRun {
    hosting_changed(
        run,
        vercel_recorded(run.ledger, unidentified(run.fingerprint, OperationState::Unknown)),
        HostingStageView::PersistOutcome(Some(HostingErrorView::Ambiguous(message))),
    )
}

/// A run whose publication returned.
pub open spec fn hosting_settled(
    run: HostingRun,
    outcome: Result<DeploymentView, FailureView>,
) -> HostingRun {
    match outcome {
        Ok(deployment) => if is_blank_text(deployment.id) || is_blank_text(deployment.url) {
            hosting_ambiguous(run, "deployment published without a verifiable identity"@)
        } else {
            hosting_changed(
                HostingRun { deployment: Some(deployment), ..run },
                vercel_recorded(run.ledger, confirmed_deployment(run.fingerprint, deployment)),
                HostingStageView::PersistOutcome(None),
            )
        },
        Err(failure) => match publish_failure_kind(failure.error) {
            FailureKind::NoEffect => hosting_changed(
                run,
                match run.previous {
                    None => vercel_removed(run.ledger),
                    Some(entry) => vercel_recorded(run.ledger, entry),
                },
                HostingStageView::PersistOutcome(
                    Some(
                        HostingErrorView::Rejected(
                            "hosting publication was rejected before any deployment was created: "@
                                + failure.description,
                        ),
                    ),
                ),
            ),
            FailureKind::Ambiguous => hosting_ambiguous(
                run,
                "deployment outcome cannot be determined: "@ + failure.description,
            ),
        },
    }
}

/// A run whose ledger could not be written.
pub open spec fn hosting_not_persisted(
    run: HostingRun,
    durable: Option<LedgerView>,
    message: Seq<char>,
) -> HostingRun {
    HostingRun {
        ledger: match durable {
            Some(ledger) => ledger,
            None => run.ledger,
        },
        stage: HostingStageView::Done(
            Some(HostingErrorView::Ledger(LedgerFailureView::NotPersisted(message))),
        ),
        ..run
    }
}

/// A run after an event. An event that the run does not wait for changes
/// nothing.
pub open spec fn hosting_step(run: HostingRun, event: HostingEventView) -> HostingRun {
    match (run.stage, event) {
        (HostingStageView::PersistPending, HostingEventView::Persisted) => HostingRun {
            stage: HostingStageView::Publish,
            ..run
        },
        (HostingStageView::PersistPending, HostingEventView::NotPersisted(durable, message)) =>
            hosting_not_persisted(run, durable, message),
        (HostingStageView::Publish, HostingEventView::Published(outcome)) => hosting_settled(
            run,
            outcome,
        ),
        (HostingStageView::PersistOutcome(failure), HostingEventView::Persisted) => HostingRun {
            stage: HostingStageView::Done(failure),
            ..run
        },
        (HostingStageView::PersistOutcome(_), HostingEventView::NotPersisted(durable, message)) =>
            hosting_not_persisted(run, durable, message),
        _ => run,
    }
}

/// What a run asks for.
pub open spec fn hosting_action(run: HostingRun) -> HostingActionView {
    match run.stage {
        HostingStageView::PersistPending => HostingActionView::Persist(run.ledger),
        HostingStageView::Publish => HostingActionView::Publish,
        HostingStageView::PersistOutcome(_) => HostingActionView::Persist(run.ledger),
        HostingStageView::Done(_) => HostingActionView::Finished,
    }
}

/// The fingerprint that an operation publishes.
pub open spec fn hosting_fingerprint() -> spec_fn(OperationView) -> Option<Seq<char>> {
    |o: OperationView|
        match o {
            OperationView::PublishHosting(fingerprint) => Some(fingerprint),
            _ => None,
        }
}

/// The fingerprints that operations publish.
pub open spec fn hosting_fingerprints(operations: Seq<OperationView>) -> Seq<Seq<char>> {
    operations.filter_map(hosting_fingerprint())
}

/// A run at its beginning. A plan without a hosting operation succeeds without
/// any remote call; one with several is refused, as is one for another
/// publication than the ledger's, one over an unsettled entry, and one for
/// another bundle.
pub open spec fn hosting_started(
    operations: Seq<OperationView>,
    desired: DesiredView,
    bundle: BundleView,
    ledger: LedgerView,
) -> HostingRun {
    let fingerprints = hosting_fingerprints(operations);
    let run = HostingRun {
        fingerprint: if fingerprints.len() == 1 {
            fingerprints[0]
        } else {
            Seq::empty()
        },
        ledger,
        previous: ledger.vercel,
        deployment: None,
        stage: HostingStageView::Done(None),
    };
    if fingerprints.len() > 1 {
        hosting_failed(
            run,
            HostingErrorView::InconsistentPlan(
                "plan contains more than one PublishHosting operation"@,
            ),
        )
    } else if fingerprints.len() == 0 {
        run
    } else if desired.configuration_fingerprint != ledger.configuration_fingerprint
        || desired.local.generation != ledger.local_generation {
        hosting_failed(
            run,
            HostingErrorView::InconsistentPlan(
                "desired state and integration ledger describe different publications"@,
            ),
        )
    } else if ledger.vercel is Some && ledger.vercel->0.status != OperationState::Confirmed {
        hosting_failed(
            run,
            HostingErrorView::InconsistentPlan(
                "cannot publish hosting while the ledger marks it "@ + status_text(
                    ledger.vercel->0.status,
                ),
            ),
        )
    } else if bundle.fingerprint != fingerprints[0] {
        hosting_failed(
            run,
            HostingErrorView::LocalValidation(
                "application bundle fingerprint "@ + bundle.fingerprint
                    + " does not match the planned "@ + fingerprints[0],
            ),
        )
    } else {
        hosting_changed(
            run,
            vercel_recorded(ledger, unidentified(fingerprints[0], OperationState::Pending)),
            HostingStageView::PersistPending,
        )
    }
}

impl HostingExecutor {
    /// Records a hosting entry, then goes on in the stage.
    fn recorded(self, entry: VercelPublication, stage: HostingStage) -> (r: HostingExecutor)
        ensures
            r@ == hosting_changed(self@, vercel_recorded(self@.ledger, entry@), stage@),
    {
        let mut run: HostingExecutor = self;
        let VercelPublication { bundle_fingerprint, status, deployment_id, url } = entry;
        match run.ledger.record_vercel(bundle_fingerprint, status, deployment_id, url) {
            Ok(()) => {
                run.stage = stage;
            },
            Err(e) => {
                run.stage =
                HostingStage::Done(Some(HostingExecutionError::Ledger(LedgerFailure::Refused(e))));
            },
        }
        run
    }

    /// Records that the deployment may or may not exist.
    fn ambiguous(self, message: String) -> (r: HostingExecutor)
        ensures
            r@ == hosting_ambiguous(self@, message@),
    {
        let entry: VercelPublication = VercelPublication {
            bundle_fingerprint: self.fingerprint.clone(),
            status: OperationState::Unknown,
            deployment_id: None,
            url: None,
        };
        self.recorded(
            entry,
            HostingStage::PersistOutcome(Some(HostingExecutionError::Ambiguous(message))),
        )
    }

    /// Records what the publication came to.
    fn settled(self, outcome: Result<DeploymentInfo, ProviderFailure>) -> (r: HostingExecutor)
        ensures
            r@ == hosting_settled(
                self@,
                match outcome {
                    Ok(deployment) => Ok(deployment@),
                    Err(failure) => Err(failure@),
                },
            ),
    {
        match outcome {
            Ok(deployment) => {
                if is_blank(deployment.id.as_str()) || is_blank(deployment.url.as_str()) {
                    return self.ambiguous(
                        "deployment published without a verifiable identity".to_owned(),
                    );
                }
                let entry: VercelPublication = VercelPublication {
                    bundle_fingerprint: self.fingerprint.clone(),
                    status: OperationState::Confirmed,
                    deployment_id: Some(deployment.id.clone()),
                    url: Some(deployment.url.clone()),
                };
                let mut run: HostingExecutor = self;
                run.deployment = Some(deployment);
                run.recorded(entry, HostingStage::PersistOutcome(None))
            },
            Err(failure) => match classify_publish_failure(&failure.error) {
                FailureKind::NoEffect => {
                    let message: String = joined(
                        "hosting publication was rejected before any deployment was created: ",
                        failure.description.as_str(),
                    );
                    let stage: HostingStage = HostingStage::PersistOutcome(
                        Some(HostingExecutionError::Rejected(message)),
                    );
                    match copy_vercel(&self.previous) {
                        Some(entry) => self.recorded(entry, stage),
                        None => {
                            let mut run: HostingExecutor = self;
                            match run.ledger.remove_vercel() {
                                Ok(()) => {
                                    run.stage = stage;
                                },
                                Err(e) => {
                                    run.stage =
                                    HostingStage::Done(
                                        Some(
                                            HostingExecutionError::Ledger(
                                                LedgerFailure::Refused(e),
                                            ),
                                        ),
                                    );
                                },
                            }
                            run
                        },
                    }
                },
                FailureKind::Ambiguous => self.ambiguous(
                    joined(
                        "deployment outcome cannot be determined: ",
                        failure.description.as_str(),
                    ),
                ),
            },
        }
    }

    /// Starts a run. A plan that still carries reconciliation requirements is
    /// refused and nothing is executed.
    pub fn new(
        plan: &IntegrationPlan,
        desired: &DesiredPublication,
        bundle: &ApplicationBundle,
        ledger: IntegrationLedger,
    ) -> (r: Result<HostingExecutor, HostingExecutionError>)
        ensures
            match r {
                Ok(run) => plan@.requirements.len() == 0 && run@ == hosting_started(
                    plan@.operations,
                    desired@,
                    bundle@,
                    ledger@,
                ),
                Err(e) => plan@.requirements.len() > 0 && e@
                    == HostingErrorView::ReconciliationRequired(plan@.requirements),
            },
    {
        if plan.reconciliation_requirements.len() > 0 {
            return Err(
                HostingExecutionError::ReconciliationRequired(
                    copy_requirements(&plan.reconciliation_requirements),
                ),
            );
        }
        let ghost all = operations_view(plan.operations@);
        let mut found: Vec<&String> = Vec::new();
        let ghost mut fingerprints: Seq<Seq<char>> = Seq::empty();
        let mut i: usize = 0;
        proof {
            assert(hosting_fingerprints(all.take(0)) =~= Seq::<Seq<char>>::empty());
        }
        while i < plan.operations.len()
            invariant
                i <= plan.operations@.len(),
                all == operations_view(plan.operations@),
                fingerprints == hosting_fingerprints(all.take(i as int)),
                fingerprints.len() == found@.len(),
                forall|j: int| 0 <= j < found@.len() ==> (#[trigger] found@[j])@ == fingerprints[j],
            decreases plan.operations@.len() - i,
        {
            proof {
                assert(all.take(i as int + 1).drop_last() =~= all.take(i as int));
                assert(all.take(i as int + 1).last() == plan.operations@[i as int]@);
            }
            match &plan.operations[i] {
                IntegrationOperation::PublishHosting { bundle_fingerprint } => {
                    found.push(bundle_fingerprint);
                    proof {
                        fingerprints = fingerprints + seq![bundle_fingerprint@];
                    }
                },
                _ => {},
            }
            i = i + 1;
        }
        proof {
            assert(all.take(all.len() as int) =~= all);
            reveal_strlit("");
            assert(""@ =~= Seq::<char>::empty());
        }
        let previous: Option<VercelPublication> = copy_vercel(&ledger.vercel);
        let mut run: HostingExecutor = HostingExecutor {
            fingerprint: if found.len() == 1 {
                found[0].clone()
            } else {
                "".to_owned()
            },
            ledger,
            previous,
            deployment: None,
            stage: HostingStage::Done(None),
        };
        if found.len() > 1 {
            run.stage =
            HostingStage::Done(
                Some(
                    HostingExecutionError::InconsistentPlan(
                        "plan contains more than one PublishHosting operation".to_owned(),
                    ),
                ),
            );
            return Ok(run);
        }
        if found.len() == 0 {
            return Ok(run);
        }
        Ok(run.guarded(desired, bundle))
    }

    /// Checks the publication and the bundle, then marks it as in flight.
    fn guarded(self, desired: &DesiredPublication, bundle: &ApplicationBundle) -> (r:
        HostingExecutor)
        requires
            self@.previous == self@.ledger.vercel,
        ensures
            r@ == ({
                let run = self@;
                let ledger = run.ledger;
                if desired@.configuration_fingerprint != ledger.configuration_fingerprint
                    || desired@.local.generation != ledger.local_generation {
                    hosting_failed(
                        run,
                        HostingErrorView::InconsistentPlan(
                            "desired state and integration ledger describe different publications"@,
                        ),
                    )
                } else if ledger.vercel is Some && ledger.vercel->0.status
                    != OperationState::Confirmed {
                    hosting_failed(
                        run,
                        HostingErrorView::InconsistentPlan(
                            "cannot publish hosting while the ledger marks it "@ + status_text(
                                ledger.vercel->0.status,
                            ),
                        ),
                    )
                } else if bundle@.fingerprint != run.fingerprint {
                    hosting_failed(
                        run,
                        HostingErrorView::LocalValidation(
                            "application bundle fingerprint "@ + bundle@.fingerprint
                                + " does not match the planned "@ + run.fingerprint,
                        ),
                    )
                } else {
                    hosting_changed(
                        run,
                        vercel_recorded(
                            ledger,
                            unidentified(run.fingerprint, OperationState::Pending),
                        ),
                        HostingStageView::PersistPending,
                    )
                }
            }),
    {
        let mut run: HostingExecutor = self;
        if !same_text(
            desired.configuration_fingerprint(),
            run.ledger.configuration_fingerprint.as_str(),
        ) || !same_text(
            desired.local().generation.as_str(),
            run.ledger.local_generation.as_str(),
        ) {
            run.stage =
            HostingStage::Done(
                Some(
                    HostingExecutionError::InconsistentPlan(
                        "desired state and integration ledger describe different publications".to_owned(),
                    ),
                ),
            );
            return run;
        }
        let unsettled: Option<OperationState> = match &run.ledger.vercel {
            Some(entry) => if entry.status != OperationState::Confirmed {
                Some(entry.status)
            } else {
                None
            },
            None => None,
        };
        match unsettled {
            Some(status) => {
                let text: String = joined(
                    "cannot publish hosting while the ledger marks it ",
                    status_name(status),
                );
                run.stage =
                HostingStage::Done(Some(HostingExecutionError::InconsistentPlan(text)));
                return run;
            },
            None => {},
        }
        if !same_text(bundle.fingerprint(), run.fingerprint.as_str()) {
            let mut text: String = joined3(
                "application bundle fingerprint ",
                bundle.fingerprint(),
                " does not match the planned ",
            );
            text.append(run.fingerprint.as_str());
            run.stage = HostingStage::Done(Some(HostingExecutionError::LocalValidation(text)));
            return run;
        }
        let entry: VercelPublication = VercelPublication {
            bundle_fingerprint: run.fingerprint.clone(),
            status: OperationState::Pending,
            deployment_id: None,
            url: None,
        };
        run.recorded(entry, HostingStage::PersistPending)
    }

    /// What is to be done next.
    pub fn action(&self) -> (r: HostingAction<'_>)
        ensures
            r@ == hosting_action(self@),
            r@ is Finished <==> self@.stage is Done,
    {
        match &self.stage {
            HostingStage::PersistPending => HostingAction::Persist(&self.ledger),
            HostingStage::Publish => HostingAction::Publish,
            HostingStage::PersistOutcome(_) => HostingAction::Persist(&self.ledger),
            HostingStage::Done(_) => HostingAction::Finished,
        }
    }

    /// The ledger as the run has changed it so far.
    pub fn ledger(&self) -> (r: &IntegrationLedger)
        ensures
            r@ == self@.ledger,
    {
        &self.ledger
    }

    /// Ends with the durable ledger where the changed one could not be written.
    fn not_persisted(self, durable: Option<IntegrationLedger>, message: String) -> (r:
        HostingExecutor)
        ensures
            r@ == hosting_not_persisted(self@, optional_ledger(durable), message@),
    {
        let mut run: HostingExecutor = self;
        match durable {
            Some(ledger) => {
                run.ledger = ledger;
            },
            None => {},
        }
        run.stage =
        HostingStage::Done(
            Some(HostingExecutionError::Ledger(LedgerFailure::NotPersisted(message))),
        );
        run
    }

    /// Takes what came of the action. An event that the run does not wait for
    /// changes nothing.
    pub fn handle(self, event: HostingEvent) -> (r: HostingExecutor)
        ensures
            r@ == hosting_step(self@, event@),
    {
        let HostingExecutor { fingerprint, ledger, previous, deployment, stage } = self;
        match (stage, event) {
            (HostingStage::PersistPending, HostingEvent::Persisted) => HostingExecutor {
                fingerprint,
                ledger,
                previous,
                deployment,
                stage: HostingStage::Publish,
            },
            (HostingStage::PersistPending, HostingEvent::NotPersisted { durable, message }) => {
                HostingExecutor {
                    fingerprint,
                    ledger,
                    previous,
                    deployment,
                    stage: HostingStage::PersistPending,
                }.not_persisted(durable, message)
            },
            (HostingStage::Publish, HostingEvent::Published(outcome)) => HostingExecutor {
                fingerprint,
                ledger,
                previous,
                deployment,
                stage: HostingStage::Publish,
            }.settled(outcome),
            (HostingStage::PersistOutcome(failure), HostingEvent::Persisted) => HostingExecutor {
                fingerprint,
                ledger,
                previous,
                deployment,
                stage: HostingStage::Done(failure),
            },
            (
                HostingStage::PersistOutcome(failure),
                HostingEvent::NotPersisted { durable, message },
            ) => HostingExecutor {
                fingerprint,
                ledger,
                previous,
                deployment,
                stage: HostingStage::PersistOutcome(failure),
            }.not_persisted(durable, message),
            (stage, _) => HostingExecutor { fingerprint, ledger, previous, deployment, stage },
        }
    }

    /// The ledger and the result of a run that has ended.
    pub fn finish(self) -> (r: (
        IntegrationLedger,
        Result<HostingExecutionReport, HostingExecutionError>,
    ))
        requires
            self@.stage is Done,
        ensures
            r.0@ == self@.ledger,
            match (self@.stage, r.1) {
                (HostingStageView::Done(None), Ok(report)) => optional_deployment(report.deployment)
                    == self@.deployment,
                (HostingStageView::Done(Some(e)), Err(f)) => f@ == e,
                _ => false,
            },
    {
        let HostingExecutor { fingerprint: _, ledger, previous: _, deployment, stage } = self;
        match stage {
            HostingStage::Done(Some(e)) => (ledger, Err(e)),
            _ => (ledger, Ok(HostingExecutionReport { deployment })),
        }
    }
}

// ---------------------------------------------------------------------------
// Laws
// ---------------------------------------------------------------------------
/// A run after several events.
pub open spec fn hosting_steps(run: HostingRun, events: Seq<HostingEventView>) -> HostingRun
    decreases events.len(),
{
    if events.len() == 0 {
        run
    } else {
        hosting_step(hosting_steps(run, events.drop_last()), events.last())
    }
}

/// What holds of every run that began on a ledger: a publication in flight is
/// recorded as pending and nothing else has changed, and one that succeeded is
/// confirmed with the identity of its deployment and nothing else has changed.
pub open spec fn hosting_sound(start: LedgerView, run: HostingRun) -> bool {
    &&& run.previous == start.vercel || run.stage is Done
    &&& match run.stage {
        HostingStageView::PersistPending | HostingStageView::Publish => run.ledger == with_vercel(
            start,
            Some(unidentified(run.fingerprint, OperationState::Pending)),
        ) && run.deployment is None,
        HostingStageView::PersistOutcome(None) => hosting_published(start, run),
        HostingStageView::Done(None) => if run.deployment is None {
            run.ledger == start
        } else {
            hosting_published(start, run)
        },
        _ => true,
    }
}

/// Whether the ledger of a run that began on a ledger confirms its deployment,
/// which has an identity.
pub open spec fn hosting_published(start: LedgerView, run: HostingRun) -> bool {
    &&& run.deployment is Some
    &&& !is_blank_text(run.deployment->0.id)
    &&& !is_blank_text(run.deployment->0.url)
    &&& run.ledger == with_vercel(
        start,
        Some(confirmed_deployment(run.fingerprint, run.deployment->0)),
    )
}

/// A run is sound from its beginning.
pub proof fn law_started_hosting_is_sound(
    operations: Seq<OperationView>,
    desired: DesiredView,
    bundle: BundleView,
    ledger: LedgerView,
)
    ensures
        hosting_sound(ledger, hosting_started(operations, desired, bundle, ledger)),
{
}

/// Whatever happens, a run stays sound.
pub proof fn law_hosting_stays_sound(start: LedgerView, run: HostingRun, event: HostingEventView)
    requires
        hosting_sound(start, run),
    ensures
        hosting_sound(start, hosting_step(run, event)),
        hosting_step(run, event).fingerprint == run.fingerprint,
{
}

/// The persisted `Pending` always precedes the remote call: a run asks for the
/// publication only after it asked for the ledger to be written with hosting
/// recorded as pending, and was told that this was done.
pub proof fn law_pending_precedes_publication(
    start: LedgerView,
    run: HostingRun,
    event: HostingEventView,
)
    requires
        hosting_sound(start, run),
        !(run.stage is Publish),
        hosting_action(hosting_step(run, event)) is Publish,
    ensures
        hosting_action(run) == HostingActionView::Persist(run.ledger),
        event is Persisted,
        run.ledger.vercel == Some(unidentified(run.fingerprint, OperationState::Pending)),
{
}

/// A deployment is requested once: after the publication returned a run asks
/// for nothing but the ledger to be written.
pub proof fn law_published_once(run: HostingRun, event: HostingEventView)
    requires
        run.stage is Publish,
        hosting_step(run, event) != run,
    ensures
        ({
            let after = hosting_step(run, event).stage;
            after is PersistOutcome || after is Done
        }),
{
}

/// A publication that provably created no deployment leaves the ledger exactly
/// as it was before.
pub proof fn law_rejected_publication_restores_ledger(
    start: LedgerView,
    run: HostingRun,
    failure: FailureView,
)
    requires
        ledger_valid(start),
        hosting_sound(start, run),
        run.stage is Publish,
        publish_failure_kind(failure.error) == FailureKind::NoEffect,
    ensures
        ({
            let after = hosting_step(run, HostingEventView::Published(Err(failure)));
            &&& after.ledger == start
            &&& after.stage == HostingStageView::PersistOutcome(
                Some(
                    HostingErrorView::Rejected(
                        "hosting publication was rejected before any deployment was created: "@
                            + failure.description,
                    ),
                ),
            )
        }),
{
    law_rerecord_hosting(start, Some(unidentified(run.fingerprint, OperationState::Pending)));
    law_valid_iff_no_error(start);
}

/// A publication whose outcome cannot be determined, or whose deployment has no
/// identity, leaves hosting recorded as `Unknown`.
pub proof fn law_ambiguous_publication_is_unknown(
    run: HostingRun,
    outcome: Result<DeploymentView, FailureView>,
)
    requires
        run.stage is Publish,
        match outcome {
            Ok(deployment) => is_blank_text(deployment.id) || is_blank_text(deployment.url),
            Err(failure) => publish_failure_kind(failure.error) == FailureKind::Ambiguous,
        },
        hosting_step(run, HostingEventView::Published(outcome)).stage is PersistOutcome,
    ensures
        hosting_step(run, HostingEventView::Published(outcome)).ledger.vercel == Some(
            unidentified(run.fingerprint, OperationState::Unknown),
        ),
{
}

/// A run that has ended stays as it is, whatever happens.
pub proof fn law_ended_hosting_is_final(run: HostingRun, event: HostingEventView)
    requires
        run.stage is Done,
    ensures
        hosting_step(run, event) == run,
        hosting_action(run) == HostingActionView::Finished,
{
}

/// Without a publication in the plan nothing is published and nothing changes.
pub proof fn law_no_hosting_operation_changes_nothing(
    operations: Seq<OperationView>,
    desired: DesiredView,
    bundle: BundleView,
    ledger: LedgerView,
)
    requires
        hosting_fingerprints(operations).len() == 0,
    ensures
        ({
            let run = hosting_started(operations, desired, bundle, ledger);
            &&& run.stage == HostingStageView::Done(None)
            &&& run.ledger == ledger
            &&& run.deployment is None
        }),
{
}

/// A run that ends without an error and with a deployment, whatever happened on
/// the way, has confirmed the planned bundle under the identity of that
/// deployment, and the ledger says so and nothing else; one that ends without
/// a deployment has changed nothing.
pub proof fn law_successful_hosting_run_publishes(
    operations: Seq<OperationView>,
    desired: DesiredView,
    bundle: BundleView,
    ledger: LedgerView,
    events: Seq<HostingEventView>,
)
    ensures
        ({
            let first = hosting_started(operations, desired, bundle, ledger);
            let end = hosting_steps(first, events);
            &&& hosting_sound(ledger, end)
            &&& end.fingerprint == first.fingerprint
            &&& hosting_fingerprints(operations).len() == 1 && end.stage == HostingStageView::Done(
                None,
            ) ==> end.deployment is Some
            &&& end.stage == HostingStageView::Done(None) ==> if end.deployment is None {
                end.ledger == ledger
            } else {
                hosting_published(ledger, end)
            }
        }),
    decreases events.len(),
{
    let run = hosting_started(operations, desired, bundle, ledger);
    if events.len() == 0 {
        law_started_hosting_is_sound(operations, desired, bundle, ledger);
    } else {
        law_successful_hosting_run_publishes(
            operations,
            desired,
            bundle,
            ledger,
            events.drop_last(),
        );
        law_hosting_stays_sound(ledger, hosting_steps(run, events.drop_last()), events.last());
    }
}

} // verus!
