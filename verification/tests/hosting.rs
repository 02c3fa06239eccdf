//! Hosting execution, with a scripted publisher and a ledger kept in memory.

use photo_publisher::bundle::ApplicationBundle;
use photo_publisher::config::{HostingPublicationConfig, ProjectPublicationConfig};
use photo_publisher::hosting::{
    classify_publish_failure, HostingAction, HostingEvent, HostingExecutionError,
    HostingExecutionReport, HostingExecutor, HostingPublisher,
};
use photo_publisher::inventory::Duplicate;
use photo_publisher::ledger::{IntegrationLedger, OperationState, VercelPublication};
use photo_publisher::planner::{
    plan_reconciliation, DesiredPublication, IntegrationOperation, IntegrationPlan,
    KnownRemoteState, LocalPublication, ReconciliationRequirement,
};
use photo_publisher::provider::{DeploymentInfo, FailureKind, ProviderError, ProviderFailure};
use photo_publisher::public_url::PublicBaseUrl;
use sha2::{Digest, Sha256};
use std::cell::RefCell;
use std::collections::VecDeque;
use std::rc::Rc;

fn sha256_bytes(bytes: &[u8]) -> String {
    format!("{:x}", Sha256::digest(bytes))
}

fn digest(value: &str) -> String {
    sha256_bytes(value.as_bytes())
}

/// The durable copy of a ledger.
type Disk = Rc<RefCell<Option<IntegrationLedger>>>;

fn stored(disk: &Disk) -> IntegrationLedger {
    disk.borrow().as_ref().unwrap().duplicate()
}

fn copy_ledger(from: &Disk, to: &Disk) {
    let ledger = stored(from);
    *to.borrow_mut() = Some(ledger);
}

/// Writes a valid ledger; otherwise reports what is still there.
fn persist(disk: &Disk, ledger: &IntegrationLedger) -> Result<(), (Option<IntegrationLedger>, String)> {
    match ledger.validate() {
        Ok(()) => {
            *disk.borrow_mut() = Some(ledger.duplicate());
            Ok(())
        }
        Err(error) => Err((
            disk.borrow().as_ref().map(|durable| durable.duplicate()),
            error.message().to_owned(),
        )),
    }
}

fn failed(error: ProviderError) -> ProviderFailure {
    ProviderFailure {
        description: format!("{error:?}"),
        error,
    }
}

/// Scriptable hosting port. Each publish() is logged and any call without
/// a scripted result panics, so duplicated or unexpected publishes fail
/// loudly. There is intentionally no status/poll API: the port has none.
#[derive(Default)]
struct FakeHosting {
    results: VecDeque<Result<DeploymentInfo, ProviderError>>,
    calls: Vec<(String, String)>,
    on_publish: Option<Box<dyn FnMut()>>,
}

impl HostingPublisher for FakeHosting {
    fn publish(
        &mut self,
        bundle: &ApplicationBundle,
        configuration: &HostingPublicationConfig,
    ) -> Result<DeploymentInfo, ProviderFailure> {
        self.calls.push((
            bundle.fingerprint().to_owned(),
            configuration.project_id.clone(),
        ));
        if let Some(hook) = self.on_publish.as_mut() {
            hook();
        }
        self.results
            .pop_front()
            .expect("scripted publish result")
            .map_err(failed)
    }
}

struct Fixture {
    ledger_path: Disk,
    snapshot: Disk,
}

impl Fixture {
    fn new() -> Self {
        Self {
            ledger_path: Rc::new(RefCell::new(None)),
            snapshot: Rc::new(RefCell::new(None)),
        }
    }

    fn durable_ledger(&self) -> IntegrationLedger {
        stored(&self.ledger_path)
    }

    fn store(&self, ledger: &IntegrationLedger) {
        persist(&self.ledger_path, ledger).unwrap();
    }

    fn is_stored(&self) -> bool {
        self.ledger_path.borrow().is_some()
    }

    fn snapshot_path(&self) -> Disk {
        Rc::clone(&self.snapshot)
    }
}

fn bundle() -> ApplicationBundle {
    ApplicationBundle::from_files(vec![("index.html".to_owned(), b"index".to_vec())]).unwrap()
}

fn hosting_config() -> HostingPublicationConfig {
    HostingPublicationConfig::new("hosting-project".to_owned(), None).unwrap()
}

fn configuration() -> ProjectPublicationConfig {
    ProjectPublicationConfig {
        project_id: "project".to_owned(),
        bundle_directory: "site".to_owned(),
        repository_provider: "repository".to_owned(),
        repository: "owner/project".to_owned(),
        branch: Some("main".to_owned()),
        preview_prefix: Some("previews".to_owned()),
        preview_public_base_url: PublicBaseUrl::parse("https://cdn.example.com/previews").unwrap(),
        high_resolution_account_id: "account".to_owned(),
        high_resolution_bucket: Some("bucket".to_owned()),
        high_resolution_prefix: Some("originals".to_owned()),
        high_resolution_public_base_url: PublicBaseUrl::parse(
            "https://downloads.example.com/originals",
        )
        .unwrap(),
        hosting: HostingPublicationConfig::new("hosting-project".to_owned(), None).unwrap(),
    }
}

fn desired(bundle: &ApplicationBundle) -> DesiredPublication {
    DesiredPublication::new(
        &configuration(),
        LocalPublication::new("g-000001".to_owned(), digest("state"), digest("manifest")).unwrap(),
        bundle,
    )
    .unwrap()
}

fn ledger_for(desired: &DesiredPublication) -> IntegrationLedger {
    IntegrationLedger::new(
        desired.configuration_fingerprint.clone(),
        desired.local.generation.clone(),
        desired.local.state_hash.clone(),
        desired.local.manifest_hash.clone(),
    )
    .unwrap()
}

fn hosting_plan(fingerprint: &str) -> IntegrationPlan {
    IntegrationPlan {
        operations: vec![IntegrationOperation::PublishHosting {
            bundle_fingerprint: fingerprint.to_owned(),
        }],
        reconciliation_requirements: Vec::new(),
    }
}

/// Performs what the executor asks for until it is done.
fn execute(
    fixture: &Fixture,
    plan: &IntegrationPlan,
    desired: &DesiredPublication,
    bundle: &ApplicationBundle,
    publisher: &mut FakeHosting,
    ledger: &mut IntegrationLedger,
) -> Result<HostingExecutionReport, HostingExecutionError> {
    let mut executor = HostingExecutor::new(plan, desired, bundle, ledger.duplicate())?;
    loop {
        let event = match executor.action() {
            HostingAction::Persist(current) => match persist(&fixture.ledger_path, current) {
                Ok(()) => HostingEvent::Persisted,
                Err((durable, message)) => HostingEvent::NotPersisted { durable, message },
            },
            HostingAction::Publish => {
                HostingEvent::Published(publisher.publish(bundle, &hosting_config()))
            }
            HostingAction::Finished => break,
        };
        executor = executor.handle(event);
    }
    let (after, result) = executor.finish();
    *ledger = after;
    result
}

/// (status, fingerprint, deployment_id, url) observed on disk mid-publish.
type Observed = Rc<RefCell<Vec<(OperationState, String, Option<String>, Option<String>)>>>;

#[test]
fn hosting_plan_with_reconciliation_requirements_is_refused() {
    let fixture = Fixture::new();
    let bundle = bundle();
    let desired = desired(&bundle);
    let mut publisher = FakeHosting::default();
    let mut ledger = ledger_for(&desired);

    for requirement in [
        ReconciliationRequirement::ConfigurationChanged,
        ReconciliationRequirement::HostingPending {
            bundle_fingerprint: desired.bundle_fingerprint.clone(),
        },
        ReconciliationRequirement::HostingUnknown {
            bundle_fingerprint: desired.bundle_fingerprint.clone(),
        },
    ] {
        let blocked = IntegrationPlan {
            operations: vec![IntegrationOperation::PublishHosting {
                bundle_fingerprint: desired.bundle_fingerprint.clone(),
            }],
            reconciliation_requirements: vec![requirement],
        };
        let error = execute(
            &fixture,
            &blocked,
            &desired,
            &bundle,
            &mut publisher,
            &mut ledger,
        )
        .unwrap_err();
        assert!(matches!(
            error,
            HostingExecutionError::ReconciliationRequired(_)
        ));
    }
    assert_eq!(publisher.calls, Vec::new());
    assert!(ledger.vercel.is_none());
    assert!(!fixture.is_stored());
}

#[test]
fn provenance_mismatch_refuses_remote_calls() {
    for divergent_generation in [true, false] {
        let fixture = Fixture::new();
        let bundle = bundle();
        let desired = desired(&bundle);
        let mut ledger = ledger_for(&desired);
        if divergent_generation {
            ledger.local_generation = "g-000002".to_owned();
        } else {
            ledger.configuration_fingerprint = digest("other-configuration");
        }
        let mut publisher = FakeHosting::default();

        let error = execute(
            &fixture,
            &hosting_plan(&desired.bundle_fingerprint),
            &desired,
            &bundle,
            &mut publisher,
            &mut ledger,
        )
        .unwrap_err();

        assert!(matches!(error, HostingExecutionError::InconsistentPlan(_)));
        assert_eq!(publisher.calls, Vec::new());
        assert!(!fixture.is_stored());
    }
}

#[test]
fn bundle_fingerprint_mismatch_is_local_and_remote_free() {
    let fixture = Fixture::new();
    let bundle = bundle();
    let desired = desired(&bundle);
    let mut ledger = ledger_for(&desired);
    let mut publisher = FakeHosting::default();

    let error = execute(
        &fixture,
        &hosting_plan(&digest("another-bundle")),
        &desired,
        &bundle,
        &mut publisher,
        &mut ledger,
    )
    .unwrap_err();

    assert!(matches!(error, HostingExecutionError::LocalValidation(_)));
    assert_eq!(publisher.calls, Vec::new());
    assert!(ledger.vercel.is_none());
    assert!(!fixture.is_stored());
}

#[test]
fn plan_without_hosting_operation_is_a_noop() {
    let fixture = Fixture::new();
    let bundle = bundle();
    let desired = desired(&bundle);
    let mut publisher = FakeHosting::default();
    let mut ledger = ledger_for(&desired);
    let empty = IntegrationPlan {
        operations: Vec::new(),
        reconciliation_requirements: Vec::new(),
    };

    let report = execute(
        &fixture,
        &empty,
        &desired,
        &bundle,
        &mut publisher,
        &mut ledger,
    )
    .unwrap();

    assert_eq!(report, HostingExecutionReport::default());
    assert_eq!(publisher.calls, Vec::new());
    assert!(!fixture.is_stored());
}

#[test]
fn multiple_publish_hosting_operations_are_rejected() {
    let fixture = Fixture::new();
    let bundle = bundle();
    let desired = desired(&bundle);
    let mut ledger = ledger_for(&desired);
    let mut publisher = FakeHosting::default();
    let duplicated = IntegrationPlan {
        operations: vec![
            IntegrationOperation::PublishHosting {
                bundle_fingerprint: desired.bundle_fingerprint.clone(),
            },
            IntegrationOperation::PublishHosting {
                bundle_fingerprint: desired.bundle_fingerprint.clone(),
            },
        ],
        reconciliation_requirements: Vec::new(),
    };

    let error = execute(
        &fixture,
        &duplicated,
        &desired,
        &bundle,
        &mut publisher,
        &mut ledger,
    )
    .unwrap_err();

    assert!(matches!(error, HostingExecutionError::InconsistentPlan(_)));
    // No publish attempt, no ledger mutation, nothing persisted.
    assert_eq!(publisher.calls, Vec::new());
    assert!(ledger.vercel.is_none());
    assert!(!fixture.is_stored());
}

#[test]
fn pending_or_unknown_entry_is_blocked() {
    for status in [OperationState::Pending, OperationState::Unknown] {
        let fixture = Fixture::new();
        let bundle = bundle();
        let desired = desired(&bundle);
        let mut ledger = ledger_for(&desired);
        ledger
            .record_vercel(desired.bundle_fingerprint.clone(), status, None, None)
            .unwrap();
        let mut publisher = FakeHosting::default();

        let error = execute(
            &fixture,
            &hosting_plan(&desired.bundle_fingerprint),
            &desired,
            &bundle,
            &mut publisher,
            &mut ledger,
        )
        .unwrap_err();

        assert!(matches!(error, HostingExecutionError::InconsistentPlan(_)));
        assert_eq!(publisher.calls, Vec::new());
        assert_eq!(ledger.vercel.as_ref().unwrap().status, status);
        assert!(!fixture.is_stored());
    }
}

#[test]
fn successful_publish_is_confirmed_with_identity_and_pending_was_durable_first() {
    let fixture = Fixture::new();
    let bundle = bundle();
    let desired = desired(&bundle);
    let mut ledger = ledger_for(&desired);
    let mut publisher = FakeHosting::default();
    publisher.results.push_back(Ok(DeploymentInfo {
        id: "dpl-1".to_owned(),
        url: "project.vercel.app".to_owned(),
    }));
    let observed: Observed = Rc::new(RefCell::new(Vec::new()));
    let ledger_path = fixture.ledger_path.clone();
    let observed_in_hook = Rc::clone(&observed);
    publisher.on_publish = Some(Box::new(move || {
        // The fundamental safety rule: the persisted Pending (desired
        // fingerprint, no identity) must exist before publish() runs.
        let durable = stored(&ledger_path);
        let entry = durable.vercel.unwrap();
        observed_in_hook.borrow_mut().push((
            entry.status,
            entry.bundle_fingerprint,
            entry.deployment_id,
            entry.url,
        ));
    }));

    let report = execute(
        &fixture,
        &hosting_plan(&desired.bundle_fingerprint),
        &desired,
        &bundle,
        &mut publisher,
        &mut ledger,
    )
    .unwrap();

    assert_eq!(
        *observed.borrow(),
        vec![(
            OperationState::Pending,
            desired.bundle_fingerprint.clone(),
            None,
            None
        )]
    );
    assert_eq!(publisher.calls.len(), 1);
    assert_eq!(
        publisher.calls[0],
        (
            desired.bundle_fingerprint.clone(),
            "hosting-project".to_owned()
        )
    );
    let entry = ledger.vercel.as_ref().unwrap();
    assert_eq!(entry.status, OperationState::Confirmed);
    assert_eq!(entry.bundle_fingerprint, desired.bundle_fingerprint);
    assert_eq!(entry.deployment_id.as_deref(), Some("dpl-1"));
    assert_eq!(entry.url.as_deref(), Some("project.vercel.app"));
    assert_eq!(
        report.deployment,
        Some(DeploymentInfo {
            id: "dpl-1".to_owned(),
            url: "project.vercel.app".to_owned(),
        })
    );
    assert_eq!(fixture.durable_ledger(), ledger);
}

#[test]
fn publish_without_identity_is_ambiguous_and_recorded_unknown() {
    for deployment in [
        DeploymentInfo {
            id: String::new(),
            url: "project.vercel.app".to_owned(),
        },
        DeploymentInfo {
            id: "dpl-1".to_owned(),
            url: String::new(),
        },
    ] {
        let fixture = Fixture::new();
        let bundle = bundle();
        let desired = desired(&bundle);
        let mut ledger = ledger_for(&desired);
        let mut publisher = FakeHosting::default();
        publisher.results.push_back(Ok(deployment));

        let error = execute(
            &fixture,
            &hosting_plan(&desired.bundle_fingerprint),
            &desired,
            &bundle,
            &mut publisher,
            &mut ledger,
        )
        .unwrap_err();

        // The deployment exists remotely (publish returned Ok) but its
        // identity is unusable: this is indeterminate, not a rejection.
        assert!(matches!(error, HostingExecutionError::Ambiguous(_)));
        let entry = ledger.vercel.as_ref().unwrap();
        assert_eq!(entry.status, OperationState::Unknown);
        assert_eq!(entry.bundle_fingerprint, desired.bundle_fingerprint);
        assert_eq!(entry.deployment_id, None);
        assert_eq!(entry.url, None);
        assert_eq!(publisher.calls.len(), 1);
        assert_eq!(fixture.durable_ledger(), ledger);
    }
}

#[test]
fn network_integrity_and_other_mark_unknown_and_stop() {
    for failure in [
        ProviderError::Network,
        ProviderError::Integrity,
        ProviderError::Other,
    ] {
        let fixture = Fixture::new();
        let bundle = bundle();
        let desired = desired(&bundle);
        let mut ledger = ledger_for(&desired);
        let mut publisher = FakeHosting::default();
        publisher.results.push_back(Err(failure));

        let error = execute(
            &fixture,
            &hosting_plan(&desired.bundle_fingerprint),
            &desired,
            &bundle,
            &mut publisher,
            &mut ledger,
        )
        .unwrap_err();

        assert!(matches!(error, HostingExecutionError::Ambiguous(_)));
        let entry = ledger.vercel.as_ref().unwrap();
        assert_eq!(entry.status, OperationState::Unknown);
        assert_eq!(entry.bundle_fingerprint, desired.bundle_fingerprint);
        assert_eq!(entry.deployment_id, None);
        assert_eq!(entry.url, None);
        // Exactly one publish attempt; no retry, no GET, no second deploy.
        assert_eq!(publisher.calls.len(), 1);
        assert_eq!(fixture.durable_ledger(), ledger);
    }
}

#[test]
fn deterministic_rejections_roll_back_to_no_prior_entry() {
    for failure in [
        ProviderError::AuthenticationRequired,
        ProviderError::AuthenticationFailed,
        ProviderError::PermissionDenied,
        ProviderError::NotFound,
        ProviderError::Conflict,
    ] {
        let fixture = Fixture::new();
        let bundle = bundle();
        let desired = desired(&bundle);
        let mut ledger = ledger_for(&desired);
        let mut publisher = FakeHosting::default();
        publisher.results.push_back(Err(failure));

        let error = execute(
            &fixture,
            &hosting_plan(&desired.bundle_fingerprint),
            &desired,
            &bundle,
            &mut publisher,
            &mut ledger,
        )
        .unwrap_err();

        assert!(matches!(error, HostingExecutionError::Rejected(_)));
        // No prior deployment: the Pending entry is removed, durably.
        assert!(ledger.vercel.is_none());
        assert_eq!(fixture.durable_ledger(), ledger);
        assert_eq!(publisher.calls.len(), 1);
    }
}

#[test]
fn deterministic_rejections_restore_the_previous_confirmed_entry() {
    let fixture = Fixture::new();
    let new_bundle =
        ApplicationBundle::from_files(vec![("index.html".to_owned(), b"new".to_vec())])
            .unwrap();
    let desired = desired(&new_bundle);
    let mut ledger = ledger_for(&desired);
    let previous = VercelPublication {
        bundle_fingerprint: digest("old-bundle"),
        status: OperationState::Confirmed,
        deployment_id: Some("dpl-old".to_owned()),
        url: Some("old.vercel.app".to_owned()),
    };
    ledger
        .record_vercel(
            previous.bundle_fingerprint.clone(),
            previous.status,
            previous.deployment_id.clone(),
            previous.url.clone(),
        )
        .unwrap();
    fixture.store(&ledger);
    let snapshot = ledger.clone();
    let mut publisher = FakeHosting::default();
    publisher
        .results
        .push_back(Err(ProviderError::PermissionDenied));

    let error = execute(
        &fixture,
        &hosting_plan(&desired.bundle_fingerprint),
        &desired,
        &new_bundle,
        &mut publisher,
        &mut ledger,
    )
    .unwrap_err();

    assert!(matches!(error, HostingExecutionError::Rejected(_)));
    // The previous Confirmed deployment is restored exactly; nothing
    // remote is touched.
    assert_eq!(ledger.vercel, Some(previous));
    assert_eq!(ledger, snapshot);
    assert_eq!(fixture.durable_ledger(), snapshot);
    assert_eq!(publisher.calls.len(), 1);
}

#[test]
fn published_deployment_with_lost_response_is_never_repeated() {
    let fixture = Fixture::new();
    let bundle = bundle();
    let desired = desired(&bundle);
    let mut ledger = ledger_for(&desired);
    let planned =
        plan_reconciliation(&desired, &KnownRemoteState::from_ledger(&ledger).unwrap())
            .unwrap();
    assert!(planned
        .operations
        .iter()
        .any(|operation| matches!(operation, IntegrationOperation::PublishHosting { .. })));

    let mut publisher = FakeHosting::default();
    publisher.results.push_back(Err(ProviderError::Network));
    let error = execute(
        &fixture,
        &planned,
        &desired,
        &bundle,
        &mut publisher,
        &mut ledger,
    )
    .unwrap_err();
    assert!(matches!(error, HostingExecutionError::Ambiguous(_)));
    assert_eq!(publisher.calls.len(), 1);
    let durable = fixture.durable_ledger();
    assert_eq!(
        durable.vercel.as_ref().unwrap().status,
        OperationState::Unknown
    );

    // Next cycle: the planner blocks on HostingUnknown; no new publish.
    let mut ledger = durable;
    let planned =
        plan_reconciliation(&desired, &KnownRemoteState::from_ledger(&ledger).unwrap())
            .unwrap();
    assert!(planned
        .reconciliation_requirements
        .iter()
        .any(|requirement| matches!(
            requirement,
            ReconciliationRequirement::HostingUnknown { .. }
        )));
    let mut publisher = FakeHosting::default();
    let error = execute(
        &fixture,
        &planned,
        &desired,
        &bundle,
        &mut publisher,
        &mut ledger,
    )
    .unwrap_err();
    assert!(matches!(
        error,
        HostingExecutionError::ReconciliationRequired(_)
    ));
    assert_eq!(publisher.calls, Vec::new());
}

#[test]
fn successful_publish_without_persisted_confirmation_is_never_repeated() {
    let fixture = Fixture::new();
    let bundle = bundle();
    let desired = desired(&bundle);
    let mut ledger = ledger_for(&desired);
    let planned =
        plan_reconciliation(&desired, &KnownRemoteState::from_ledger(&ledger).unwrap())
            .unwrap();

    // Snapshot the durable Pending while publish() is in flight.
    let mut publisher = FakeHosting::default();
    publisher.results.push_back(Ok(DeploymentInfo {
        id: "dpl-1".to_owned(),
        url: "project.vercel.app".to_owned(),
    }));
    let ledger_path = fixture.ledger_path.clone();
    let snapshot_path = fixture.snapshot_path();
    publisher.on_publish = Some(Box::new(move || {
        copy_ledger(&ledger_path, &snapshot_path);
    }));
    execute(
        &fixture,
        &planned,
        &desired,
        &bundle,
        &mut publisher,
        &mut ledger,
    )
    .unwrap();
    assert_eq!(publisher.calls.len(), 1);

    // Emulate a crash that lost the Confirmed write: the durable ledger is
    // back at Pending while the deployment exists remotely.
    copy_ledger(&fixture.snapshot_path(), &fixture.ledger_path);
    let durable = fixture.durable_ledger();
    assert_eq!(
        durable.vercel.as_ref().unwrap().status,
        OperationState::Pending
    );

    let mut ledger = durable;
    let planned =
        plan_reconciliation(&desired, &KnownRemoteState::from_ledger(&ledger).unwrap())
            .unwrap();
    assert!(planned
        .reconciliation_requirements
        .iter()
        .any(|requirement| matches!(
            requirement,
            ReconciliationRequirement::HostingPending { .. }
        )));
    let mut publisher = FakeHosting::default();
    let error = execute(
        &fixture,
        &planned,
        &desired,
        &bundle,
        &mut publisher,
        &mut ledger,
    )
    .unwrap_err();
    assert!(matches!(
        error,
        HostingExecutionError::ReconciliationRequired(_)
    ));
    // No second deployment, no remote call at all.
    assert_eq!(publisher.calls, Vec::new());
}

#[test]
fn hosting_crash_after_pending_blocks_the_next_cycle() {
    let fixture = Fixture::new();
    let bundle = bundle();
    let desired = desired(&bundle);
    // Durable state left by a crash after Pending was persisted and
    // before publish() was attempted.
    let mut crashed = ledger_for(&desired);
    crashed
        .record_vercel(
            desired.bundle_fingerprint.clone(),
            OperationState::Pending,
            None,
            None,
        )
        .unwrap();
    fixture.store(&crashed);

    let mut ledger = fixture.durable_ledger();
    let planned =
        plan_reconciliation(&desired, &KnownRemoteState::from_ledger(&ledger).unwrap())
            .unwrap();
    assert!(!planned
        .operations
        .iter()
        .any(|operation| matches!(operation, IntegrationOperation::PublishHosting { .. })));

    let mut publisher = FakeHosting::default();
    let error = execute(
        &fixture,
        &planned,
        &desired,
        &bundle,
        &mut publisher,
        &mut ledger,
    )
    .unwrap_err();

    assert!(matches!(
        error,
        HostingExecutionError::ReconciliationRequired(_)
    ));
    assert_eq!(publisher.calls, Vec::new());
    assert_eq!(
        fixture.durable_ledger().vercel.as_ref().unwrap().status,
        OperationState::Pending
    );
}

#[test]
fn confirmed_matching_fingerprint_is_never_republished() {
    let fixture = Fixture::new();
    let bundle = bundle();
    let desired = desired(&bundle);
    let mut ledger = ledger_for(&desired);
    ledger
        .record_vercel(
            desired.bundle_fingerprint.clone(),
            OperationState::Confirmed,
            Some("dpl-1".to_owned()),
            Some("project.vercel.app".to_owned()),
        )
        .unwrap();
    fixture.store(&ledger);

    // The real planner sees a Confirmed hosting with the same fingerprint
    // and emits no PublishHosting operation.
    let planned =
        plan_reconciliation(&desired, &KnownRemoteState::from_ledger(&ledger).unwrap())
            .unwrap();
    assert!(!planned
        .operations
        .iter()
        .any(|operation| matches!(operation, IntegrationOperation::PublishHosting { .. })));

    let mut publisher = FakeHosting::default();
    let mut ledger = fixture.durable_ledger();
    let report = execute(
        &fixture,
        &planned,
        &desired,
        &bundle,
        &mut publisher,
        &mut ledger,
    )
    .unwrap();

    assert_eq!(report, HostingExecutionReport::default());
    assert_eq!(publisher.calls, Vec::new());
}

#[test]
fn publish_failures_are_classified_by_whether_they_can_have_had_an_effect() {
    for error in [
        ProviderError::AuthenticationRequired,
        ProviderError::AuthenticationFailed,
        ProviderError::PermissionDenied,
        ProviderError::NotFound,
        ProviderError::Conflict,
    ] {
        assert_eq!(classify_publish_failure(&error), FailureKind::NoEffect);
    }
    for error in [
        ProviderError::Network,
        ProviderError::Integrity,
        ProviderError::Other,
        ProviderError::Io("x".to_owned()),
        ProviderError::InvalidKey("x".to_owned()),
        ProviderError::InvalidPath("x".to_owned()),
        ProviderError::AlreadyExists,
        ProviderError::Unsupported,
    ] {
        assert_eq!(classify_publish_failure(&error), FailureKind::Ambiguous);
    }
}

#[test]
fn unpersisted_hosting_pending_prevents_the_publication() {
    let bundle = bundle();
    let desired = desired(&bundle);
    let executor = HostingExecutor::new(
        &hosting_plan(&desired.bundle_fingerprint),
        &desired,
        &bundle,
        ledger_for(&desired),
    )
    .unwrap();
    assert!(matches!(executor.action(), HostingAction::Persist(_)));
    let executor = executor.handle(HostingEvent::NotPersisted {
        durable: Some(ledger_for(&desired)),
        message: "disk full".to_owned(),
    });
    assert_eq!(executor.action(), HostingAction::Finished);
    let (ledger, result) = executor.finish();
    assert_eq!(ledger, ledger_for(&desired));
    assert_eq!(
        result.unwrap_err().message(),
        "failed to persist the integration ledger: disk full"
    );
}

#[test]
fn republication_confirms_the_new_bundle() {
    let fixture = Fixture::new();
    let bundle = bundle();
    let desired = desired(&bundle);
    let mut ledger = ledger_for(&desired);
    ledger
        .record_vercel(
            digest("old bundle"),
            OperationState::Confirmed,
            Some("dpl-0".to_owned()),
            Some("old.vercel.app".to_owned()),
        )
        .unwrap();
    let mut publisher = FakeHosting::default();
    publisher.results.push_back(Ok(DeploymentInfo {
        id: "dpl-1".to_owned(),
        url: "project.vercel.app".to_owned(),
    }));
    execute(
        &fixture,
        &hosting_plan(&desired.bundle_fingerprint),
        &desired,
        &bundle,
        &mut publisher,
        &mut ledger,
    )
    .unwrap();
    assert_eq!(
        ledger.vercel,
        Some(VercelPublication {
            bundle_fingerprint: desired.bundle_fingerprint.clone(),
            status: OperationState::Confirmed,
            deployment_id: Some("dpl-1".to_owned()),
            url: Some("project.vercel.app".to_owned()),
        })
    );
}
