//! Storage execution, with a scripted provider and a ledger kept in memory.

use photo_publisher::bundle::ApplicationBundle;
use photo_publisher::config::{HostingPublicationConfig, ProjectPublicationConfig};
use photo_publisher::executor::{
    classify_failure, StorageAction, StorageEvent, StorageExecutionError, StorageExecutionReport,
    StorageExecutor,
};
use photo_publisher::file_source::FileObservation;
use photo_publisher::inventory::Duplicate;
use photo_publisher::ledger::{IntegrationLedger, LedgerError, LedgerFailure, OperationState};
use photo_publisher::paths::{ObjectKey, PublicationPath};
use photo_publisher::planner::{
    plan_reconciliation, DesiredPublication, DesiredStorageObject, IntegrationOperation,
    IntegrationPlan, KnownRemoteState, LocalPublication, ReconciliationRequirement,
};
use photo_publisher::provider::{FailureKind, ProviderError, ProviderFailure, StorageObject};
use photo_publisher::public_url::PublicBaseUrl;
use sha2::{Digest, Sha256};
use std::cell::RefCell;
use std::collections::{HashMap, VecDeque};
use std::rc::Rc;

fn sha256_bytes(bytes: &[u8]) -> String {
    format!("{:x}", Sha256::digest(bytes))
}

fn digest(value: &str) -> String {
    sha256_bytes(value.as_bytes())
}

/// The durable copy of a ledger.
type Disk = Rc<RefCell<Option<IntegrationLedger>>>;

fn stored(disk: &Disk) -> IntegrationLedger {
    disk.borrow().as_ref().unwrap().duplicate()
}

fn copy_ledger(from: &Disk, to: &Disk) {
    let ledger = stored(from);
    *to.borrow_mut() = Some(ledger);
}

/// Writes a valid ledger; otherwise reports what is still there.
fn persist(disk: &Disk, ledger: &IntegrationLedger) -> Result<(), (Option<IntegrationLedger>, String)> {
    match ledger.validate() {
        Ok(()) => {
            *disk.borrow_mut() = Some(ledger.duplicate());
            Ok(())
        }
        Err(error) => Err((
            disk.borrow().as_ref().map(|durable| durable.duplicate()),
            error.message().to_owned(),
        )),
    }
}

fn failed(error: ProviderError) -> ProviderFailure {
    ProviderFailure {
        description: format!("{error:?}"),
        error,
    }
}

#[derive(Debug, Clone, PartialEq, Eq)]
enum Call {
    Put(String),
    Delete(String),
}

/// Scriptable in-memory provider. Every call is logged, and any call
/// without a scripted result panics so unexpected remote work fails loudly.
#[derive(Default)]
struct FakeStorage {
    objects: HashMap<String, (u64, String, Option<String>)>,
    put_results: VecDeque<Result<(), ProviderError>>,
    delete_results: VecDeque<Result<(), ProviderError>>,
    calls: Vec<Call>,
    on_put: Option<Box<dyn FnMut()>>,
    on_delete: Option<Box<dyn FnMut()>>,
}

impl FakeStorage {
    fn put(
        &mut self,
        key: &ObjectKey,
        bytes: &[u8],
        content_type: Option<&str>,
    ) -> Result<StorageObject, ProviderFailure> {
        self.calls.push(Call::Put(key.as_str().to_owned()));
        let result = self.put_results.pop_front().expect("scripted PUT result");
        if let Some(hook) = self.on_put.as_mut() {
            hook();
        }
        result.map_err(failed)?;
        let object = StorageObject {
            key: key.duplicate(),
            size_bytes: bytes.len() as u64,
            sha256: sha256_bytes(bytes),
            content_type: content_type.map(str::to_owned),
        };
        self.objects.insert(
            key.as_str().to_owned(),
            (
                object.size_bytes,
                object.sha256.clone(),
                object.content_type.clone(),
            ),
        );
        Ok(object)
    }

    fn delete(&mut self, key: &ObjectKey) -> Result<(), ProviderFailure> {
        self.calls.push(Call::Delete(key.as_str().to_owned()));
        let result = self
            .delete_results
            .pop_front()
            .expect("scripted DELETE result");
        if let Some(hook) = self.on_delete.as_mut() {
            hook();
        }
        result.map_err(failed)?;
        self.objects.remove(key.as_str());
        Ok(())
    }
}

/// What stands at a path below the publication root.
enum Entry {
    File(Vec<u8>),
    Directory,
    OutsideRoot,
}

struct Fixture {
    files: RefCell<HashMap<String, Entry>>,
    ledger_path: Disk,
    snapshot: Disk,
}

impl Fixture {
    fn new() -> Self {
        Self {
            files: RefCell::new(HashMap::new()),
            ledger_path: Rc::new(RefCell::new(None)),
            snapshot: Rc::new(RefCell::new(None)),
        }
    }

    /// A desired object bound to a source file below the publication root.
    fn source(&self, name: &str, bytes: &[u8]) -> DesiredStorageObject {
        let relative = format!("photos/download/{name}.jpg");
        self.write(&relative, bytes);
        DesiredStorageObject::new(
            ObjectKey::new(&format!("originals/{name}.jpg")).unwrap(),
            PublicationPath::new(&relative).unwrap(),
            sha256_bytes(bytes),
            bytes.len() as u64,
            Some("image/jpeg".to_owned()),
        )
        .unwrap()
    }

    fn write(&self, path: &str, bytes: &[u8]) {
        self.files
            .borrow_mut()
            .insert(path.to_owned(), Entry::File(bytes.to_vec()));
    }

    fn remove(&self, path: &str) {
        self.files.borrow_mut().remove(path).unwrap();
    }

    fn observe(&self, path: &str) -> FileObservation {
        match self.files.borrow().get(path) {
            Some(Entry::File(bytes)) => FileObservation::of_content(bytes.len() as u64, bytes),
            Some(Entry::Directory) => FileObservation::NotRegular,
            Some(Entry::OutsideRoot) => FileObservation::OutsideRoot,
            None => FileObservation::Missing { cause: "not found".to_owned() },
        }
    }

    fn content(&self, path: &str) -> Vec<u8> {
        match self.files.borrow().get(path) {
            Some(Entry::File(bytes)) => bytes.clone(),
            _ => panic!("no file at {path}"),
        }
    }

    fn durable_ledger(&self) -> IntegrationLedger {
        stored(&self.ledger_path)
    }

    fn store(&self, ledger: &IntegrationLedger) {
        persist(&self.ledger_path, ledger).unwrap();
    }

    fn is_stored(&self) -> bool {
        self.ledger_path.borrow().is_some()
    }

    fn snapshot_path(&self) -> Disk {
        Rc::clone(&self.snapshot)
    }
}

fn plan(operations: Vec<IntegrationOperation>) -> IntegrationPlan {
    IntegrationPlan {
        operations,
        reconciliation_requirements: Vec::new(),
    }
}

fn empty_ledger() -> IntegrationLedger {
    IntegrationLedger::new(
        digest("config"),
        "g-000001".to_owned(),
        digest("state"),
        digest("manifest"),
    )
    .unwrap()
}

fn storage_object(desired: &DesiredStorageObject) -> StorageObject {
    StorageObject {
        key: desired.key.duplicate(),
        size_bytes: desired.size_bytes,
        sha256: desired.sha256.clone(),
        content_type: desired.content_type.clone(),
    }
}

fn record(ledger: &mut IntegrationLedger, object: &StorageObject, status: OperationState) {
    ledger
        .record_r2_object(&object.key, object, status)
        .unwrap();
}

/// Performs what the executor asks for until it is done.
fn execute(
    fixture: &Fixture,
    plan: &IntegrationPlan,
    provider: &mut FakeStorage,
    ledger: &mut IntegrationLedger,
) -> Result<StorageExecutionReport, StorageExecutionError> {
    let mut executor = StorageExecutor::new(plan, ledger.duplicate())?;
    loop {
        let event = match executor.action() {
            StorageAction::Examine(path) => {
                StorageEvent::Examined(fixture.observe(path.as_str()))
            }
            StorageAction::Persist(current) => match persist(&fixture.ledger_path, current) {
                Ok(()) => StorageEvent::Persisted,
                Err((durable, message)) => StorageEvent::NotPersisted { durable, message },
            },
            StorageAction::Put(object) => StorageEvent::Stored(provider.put(
                &object.key,
                &fixture.content(object.source_path.as_str()),
                object.content_type.as_deref(),
            )),
            StorageAction::Delete(key) => StorageEvent::Deleted(provider.delete(key)),
            StorageAction::Finished => break,
        };
        executor = executor.handle(event);
    }
    let (after, result) = executor.finish();
    *ledger = after;
    result
}

fn configuration() -> ProjectPublicationConfig {
    ProjectPublicationConfig {
        project_id: "project".to_owned(),
        bundle_directory: "site".to_owned(),
        repository_provider: "repository".to_owned(),
        repository: "owner/project".to_owned(),
        branch: Some("main".to_owned()),
        preview_prefix: Some("previews".to_owned()),
        preview_public_base_url: PublicBaseUrl::parse("https://cdn.example.com/previews").unwrap(),
        high_resolution_account_id: "account".to_owned(),
        high_resolution_bucket: Some("bucket".to_owned()),
        high_resolution_prefix: Some("originals".to_owned()),
        high_resolution_public_base_url: PublicBaseUrl::parse(
            "https://downloads.example.com/originals",
        )
        .unwrap(),
        hosting: HostingPublicationConfig::new("hosting-project".to_owned(), None).unwrap(),
    }
}

fn desired_publication(object: Option<&DesiredStorageObject>) -> DesiredPublication {
    let bundle =
        ApplicationBundle::from_files(vec![("index.html".to_owned(), b"index".to_vec())]).unwrap();
    let mut desired = DesiredPublication::new(
        &configuration(),
        LocalPublication::new("g-000001".to_owned(), digest("state"), digest("manifest")).unwrap(),
        &bundle,
    )
    .unwrap();
    if let Some(object) = object {
        desired.insert_storage_object(object.duplicate()).unwrap();
    }
    desired
}

fn ledger_for(desired: &DesiredPublication) -> IntegrationLedger {
    IntegrationLedger::new(
        desired.configuration_fingerprint.clone(),
        desired.local.generation.clone(),
        desired.local.state_hash.clone(),
        desired.local.manifest_hash.clone(),
    )
    .unwrap()
}

#[test]
fn put_uploads_and_confirms_a_new_key() {
    let fixture = Fixture::new();
    let desired = fixture.source("a", b"bytes-a");
    let mut ledger = empty_ledger();
    let mut provider = FakeStorage::default();
    provider.put_results.push_back(Ok(()));

    let report = execute(
        &fixture,
        &plan(vec![IntegrationOperation::PutStorage(desired.duplicate())]),
        &mut provider,
        &mut ledger,
    )
    .unwrap();

    assert_eq!(report.uploaded, vec![desired.key.duplicate()]);
    assert_eq!(
        provider.calls,
        vec![Call::Put(desired.key.as_str().to_owned())]
    );
    let entry = ledger.r2_inventory.get(desired.key.as_str()).unwrap();
    assert_eq!(entry.status, OperationState::Confirmed);
    assert_eq!(entry.sha256, desired.sha256);
    assert_eq!(entry.size_bytes, desired.size_bytes);
    assert_eq!(entry.content_type, desired.content_type);
    assert_eq!(
        provider.objects[desired.key.as_str()],
        (
            desired.size_bytes,
            desired.sha256.clone(),
            desired.content_type.clone()
        )
    );
    assert_eq!(fixture.durable_ledger(), ledger);
}

#[test]
fn put_persists_pending_before_calling_the_provider_and_confirmed_afterwards() {
    let fixture = Fixture::new();
    let desired = fixture.source("a", b"bytes-a");
    let mut ledger = empty_ledger();
    let mut provider = FakeStorage::default();
    provider.put_results.push_back(Ok(()));
    let observed: Rc<RefCell<Vec<(OperationState, String)>>> =
        Rc::new(RefCell::new(Vec::new()));
    let ledger_path = fixture.ledger_path.clone();
    let observed_in_hook = Rc::clone(&observed);
    let key = desired.key.as_str().to_owned();
    provider.on_put = Some(Box::new(move || {
        // The fundamental safety rule: the persisted Pending must exist
        // before the remote operation starts.
        let durable = stored(&ledger_path);
        let entry = durable.r2_inventory.get(&key).unwrap().duplicate();
        observed_in_hook
            .borrow_mut()
            .push((entry.status, entry.sha256));
    }));

    execute(
        &fixture,
        &plan(vec![IntegrationOperation::PutStorage(desired.duplicate())]),
        &mut provider,
        &mut ledger,
    )
    .unwrap();

    assert_eq!(
        *observed.borrow(),
        vec![(OperationState::Pending, desired.sha256.clone())]
    );
    assert_eq!(
        fixture.durable_ledger().r2_inventory.get(desired.key.as_str()).unwrap().status,
        OperationState::Confirmed
    );
}

#[test]
fn put_replaces_a_confirmed_key_when_the_desired_content_changed() {
    let fixture = Fixture::new();
    let desired = fixture.source("a", b"new-bytes");
    let mut ledger = empty_ledger();
    let mut predecessor = storage_object(&desired);
    predecessor.sha256 = digest("old-bytes");
    predecessor.size_bytes = 9;
    record(&mut ledger, &predecessor, OperationState::Confirmed);
    fixture.store(&ledger);
    let mut provider = FakeStorage::default();
    provider.put_results.push_back(Ok(()));
    let observed: Rc<RefCell<Vec<(OperationState, String)>>> =
        Rc::new(RefCell::new(Vec::new()));
    let ledger_path = fixture.ledger_path.clone();
    let observed_in_hook = Rc::clone(&observed);
    let key = desired.key.as_str().to_owned();
    provider.on_put = Some(Box::new(move || {
        // The Pending carries the NEW desired metadata, not the old entry.
        let durable = stored(&ledger_path);
        let entry = durable.r2_inventory.get(&key).unwrap().duplicate();
        observed_in_hook
            .borrow_mut()
            .push((entry.status, entry.sha256));
    }));

    execute(
        &fixture,
        &plan(vec![IntegrationOperation::PutStorage(desired.duplicate())]),
        &mut provider,
        &mut ledger,
    )
    .unwrap();

    assert_eq!(
        *observed.borrow(),
        vec![(OperationState::Pending, desired.sha256.clone())]
    );
    let entry = ledger.r2_inventory.get(desired.key.as_str()).unwrap();
    assert_eq!(entry.status, OperationState::Confirmed);
    assert_eq!(entry.sha256, desired.sha256);
    assert_eq!(fixture.durable_ledger(), ledger);
}

#[test]
fn put_with_a_local_sha_mismatch_changes_nothing() {
    let fixture = Fixture::new();
    let desired = fixture.source("a", b"bytes-a");
    // Same length, different content: only the SHA-256 diverges.
    fixture.write("photos/download/a.jpg", b"xxxxxxx");
    let mut ledger = empty_ledger();
    let mut provider = FakeStorage::default();

    let error = execute(
        &fixture,
        &plan(vec![IntegrationOperation::PutStorage(desired.duplicate())]),
        &mut provider,
        &mut ledger,
    )
    .unwrap_err();

    assert!(matches!(
        error,
        StorageExecutionError::LocalValidation { .. }
    ));
    assert!(provider.calls.is_empty());
    assert!(ledger.r2_inventory.is_empty());
    assert!(!fixture.is_stored());
}

#[test]
fn put_with_a_local_size_mismatch_changes_nothing() {
    let fixture = Fixture::new();
    let desired = fixture.source("a", b"bytes-a");
    let wrong_size = DesiredStorageObject::new(
        desired.key.duplicate(),
        desired.source_path.duplicate(),
        desired.sha256.clone(),
        desired.size_bytes + 1,
        desired.content_type.clone(),
    )
    .unwrap();
    let mut ledger = empty_ledger();
    let mut provider = FakeStorage::default();

    let error = execute(
        &fixture,
        &plan(vec![IntegrationOperation::PutStorage(wrong_size)]),
        &mut provider,
        &mut ledger,
    )
    .unwrap_err();

    assert!(matches!(
        error,
        StorageExecutionError::LocalValidation { .. }
    ));
    assert!(provider.calls.is_empty());
    assert!(ledger.r2_inventory.is_empty());
    assert!(!fixture.is_stored());
}

#[test]
fn put_with_a_missing_source_changes_nothing() {
    let fixture = Fixture::new();
    let desired = fixture.source("a", b"bytes-a");
    fixture.remove("photos/download/a.jpg");
    let mut ledger = empty_ledger();
    let mut provider = FakeStorage::default();

    let error = execute(
        &fixture,
        &plan(vec![IntegrationOperation::PutStorage(desired.duplicate())]),
        &mut provider,
        &mut ledger,
    )
    .unwrap_err();

    assert!(matches!(
        error,
        StorageExecutionError::LocalValidation { .. }
    ));
    assert!(provider.calls.is_empty());
    assert!(ledger.r2_inventory.is_empty());
    assert!(!fixture.is_stored());
}

#[test]
fn put_with_a_network_failure_marks_unknown_and_stops() {
    let fixture = Fixture::new();
    let desired = fixture.source("a", b"bytes-a");
    let mut ledger = empty_ledger();
    let mut provider = FakeStorage::default();
    provider.put_results.push_back(Err(ProviderError::Network));

    let error = execute(
        &fixture,
        &plan(vec![IntegrationOperation::PutStorage(desired.duplicate())]),
        &mut provider,
        &mut ledger,
    )
    .unwrap_err();

    assert!(matches!(error, StorageExecutionError::Ambiguous { .. }));
    assert_eq!(
        provider.calls,
        vec![Call::Put(desired.key.as_str().to_owned())]
    );
    let entry = ledger.r2_inventory.get(desired.key.as_str()).unwrap();
    assert_eq!(entry.status, OperationState::Unknown);
    assert_eq!(entry.sha256, desired.sha256);
    assert_eq!(entry.size_bytes, desired.size_bytes);
    assert_eq!(fixture.durable_ledger(), ledger);
    // The remote state is genuinely indeterminate: nothing was stored by
    // the fake, yet the ledger must not assume the PUT never happened.
    assert!(!provider.objects.contains_key(desired.key.as_str()));
}

#[test]
fn put_with_a_conflict_marks_unknown_and_stops() {
    let fixture = Fixture::new();
    let desired = fixture.source("a", b"bytes-a");
    let mut ledger = empty_ledger();
    let mut provider = FakeStorage::default();
    provider.put_results.push_back(Err(ProviderError::Conflict));

    let error = execute(
        &fixture,
        &plan(vec![IntegrationOperation::PutStorage(desired.duplicate())]),
        &mut provider,
        &mut ledger,
    )
    .unwrap_err();

    assert!(matches!(error, StorageExecutionError::Ambiguous { .. }));
    assert_eq!(
        ledger.r2_inventory.get(desired.key.as_str()).unwrap().status,
        OperationState::Unknown
    );
    assert_eq!(fixture.durable_ledger(), ledger);
}

#[test]
fn put_rejected_without_remote_effect_leaves_no_entry_for_a_new_key() {
    let fixture = Fixture::new();
    let desired = fixture.source("a", b"bytes-a");
    let mut ledger = empty_ledger();
    let mut provider = FakeStorage::default();
    provider
        .put_results
        .push_back(Err(ProviderError::PermissionDenied));

    let error = execute(
        &fixture,
        &plan(vec![IntegrationOperation::PutStorage(desired.duplicate())]),
        &mut provider,
        &mut ledger,
    )
    .unwrap_err();

    assert!(matches!(error, StorageExecutionError::Rejected { .. }));
    assert!(ledger.r2_inventory.is_empty());
    assert_eq!(fixture.durable_ledger(), ledger);
    assert_eq!(provider.calls.len(), 1);
    assert!(!provider.objects.contains_key(desired.key.as_str()));
}

#[test]
fn put_rejected_restores_the_confirmed_predecessor() {
    let fixture = Fixture::new();
    let desired = fixture.source("a", b"new-bytes");
    let mut ledger = empty_ledger();
    let mut predecessor = storage_object(&desired);
    predecessor.sha256 = digest("old-bytes");
    predecessor.size_bytes = 9;
    record(&mut ledger, &predecessor, OperationState::Confirmed);
    fixture.store(&ledger);
    let snapshot = ledger.clone();
    let mut provider = FakeStorage::default();
    provider
        .put_results
        .push_back(Err(ProviderError::AuthenticationFailed));

    let error = execute(
        &fixture,
        &plan(vec![IntegrationOperation::PutStorage(desired.duplicate())]),
        &mut provider,
        &mut ledger,
    )
    .unwrap_err();

    assert!(matches!(error, StorageExecutionError::Rejected { .. }));
    assert_eq!(ledger, snapshot);
    assert_eq!(fixture.durable_ledger(), snapshot);
}

#[test]
fn delete_removes_a_confirmed_key_and_persists_the_transitions() {
    let fixture = Fixture::new();
    let desired = fixture.source("a", b"bytes-a");
    let mut ledger = empty_ledger();
    record(
        &mut ledger,
        &storage_object(&desired),
        OperationState::Confirmed,
    );
    fixture.store(&ledger);
    let mut provider = FakeStorage {
        objects: HashMap::from([(
            desired.key.as_str().to_owned(),
            (
                desired.size_bytes,
                desired.sha256.clone(),
                desired.content_type.clone(),
            ),
        )]),
        ..FakeStorage::default()
    };
    provider.delete_results.push_back(Ok(()));
    let observed: Rc<RefCell<Vec<(OperationState, String)>>> =
        Rc::new(RefCell::new(Vec::new()));
    let ledger_path = fixture.ledger_path.clone();
    let observed_in_hook = Rc::clone(&observed);
    let key = desired.key.as_str().to_owned();
    provider.on_delete = Some(Box::new(move || {
        // Pending is persisted before the remote DELETE and preserves the
        // existing confirmed metadata.
        let durable = stored(&ledger_path);
        let entry = durable.r2_inventory.get(&key).unwrap().duplicate();
        observed_in_hook
            .borrow_mut()
            .push((entry.status, entry.sha256));
    }));

    let report = execute(
        &fixture,
        &plan(vec![IntegrationOperation::DeleteStorage {
            key: desired.key.duplicate(),
        }]),
        &mut provider,
        &mut ledger,
    )
    .unwrap();

    assert_eq!(report.deleted, vec![desired.key.duplicate()]);
    assert_eq!(
        *observed.borrow(),
        vec![(OperationState::Pending, desired.sha256.clone())]
    );
    assert_eq!(
        provider.calls,
        vec![Call::Delete(desired.key.as_str().to_owned())]
    );
    // No tombstone: absence of the key is the final state.
    assert!(!ledger.r2_inventory.contains_key(desired.key.as_str()));
    assert!(!provider.objects.contains_key(desired.key.as_str()));
    assert_eq!(fixture.durable_ledger(), ledger);
}

#[test]
fn delete_treats_not_found_as_idempotent_success() {
    let fixture = Fixture::new();
    let desired = fixture.source("a", b"bytes-a");
    let mut ledger = empty_ledger();
    record(
        &mut ledger,
        &storage_object(&desired),
        OperationState::Confirmed,
    );
    fixture.store(&ledger);
    let mut provider = FakeStorage::default();
    provider
        .delete_results
        .push_back(Err(ProviderError::NotFound));

    execute(
        &fixture,
        &plan(vec![IntegrationOperation::DeleteStorage {
            key: desired.key.duplicate(),
        }]),
        &mut provider,
        &mut ledger,
    )
    .unwrap();

    assert!(!ledger.r2_inventory.contains_key(desired.key.as_str()));
    assert_eq!(fixture.durable_ledger(), ledger);
}

#[test]
fn delete_with_a_network_failure_marks_unknown_and_stops() {
    let fixture = Fixture::new();
    let desired = fixture.source("a", b"bytes-a");
    let mut ledger = empty_ledger();
    record(
        &mut ledger,
        &storage_object(&desired),
        OperationState::Confirmed,
    );
    fixture.store(&ledger);
    let mut provider = FakeStorage::default();
    provider
        .delete_results
        .push_back(Err(ProviderError::Network));

    let error = execute(
        &fixture,
        &plan(vec![IntegrationOperation::DeleteStorage {
            key: desired.key.duplicate(),
        }]),
        &mut provider,
        &mut ledger,
    )
    .unwrap_err();

    assert!(matches!(error, StorageExecutionError::Ambiguous { .. }));
    let entry = ledger.r2_inventory.get(desired.key.as_str()).unwrap();
    assert_eq!(entry.status, OperationState::Unknown);
    // The Unknown entry preserves the last confirmed metadata.
    assert_eq!(entry.sha256, desired.sha256);
    assert_eq!(entry.size_bytes, desired.size_bytes);
    assert_eq!(fixture.durable_ledger(), ledger);
}

#[test]
fn executor_plan_with_reconciliation_requirements_is_refused() {
    let fixture = Fixture::new();
    let desired = fixture.source("a", b"bytes-a");
    let mut provider = FakeStorage::default();
    let mut ledger = empty_ledger();

    for requirement in [
        ReconciliationRequirement::ConfigurationChanged,
        ReconciliationRequirement::StoragePending {
            key: desired.key.duplicate(),
        },
        ReconciliationRequirement::StorageUnknown {
            key: desired.key.duplicate(),
        },
    ] {
        let blocked = IntegrationPlan {
            operations: vec![IntegrationOperation::PutStorage(desired.duplicate())],
            reconciliation_requirements: vec![requirement],
        };
        let error = execute(&fixture, &blocked, &mut provider, &mut ledger).unwrap_err();
        assert!(matches!(
            error,
            StorageExecutionError::ReconciliationRequired(_)
        ));
    }
    assert!(provider.calls.is_empty());
    assert!(ledger.r2_inventory.is_empty());
    assert!(!fixture.is_stored());
}

#[test]
fn put_over_a_pending_or_unknown_ledger_entry_is_refused() {
    for status in [OperationState::Pending, OperationState::Unknown] {
        let fixture = Fixture::new();
        let desired = fixture.source("a", b"bytes-a");
        let mut ledger = empty_ledger();
        record(&mut ledger, &storage_object(&desired), status);
        let mut provider = FakeStorage::default();

        let error = execute(
            &fixture,
            &plan(vec![IntegrationOperation::PutStorage(desired.duplicate())]),
            &mut provider,
            &mut ledger,
        )
        .unwrap_err();

        assert!(matches!(error, StorageExecutionError::InconsistentPlan(_)));
        assert!(provider.calls.is_empty());
        assert_eq!(ledger.r2_inventory.get(desired.key.as_str()).unwrap().status, status);
    }
}

#[test]
fn delete_of_a_key_not_confirmed_in_the_ledger_is_refused() {
    let fixture = Fixture::new();
    let desired = fixture.source("a", b"bytes-a");
    let mut provider = FakeStorage::default();

    // Absent from the ledger.
    let mut ledger = empty_ledger();
    let error = execute(
        &fixture,
        &plan(vec![IntegrationOperation::DeleteStorage {
            key: desired.key.duplicate(),
        }]),
        &mut provider,
        &mut ledger,
    )
    .unwrap_err();
    assert!(matches!(error, StorageExecutionError::InconsistentPlan(_)));

    // Recorded, but not Confirmed.
    for status in [OperationState::Pending, OperationState::Unknown] {
        let mut ledger = empty_ledger();
        record(&mut ledger, &storage_object(&desired), status);
        let error = execute(
            &fixture,
            &plan(vec![IntegrationOperation::DeleteStorage {
                key: desired.key.duplicate(),
            }]),
            &mut provider,
            &mut ledger,
        )
        .unwrap_err();
        assert!(matches!(error, StorageExecutionError::InconsistentPlan(_)));
    }
    assert!(provider.calls.is_empty());
    assert!(!fixture.is_stored());
}

#[test]
fn execution_stops_immediately_after_an_ambiguous_result() {
    let fixture = Fixture::new();
    let first = fixture.source("a", b"bytes-a");
    let second = fixture.source("b", b"bytes-b");
    let mut ledger = empty_ledger();
    let mut provider = FakeStorage::default();
    provider.put_results.push_back(Err(ProviderError::Network));
    // No second scripted result: a call for `second` would panic.

    let error = execute(
        &fixture,
        &plan(vec![
            IntegrationOperation::PutStorage(first.duplicate()),
            IntegrationOperation::PutStorage(second.duplicate()),
        ]),
        &mut provider,
        &mut ledger,
    )
    .unwrap_err();

    assert!(matches!(error, StorageExecutionError::Ambiguous { .. }));
    assert_eq!(
        provider.calls,
        vec![Call::Put(first.key.as_str().to_owned())]
    );
    assert_eq!(
        ledger.r2_inventory.get(first.key.as_str()).unwrap().status,
        OperationState::Unknown
    );
    assert!(!ledger.r2_inventory.contains_key(second.key.as_str()));
}

#[test]
fn crash_after_pending_before_the_put_blocks_the_next_cycle() {
    let fixture = Fixture::new();
    let object = fixture.source("a", b"bytes-a");
    let desired = desired_publication(Some(&object));
    // Durable state left by a crash after Pending was persisted and
    // before the remote PUT was attempted.
    let mut crashed = ledger_for(&desired);
    record(
        &mut crashed,
        &storage_object(&object),
        OperationState::Pending,
    );
    fixture.store(&crashed);

    let mut ledger = fixture.durable_ledger();
    let planned =
        plan_reconciliation(&desired, &KnownRemoteState::from_ledger(&ledger).unwrap())
            .unwrap();
    assert!(planned
        .reconciliation_requirements
        .iter()
        .any(|requirement| matches!(
            requirement,
            ReconciliationRequirement::StoragePending { .. }
        )));
    assert!(!planned
        .operations
        .iter()
        .any(|operation| matches!(operation, IntegrationOperation::PutStorage(_))));

    let mut provider = FakeStorage::default();
    let error = execute(&fixture, &planned, &mut provider, &mut ledger).unwrap_err();

    assert!(matches!(
        error,
        StorageExecutionError::ReconciliationRequired(_)
    ));
    assert!(provider.calls.is_empty());
    assert!(provider.objects.is_empty());
    assert_eq!(
        fixture.durable_ledger().r2_inventory.get(object.key.as_str()).unwrap().status,
        OperationState::Pending
    );
}

#[test]
fn crash_after_the_remote_put_without_a_persisted_confirmation_is_not_repeated() {
    let fixture = Fixture::new();
    let object = fixture.source("a", b"bytes-a");
    let desired = desired_publication(Some(&object));
    let mut ledger = ledger_for(&desired);
    let mut provider = FakeStorage::default();
    provider.put_results.push_back(Ok(()));
    // Snapshot the durable Pending while the remote PUT is in flight.
    let ledger_path = fixture.ledger_path.clone();
    let snapshot_path = fixture.snapshot_path();
    provider.on_put = Some(Box::new(move || {
        copy_ledger(&ledger_path, &snapshot_path);
    }));

    let planned =
        plan_reconciliation(&desired, &KnownRemoteState::from_ledger(&ledger).unwrap())
            .unwrap();
    assert!(planned.reconciliation_requirements.is_empty());
    execute(&fixture, &planned, &mut provider, &mut ledger).unwrap();
    assert_eq!(provider.calls.len(), 1);
    assert!(provider.objects.contains_key(object.key.as_str()));

    // Emulate a crash that lost the Confirmed write: the durable ledger is
    // back at Pending while the remote object exists.
    copy_ledger(&fixture.snapshot_path(), &fixture.ledger_path);
    let durable = fixture.durable_ledger();
    assert_eq!(
        durable.r2_inventory.get(object.key.as_str()).unwrap().status,
        OperationState::Pending
    );

    let mut ledger = durable;
    let mut provider = FakeStorage {
        objects: provider.objects.clone(),
        ..FakeStorage::default()
    };
    let planned =
        plan_reconciliation(&desired, &KnownRemoteState::from_ledger(&ledger).unwrap())
            .unwrap();
    let error = execute(&fixture, &planned, &mut provider, &mut ledger).unwrap_err();

    assert!(matches!(
        error,
        StorageExecutionError::ReconciliationRequired(_)
    ));
    // The PUT is never repeated automatically.
    assert!(provider.calls.is_empty());
    assert!(provider.objects.contains_key(object.key.as_str()));
}

#[test]
fn crash_after_the_remote_delete_without_a_persisted_removal_is_not_repeated() {
    let fixture = Fixture::new();
    // The desired publication has no storage objects; the ledger knows one
    // Confirmed key that must be deleted.
    let desired = desired_publication(None);
    let key = ObjectKey::new("originals/removed.jpg").unwrap();
    let removed = StorageObject {
        key: key.duplicate(),
        size_bytes: 7,
        sha256: digest("old"),
        content_type: Some("image/jpeg".to_owned()),
    };
    let mut ledger = ledger_for(&desired);
    record(&mut ledger, &removed, OperationState::Confirmed);
    let mut provider = FakeStorage {
        objects: HashMap::from([(
            key.as_str().to_owned(),
            (
                removed.size_bytes,
                removed.sha256.clone(),
                removed.content_type.clone(),
            ),
        )]),
        ..FakeStorage::default()
    };
    provider.delete_results.push_back(Ok(()));
    // Snapshot the durable Pending while the remote DELETE is in flight.
    let ledger_path = fixture.ledger_path.clone();
    let snapshot_path = fixture.snapshot_path();
    provider.on_delete = Some(Box::new(move || {
        copy_ledger(&ledger_path, &snapshot_path);
    }));

    let planned =
        plan_reconciliation(&desired, &KnownRemoteState::from_ledger(&ledger).unwrap())
            .unwrap();
    assert!(planned.operations.iter().any(
        |operation| matches!(operation, IntegrationOperation::DeleteStorage { key: candidate } if *candidate == key)
    ));
    execute(&fixture, &planned, &mut provider, &mut ledger).unwrap();
    assert!(provider.objects.is_empty());

    // Crash: the durable ledger is back at Pending; the remote object is
    // already gone.
    copy_ledger(&fixture.snapshot_path(), &fixture.ledger_path);
    let durable = fixture.durable_ledger();
    assert_eq!(
        durable.r2_inventory.get(key.as_str()).unwrap().status,
        OperationState::Pending
    );

    let mut ledger = durable;
    let mut provider = FakeStorage::default();
    let planned =
        plan_reconciliation(&desired, &KnownRemoteState::from_ledger(&ledger).unwrap())
            .unwrap();
    let error = execute(&fixture, &planned, &mut provider, &mut ledger).unwrap_err();

    assert!(matches!(
        error,
        StorageExecutionError::ReconciliationRequired(_)
    ));
    // DELETE is idempotent, but it is still never reissued automatically.
    assert!(provider.calls.is_empty());
}

#[test]
fn put_of_an_unusable_source_names_the_reason() {
    for (entry, reason) in [
        (None, "source file does not exist"),
        (Some(Entry::Directory), "source file is not a regular file"),
        (
            Some(Entry::OutsideRoot),
            "source file escapes the publication root",
        ),
    ] {
        let fixture = Fixture::new();
        let desired = fixture.source("a", b"bytes-a");
        fixture.remove("photos/download/a.jpg");
        if let Some(entry) = entry {
            fixture
                .files
                .borrow_mut()
                .insert("photos/download/a.jpg".to_owned(), entry);
        }
        let mut ledger = empty_ledger();
        let mut provider = FakeStorage::default();
        let error = execute(
            &fixture,
            &plan(vec![IntegrationOperation::PutStorage(desired.duplicate())]),
            &mut provider,
            &mut ledger,
        )
        .unwrap_err();
        assert!(
            error.message().starts_with(&format!("originals/a.jpg: {reason}")),
            "{}",
            error.message()
        );
        assert!(provider.calls.is_empty());
    }
}

#[test]
fn upload_with_other_metadata_is_recorded_as_it_was_stored() {
    let fixture = Fixture::new();
    let desired = fixture.source("a", b"bytes-a");
    let executor = StorageExecutor::new(
        &plan(vec![IntegrationOperation::PutStorage(desired.duplicate())]),
        empty_ledger(),
    )
    .unwrap();
    let executor = executor
        .handle(StorageEvent::Examined(
            fixture.observe("photos/download/a.jpg"),
        ))
        .handle(StorageEvent::Persisted)
        .handle(StorageEvent::Stored(Ok(StorageObject {
            sha256: digest("stored"),
            ..storage_object(&desired)
        })))
        .handle(StorageEvent::Persisted);
    assert_eq!(executor.action(), StorageAction::Finished);
    let (ledger, result) = executor.finish();
    assert!(matches!(
        result,
        Err(StorageExecutionError::InconsistentUpload { .. })
    ));
    let entry = ledger.r2_inventory.get("originals/a.jpg").unwrap();
    assert_eq!(entry.status, OperationState::Confirmed);
    assert_eq!(entry.sha256, digest("stored"));
}

#[test]
fn upload_answered_for_another_key_is_unknown() {
    let fixture = Fixture::new();
    let desired = fixture.source("a", b"bytes-a");
    let executor = StorageExecutor::new(
        &plan(vec![IntegrationOperation::PutStorage(desired.duplicate())]),
        empty_ledger(),
    )
    .unwrap()
    .handle(StorageEvent::Examined(
        fixture.observe("photos/download/a.jpg"),
    ))
    .handle(StorageEvent::Persisted)
    .handle(StorageEvent::Stored(Ok(StorageObject {
        key: ObjectKey::new("originals/b.jpg").unwrap(),
        ..storage_object(&desired)
    })))
    .handle(StorageEvent::Persisted);
    let (ledger, result) = executor.finish();
    let error = result.unwrap_err();
    assert_eq!(
        error.message(),
        "originals/a.jpg: storage provider returned originals/b.jpg for a PUT of this key"
    );
    assert_eq!(
        ledger.r2_inventory.get("originals/a.jpg").unwrap().status,
        OperationState::Unknown
    );
}

#[test]
fn unpersisted_pending_prevents_the_remote_call_and_reloads_the_ledger() {
    let fixture = Fixture::new();
    let desired = fixture.source("a", b"bytes-a");
    let executor = StorageExecutor::new(
        &plan(vec![IntegrationOperation::PutStorage(desired.duplicate())]),
        empty_ledger(),
    )
    .unwrap()
    .handle(StorageEvent::Examined(
        fixture.observe("photos/download/a.jpg"),
    ))
    .handle(StorageEvent::NotPersisted {
        durable: Some(empty_ledger()),
        message: "disk full".to_owned(),
    });
    assert_eq!(executor.action(), StorageAction::Finished);
    let (ledger, result) = executor.finish();
    assert_eq!(ledger, empty_ledger());
    assert_eq!(
        result,
        Err(StorageExecutionError::Ledger(LedgerFailure::NotPersisted(
            "disk full".to_owned()
        )))
    );
}

#[test]
fn invalid_ledger_is_refused_when_the_pending_entry_is_recorded() {
    let fixture = Fixture::new();
    let desired = fixture.source("a", b"bytes-a");
    let mut ledger = empty_ledger();
    ledger.local_generation = "  ".to_owned();
    let error = execute(
        &fixture,
        &plan(vec![IntegrationOperation::PutStorage(desired.duplicate())]),
        &mut FakeStorage::default(),
        &mut ledger,
    )
    .unwrap_err();
    assert!(matches!(
        error,
        StorageExecutionError::Ledger(LedgerFailure::Refused(LedgerError::MissingGeneration))
    ));
}

#[test]
fn rejected_delete_restores_the_confirmed_entry() {
    let fixture = Fixture::new();
    let desired = fixture.source("a", b"bytes-a");
    let mut ledger = empty_ledger();
    record(
        &mut ledger,
        &storage_object(&desired),
        OperationState::Confirmed,
    );
    let before = ledger.clone();
    let mut provider = FakeStorage::default();
    provider
        .delete_results
        .push_back(Err(ProviderError::PermissionDenied));
    let error = execute(
        &fixture,
        &plan(vec![IntegrationOperation::DeleteStorage {
            key: desired.key.duplicate(),
        }]),
        &mut provider,
        &mut ledger,
    )
    .unwrap_err();
    assert_eq!(
        error.message(),
        "originals/a.jpg: storage DELETE was rejected without a remote effect: PermissionDenied"
    );
    assert_eq!(ledger, before);
    assert_eq!(fixture.durable_ledger(), before);
}

#[test]
fn failures_are_classified_by_whether_they_can_have_had_an_effect() {
    for error in [
        ProviderError::Io("x".to_owned()),
        ProviderError::InvalidKey("x".to_owned()),
        ProviderError::InvalidPath("x".to_owned()),
        ProviderError::AuthenticationRequired,
        ProviderError::Unsupported,
        ProviderError::AuthenticationFailed,
        ProviderError::PermissionDenied,
        ProviderError::NotFound,
    ] {
        assert_eq!(classify_failure(&error), FailureKind::NoEffect);
    }
    for error in [
        ProviderError::Network,
        ProviderError::Conflict,
        ProviderError::AlreadyExists,
        ProviderError::Integrity,
        ProviderError::Other,
    ] {
        assert_eq!(classify_failure(&error), FailureKind::Ambiguous);
    }
}

#[test]
fn storage_errors_have_their_messages() {
    assert_eq!(
        StorageExecutionError::ReconciliationRequired(vec![
            ReconciliationRequirement::ConfigurationChanged
        ])
        .message(),
        "storage execution requires reconciliation first (1 requirement(s))"
    );
    assert_eq!(
        StorageExecutionError::InvalidRoot("gone".to_owned()).message(),
        "failed to resolve the publication output directory: gone"
    );
    let fixture = Fixture::new();
    let desired = fixture.source("a", b"bytes-a");
    let mut ledger = empty_ledger();
    record(
        &mut ledger,
        &storage_object(&desired),
        OperationState::Pending,
    );
    let error = execute(
        &fixture,
        &plan(vec![IntegrationOperation::PutStorage(desired.duplicate())]),
        &mut FakeStorage::default(),
        &mut ledger,
    )
    .unwrap_err();
    assert_eq!(
        error.message(),
        "inconsistent plan: cannot PUT originals/a.jpg while the ledger marks it pending"
    );
}

#[test]
fn operations_of_other_families_are_left_alone() {
    let fixture = Fixture::new();
    let mut ledger = empty_ledger();
    let report = execute(
        &fixture,
        &plan(vec![IntegrationOperation::PublishHosting {
            bundle_fingerprint: digest("bundle"),
        }]),
        &mut FakeStorage::default(),
        &mut ledger,
    )
    .unwrap();
    assert_eq!(report, StorageExecutionReport::default());
    assert_eq!(ledger, empty_ledger());
    assert!(!fixture.is_stored());
}
