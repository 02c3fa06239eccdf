//! Coordinated publication, with scripted providers and a ledger kept in memory.

use photo_publisher::bundle::{bundle_content, ApplicationBundle};
use photo_publisher::committed::CommittedOutput;
use photo_publisher::config::{HostingPublicationConfig, ProjectPublicationConfig};
use photo_publisher::coordinator::{
    unsafe_ledger_state, CoordinationAction, CoordinationError, CoordinationEvent, Coordinator,
    PublicationReport,
};
use photo_publisher::executor::{
    StorageAction, StorageEvent, StorageExecutionError, StorageExecutionReport, StorageExecutor,
};
use photo_publisher::file_source::FileObservation;
use photo_publisher::gallery::SourcePhoto;
use photo_publisher::hosting::{
    HostingAction, HostingEvent, HostingExecutionError, HostingExecutionReport, HostingExecutor,
    HostingPublisher,
};
use photo_publisher::inventory::Duplicate;
use photo_publisher::journal::{JournalPhase, JournalRecord};
use photo_publisher::ledger::{copy_vercel, IntegrationLedger, OperationState};
use photo_publisher::manifest::{compose_application_bundle, PublicGalleryManifest};
use photo_publisher::paths::{ObjectKey, PublicationPath, RepositoryPath};
use photo_publisher::planner::{
    plan_reconciliation, DesiredPublication, DesiredRepositoryFile, DesiredStorageObject,
    IntegrationOperation, IntegrationPlan, KnownRemoteState, LocalPublication,
    ReconciliationRequirement, RepositoryFileSource,
};
use photo_publisher::provider::{
    CommitInfo, DeploymentInfo, FileMetadata, ProviderError, ProviderFailure, StorageObject,
};
use photo_publisher::public_url::PublicBaseUrl;
use photo_publisher::recovery::GalleryFile;
use photo_publisher::repository::{
    RepositoryAction, RepositoryEvent, RepositoryExecutionError, RepositoryExecutionReport,
    RepositoryExecutor,
};
use sha2::{Digest, Sha256};
use std::cell::RefCell;
use std::collections::{HashMap, VecDeque};
use std::rc::Rc;

fn sha256_bytes(bytes: &[u8]) -> String {
    format!("{:x}", Sha256::digest(bytes))
}

fn digest(value: &str) -> String {
    sha256_bytes(value.as_bytes())
}

/// The durable copy of a ledger.
type Disk = Rc<RefCell<Option<IntegrationLedger>>>;

fn stored(disk: &Disk) -> IntegrationLedger {
    disk.borrow().as_ref().unwrap().duplicate()
}

/// Writes a valid ledger; otherwise reports what is still there.
fn persist(disk: &Disk, ledger: &IntegrationLedger) -> Result<(), (Option<IntegrationLedger>, String)> {
    match ledger.validate() {
        Ok(()) => {
            *disk.borrow_mut() = Some(ledger.duplicate());
            Ok(())
        }
        Err(error) => Err((
            disk.borrow().as_ref().map(|durable| durable.duplicate()),
            error.message().to_owned(),
        )),
    }
}

fn failed(error: ProviderError) -> ProviderFailure {
    ProviderFailure {
        description: format!("{error:?}"),
        error,
    }
}

/// Shared cross-provider call log used to prove the execution order.
type SharedLog = Rc<RefCell<Vec<&'static str>>>;

#[derive(Default)]
struct FakeStorage {
    log: SharedLog,
    objects: HashMap<String, (u64, String, Option<String>)>,
    put_scripts: VecDeque<Result<(), ProviderError>>,
    delete_scripts: VecDeque<Result<(), ProviderError>>,
}

impl FakeStorage {
    fn put(
        &mut self,
        key: &ObjectKey,
        bytes: Vec<u8>,
        content_type: Option<&str>,
    ) -> Result<StorageObject, ProviderFailure> {
        self.log.borrow_mut().push("storage");
        self.put_scripts.pop_front().unwrap_or(Ok(())).map_err(failed)?;
        let object = StorageObject {
            key: key.duplicate(),
            size_bytes: bytes.len() as u64,
            sha256: sha256_bytes(&bytes),
            content_type: content_type.map(str::to_owned),
        };
        self.objects.insert(
            key.as_str().to_owned(),
            (
                object.size_bytes,
                object.sha256.clone(),
                object.content_type.clone(),
            ),
        );
        Ok(object)
    }

    fn delete(&mut self, key: &ObjectKey) -> Result<(), ProviderFailure> {
        self.log.borrow_mut().push("storage");
        self.delete_scripts.pop_front().unwrap_or(Ok(())).map_err(failed)?;
        self.objects.remove(key.as_str());
        Ok(())
    }
}

#[derive(Default)]
struct FakeRepository {
    log: SharedLog,
    files: HashMap<String, Vec<u8>>,
    revision: String,
    staged: HashMap<String, Option<Vec<u8>>>,
    commit_scripts: VecDeque<Result<(), ProviderError>>,
    commit_count: usize,
}

impl FakeRepository {
    fn new(log: &SharedLog) -> Self {
        Self {
            log: Rc::clone(log),
            revision: "base-revision".to_owned(),
            ..Self::default()
        }
    }

    fn ensure_repository(&mut self) -> Result<(), ProviderFailure> {
        self.log.borrow_mut().push("repository");
        Ok(())
    }

    fn write(
        &mut self,
        path: &RepositoryPath,
        bytes: Vec<u8>,
    ) -> Result<FileMetadata, ProviderFailure> {
        let metadata = FileMetadata {
            path: path.duplicate(),
            size_bytes: bytes.len() as u64,
            sha256: sha256_bytes(&bytes),
        };
        self.staged.insert(path.as_str().to_owned(), Some(bytes));
        Ok(metadata)
    }

    fn delete(&mut self, path: &RepositoryPath) -> Result<(), ProviderFailure> {
        self.staged.insert(path.as_str().to_owned(), None);
        Ok(())
    }

    fn commit(&mut self, message: &str) -> Result<CommitInfo, ProviderFailure> {
        if self.staged.is_empty() {
            // Base revision probe: reads only, publishes nothing.
            return Ok(CommitInfo {
                revision: self.revision.clone(),
                message: message.to_owned(),
                changed_paths: Vec::new(),
            });
        }
        self.commit_count += 1;
        // Like the real provider, staged changes survive a failed commit.
        self.commit_scripts.pop_front().unwrap_or(Ok(())).map_err(failed)?;
        let staged = std::mem::take(&mut self.staged);
        let mut changed_paths: Vec<RepositoryPath> = staged
            .keys()
            .map(|path| RepositoryPath::new(path).unwrap())
            .collect();
        changed_paths.sort_by(|left, right| left.as_str().cmp(right.as_str()));
        for (path, change) in staged {
            match change {
                Some(bytes) => {
                    self.files.insert(path, bytes);
                }
                None => {
                    self.files.remove(&path);
                }
            }
        }
        self.revision = format!("commit-{:02}", self.commit_count);
        Ok(CommitInfo {
            revision: self.revision.clone(),
            message: message.to_owned(),
            changed_paths,
        })
    }
}

#[derive(Default)]
struct FakeHosting {
    log: SharedLog,
    results: VecDeque<Result<DeploymentInfo, ProviderError>>,
}

impl HostingPublisher for FakeHosting {
    fn publish(
        &mut self,
        bundle: &ApplicationBundle,
        _configuration: &HostingPublicationConfig,
    ) -> Result<DeploymentInfo, ProviderFailure> {
        self.log.borrow_mut().push("hosting");
        let _ = bundle;
        self.results
            .pop_front()
            .expect("scripted publish result")
            .map_err(failed)
    }
}

struct Providers {
    storage: FakeStorage,
    repository: FakeRepository,
    hosting: FakeHosting,
}

impl Providers {
    fn new(log: &SharedLog) -> Self {
        Self {
            storage: FakeStorage {
                log: Rc::clone(log),
                ..FakeStorage::default()
            },
            repository: FakeRepository::new(log),
            hosting: FakeHosting {
                log: Rc::clone(log),
                ..FakeHosting::default()
            },
        }
    }
}

struct Fixture {
    files: RefCell<HashMap<String, Vec<u8>>>,
    ledger_path: Disk,
}

impl Fixture {
    fn new() -> Self {
        Self {
            files: RefCell::new(HashMap::new()),
            ledger_path: Rc::new(RefCell::new(None)),
        }
    }

    fn write(&self, path: &str, bytes: &[u8]) {
        self.files
            .borrow_mut()
            .insert(path.to_owned(), bytes.to_vec());
    }

    fn observe(&self, path: &str) -> FileObservation {
        match self.files.borrow().get(path) {
            Some(bytes) => FileObservation::of_content(bytes.len() as u64, bytes),
            None => FileObservation::Missing { cause: "not found".to_owned() },
        }
    }

    fn content(&self, path: &str) -> Vec<u8> {
        self.files.borrow()[path].clone()
    }

    fn source(&self, name: &str, bytes: &[u8]) -> DesiredStorageObject {
        let relative = format!("photos/download/{name}.jpg");
        self.write(&relative, bytes);
        DesiredStorageObject::new(
            ObjectKey::new(&format!("originals/{name}.jpg")).unwrap(),
            PublicationPath::new(&relative).unwrap(),
            sha256_bytes(bytes),
            bytes.len() as u64,
            Some("image/jpeg".to_owned()),
        )
        .unwrap()
    }

    fn durable_ledger(&self) -> IntegrationLedger {
        stored(&self.ledger_path)
    }

    fn store(&self, ledger: &IntegrationLedger) {
        persist(&self.ledger_path, ledger).unwrap();
    }

    fn is_stored(&self) -> bool {
        self.ledger_path.borrow().is_some()
    }
}

fn bundle_of(files: &[(&str, &[u8])]) -> ApplicationBundle {
    ApplicationBundle::from_files(
        files
            .iter()
            .map(|(path, content)| (path.to_string(), content.to_vec()))
            .collect(),
    )
    .unwrap()
}

fn configuration() -> ProjectPublicationConfig {
    ProjectPublicationConfig {
        project_id: "project".to_owned(),
        bundle_directory: "site".to_owned(),
        repository_provider: "repository".to_owned(),
        repository: "owner/project".to_owned(),
        branch: Some("main".to_owned()),
        preview_prefix: Some("previews".to_owned()),
        preview_public_base_url: PublicBaseUrl::parse("https://cdn.example.com/previews").unwrap(),
        high_resolution_account_id: "account".to_owned(),
        high_resolution_bucket: Some("bucket".to_owned()),
        high_resolution_prefix: Some("originals".to_owned()),
        high_resolution_public_base_url: PublicBaseUrl::parse(
            "https://downloads.example.com/originals",
        )
        .unwrap(),
        hosting: HostingPublicationConfig::new("hosting-project".to_owned(), None).unwrap(),
    }
}

fn desired(bundle: &ApplicationBundle) -> DesiredPublication {
    desired_gen(bundle, "g-000001")
}

fn desired_gen(bundle: &ApplicationBundle, generation: &str) -> DesiredPublication {
    DesiredPublication::new(
        &configuration(),
        LocalPublication::new(
            generation.to_owned(),
            digest(&format!("state-{generation}")),
            digest(&format!("manifest-{generation}")),
        )
        .unwrap(),
        bundle,
    )
    .unwrap()
}

fn ledger_for(desired: &DesiredPublication) -> IntegrationLedger {
    IntegrationLedger::new(
        desired.configuration_fingerprint.clone(),
        desired.local.generation.clone(),
        desired.local.state_hash.clone(),
        desired.local.manifest_hash.clone(),
    )
    .unwrap()
}

fn empty_plan() -> IntegrationPlan {
    IntegrationPlan {
        operations: Vec::new(),
        reconciliation_requirements: Vec::new(),
    }
}

fn run_storage(
    fixture: &Fixture,
    plan: &IntegrationPlan,
    provider: &mut FakeStorage,
    ledger: IntegrationLedger,
) -> (
    IntegrationLedger,
    Result<StorageExecutionReport, StorageExecutionError>,
) {
    let mut executor = match StorageExecutor::new(plan, ledger.duplicate()) {
        Ok(executor) => executor,
        Err(error) => return (ledger, Err(error)),
    };
    loop {
        let event = match executor.action() {
            StorageAction::Examine(path) => {
                StorageEvent::Examined(fixture.observe(path.as_str()))
            }
            StorageAction::Persist(current) => match persist(&fixture.ledger_path, current) {
                Ok(()) => StorageEvent::Persisted,
                Err((durable, message)) => StorageEvent::NotPersisted { durable, message },
            },
            StorageAction::Put(object) => StorageEvent::Stored(provider.put(
                &object.key,
                fixture.content(object.source_path.as_str()),
                object.content_type.as_deref(),
            )),
            StorageAction::Delete(key) => StorageEvent::Deleted(provider.delete(key)),
            StorageAction::Finished => break,
        };
        executor = executor.handle(event);
    }
    executor.finish()
}

fn run_repository(
    fixture: &Fixture,
    plan: &IntegrationPlan,
    bundle: &ApplicationBundle,
    provider: &mut FakeRepository,
    ledger: IntegrationLedger,
) -> (
    IntegrationLedger,
    Result<RepositoryExecutionReport, RepositoryExecutionError>,
) {
    let mut executor = match RepositoryExecutor::new(plan, bundle, ledger.duplicate()) {
        Ok(executor) => executor,
        Err(error) => return (ledger, Err(error)),
    };
    loop {
        let event = match executor.action() {
            RepositoryAction::Examine(path) => {
                RepositoryEvent::Examined(fixture.observe(path.as_str()))
            }
            RepositoryAction::Ensure => RepositoryEvent::Ensured(provider.ensure_repository()),
            RepositoryAction::Commit(message) => {
                RepositoryEvent::Committed(provider.commit(&message))
            }
            RepositoryAction::Persist(current) => match persist(&fixture.ledger_path, current) {
                Ok(()) => RepositoryEvent::Persisted,
                Err((durable, message)) => RepositoryEvent::NotPersisted { durable, message },
            },
            RepositoryAction::Write(file) => {
                let bytes = match &file.source {
                    RepositoryFileSource::BundleMember => {
                        bundle_content(bundle, &file.path).unwrap().to_vec()
                    }
                    RepositoryFileSource::PublicationFile { source_path } => {
                        fixture.content(source_path.as_str())
                    }
                };
                RepositoryEvent::Written(provider.write(&file.path, bytes))
            }
            RepositoryAction::Delete(path) => RepositoryEvent::Deleted(provider.delete(path)),
            RepositoryAction::Finished => break,
        };
        executor = executor.handle(event);
    }
    executor.finish()
}

fn run_hosting(
    fixture: &Fixture,
    plan: &IntegrationPlan,
    desired: &DesiredPublication,
    bundle: &ApplicationBundle,
    publisher: &mut FakeHosting,
    ledger: IntegrationLedger,
) -> (
    IntegrationLedger,
    Result<HostingExecutionReport, HostingExecutionError>,
) {
    let configuration =
        HostingPublicationConfig::new("hosting-project".to_owned(), None).unwrap();
    let mut executor = match HostingExecutor::new(plan, desired, bundle, ledger.duplicate()) {
        Ok(executor) => executor,
        Err(error) => return (ledger, Err(error)),
    };
    loop {
        let event = match executor.action() {
            HostingAction::Persist(current) => match persist(&fixture.ledger_path, current) {
                Ok(()) => HostingEvent::Persisted,
                Err((durable, message)) => HostingEvent::NotPersisted { durable, message },
            },
            HostingAction::Publish => {
                HostingEvent::Published(publisher.publish(bundle, &configuration))
            }
            HostingAction::Finished => break,
        };
        executor = executor.handle(event);
    }
    executor.finish()
}

/// Performs what the coordinator asks for until it is done.
fn execute(
    fixture: &Fixture,
    plan: &IntegrationPlan,
    desired: &DesiredPublication,
    bundle: &ApplicationBundle,
    providers: &mut Providers,
    ledger: &mut IntegrationLedger,
) -> Result<PublicationReport, CoordinationError> {
    let mut coordinator = Coordinator::new(plan, desired, ledger.duplicate());
    loop {
        let event = match coordinator.action() {
            CoordinationAction::Persist(current) => match persist(&fixture.ledger_path, current) {
                Ok(()) => CoordinationEvent::Persisted,
                Err((durable, message)) => CoordinationEvent::NotPersisted { durable, message },
            },
            CoordinationAction::Storage(current) => {
                let (ledger, result) =
                    run_storage(fixture, plan, &mut providers.storage, current.duplicate());
                CoordinationEvent::StorageEnded { ledger, result }
            }
            CoordinationAction::Repository(current) => {
                let (ledger, result) = run_repository(
                    fixture,
                    plan,
                    bundle,
                    &mut providers.repository,
                    current.duplicate(),
                );
                CoordinationEvent::RepositoryEnded { ledger, result }
            }
            CoordinationAction::Hosting(current) => {
                let (ledger, result) = run_hosting(
                    fixture,
                    plan,
                    desired,
                    bundle,
                    &mut providers.hosting,
                    current.duplicate(),
                );
                CoordinationEvent::HostingEnded { ledger, result }
            }
            CoordinationAction::Finished => break,
        };
        coordinator = coordinator.handle(event);
    }
    let (after, result) = coordinator.finish();
    *ledger = after;
    result
}

/// A plan exercising all three families in one run.
fn full_plan(object: &DesiredStorageObject, bundle_fingerprint: &str) -> IntegrationPlan {
    IntegrationPlan {
        operations: vec![
            IntegrationOperation::PutStorage(object.duplicate()),
            IntegrationOperation::WriteRepository(
                DesiredRepositoryFile::new(
                    RepositoryPath::new("index.html").unwrap(),
                    sha256_bytes(b"index"),
                    5,
                    RepositoryFileSource::BundleMember,
                )
                .unwrap(),
            ),
            IntegrationOperation::PublishHosting {
                bundle_fingerprint: bundle_fingerprint.to_owned(),
            },
        ],
        reconciliation_requirements: Vec::new(),
    }
}

fn ready_hosting() -> DeploymentInfo {
    DeploymentInfo {
        id: "dpl-1".to_owned(),
        url: "project.vercel.app".to_owned(),
    }
}

/// A journal-committed publication: sources with byte-exact download assets
/// and distinct re-encoded preview bytes.
struct Publication {
    output: CommittedOutput,
    downloads: Vec<String>,
    previews: Vec<String>,
}

impl Publication {
    fn manifest(&self, configuration: &ProjectPublicationConfig) -> PublicGalleryManifest {
        PublicGalleryManifest::derive_from_committed_output(
            configuration,
            &self.output.journal,
            &Some(self.output.gallery.bytes().clone()),
            &Some(self.output.state.clone()),
        )
        .unwrap()
    }

    fn desired(
        &self,
        configuration: &ProjectPublicationConfig,
        fixture: &Fixture,
        bundle: &ApplicationBundle,
    ) -> DesiredPublication {
        let observe = |paths: &[String]| paths.iter().map(|path| fixture.observe(path)).collect();
        DesiredPublication::from_committed_output(
            configuration,
            &self.output,
            &observe(&self.downloads),
            &observe(&self.previews),
            bundle,
        )
        .unwrap()
    }
}

fn commit_publication(
    fixture: &Fixture,
    generation: &str,
    sources: &[(&str, &[u8])],
) -> Publication {
    let preview_url = |sha: &str| format!("photos/preview/{sha}.jpg");
    let download_url = |sha: &str| format!("photos/download/{sha}.jpg");
    let photos: Vec<String> = sources
        .iter()
        .enumerate()
        .map(|(index, (sha, _))| {
            format!(
                r#"{{"id": "photo-{0}", "filename": "{index}.jpg", "sequence": {0},
                    "preview": {{"url": "{1}", "width": 1, "height": 1}},
                    "download": {{"url": "{2}", "width": 1, "height": 1}}}}"#,
                index + 1,
                preview_url(sha),
                download_url(sha)
            )
        })
        .collect();
    let gallery = format!(
        r#"{{"schemaVersion": 1, "gallery": {{"id": "gallery-local", "title": "Title"}},
            "photos": [{}]}}"#,
        photos.join(", ")
    )
    .into_bytes();
    let state = format!("state of {generation}").into_bytes();
    for (sha, bytes) in sources {
        fixture.write(&download_url(sha), bytes);
        fixture.write(
            &preview_url(sha),
            format!("committed preview bytes {sha}").as_bytes(),
        );
    }
    Publication {
        output: CommittedOutput {
            journal: JournalRecord::new(
                1,
                generation.to_owned(),
                None,
                JournalPhase::Committed,
                sha256_bytes(&gallery),
                sha256_bytes(&state),
                ".publisher/staging/g-x".to_owned(),
                ".publisher/backups/none".to_owned(),
                None,
                None,
            ),
            gallery: GalleryFile::new(gallery),
            state,
            sources: Some(
                sources
                    .iter()
                    .enumerate()
                    .map(|(index, (sha, bytes))| SourcePhoto {
                        relative_path: format!("{index}.jpg"),
                        bytes: bytes.len() as u64,
                        sha256: (*sha).to_owned(),
                    })
                    .collect(),
            ),
        },
        downloads: sources.iter().map(|(sha, _)| download_url(sha)).collect(),
        previews: sources.iter().map(|(sha, _)| preview_url(sha)).collect(),
    }
}

#[test]
fn empty_plan_with_matching_header_calls_nothing() {
    let fixture = Fixture::new();
    let log: SharedLog = Rc::new(RefCell::new(Vec::new()));
    let bundle = bundle_of(&[("index.html", b"index")]);
    let desired = desired(&bundle);
    let mut ledger = ledger_for(&desired);
    fixture.store(&ledger);
    let before = ledger.clone();
    let mut providers = Providers::new(&log);

    let report = execute(
        &fixture,
        &empty_plan(),
        &desired,
        &bundle,
        &mut providers,
        &mut ledger,
    )
    .unwrap();

    assert_eq!(report, PublicationReport::default());
    assert_eq!(*log.borrow(), Vec::<&'static str>::new());
    assert_eq!(providers.repository.commit_count, 0);
    assert!(providers.storage.objects.is_empty());
    assert_eq!(ledger, before);
    assert_eq!(fixture.durable_ledger(), before);
}

#[test]
fn empty_plan_with_divergent_header_adopts_without_executors() {
    let fixture = Fixture::new();
    let log: SharedLog = Rc::new(RefCell::new(Vec::new()));
    let bundle = bundle_of(&[("index.html", b"index")]);
    let old_desired = desired(&bundle);
    let mut ledger = ledger_for(&old_desired); // header: g-000001
    let new_desired = desired_gen(&bundle, "g-000002");
    let mut providers = Providers::new(&log);

    let report = execute(
        &fixture,
        &empty_plan(),
        &new_desired,
        &bundle,
        &mut providers,
        &mut ledger,
    )
    .unwrap();

    assert_eq!(report, PublicationReport::default());
    assert_eq!(*log.borrow(), Vec::<&'static str>::new());
    assert_eq!(providers.repository.commit_count, 0);
    // Only the header moved to the new publication.
    assert_eq!(ledger.local_generation, "g-000002");
    assert_eq!(ledger.state_hash, new_desired.local.state_hash);
    assert_eq!(ledger.manifest_hash, new_desired.local.manifest_hash);
    assert_eq!(
        ledger.configuration_fingerprint,
        new_desired.configuration_fingerprint
    );
    assert_eq!(fixture.durable_ledger(), ledger);
}

#[test]
fn adoption_preserves_all_inventories_and_ledger_integrity() {
    let fixture = Fixture::new();
    let log: SharedLog = Rc::new(RefCell::new(Vec::new()));
    let bundle = bundle_of(&[("index.html", b"index")]);
    let old_desired = desired(&bundle);
    let mut ledger = ledger_for(&old_desired);
    let key = ObjectKey::new("originals/a.jpg").unwrap();
    ledger
        .record_r2_object(
            &key,
            &StorageObject {
                key: key.duplicate(),
                size_bytes: 3,
                sha256: digest("jpg"),
                content_type: Some("image/jpeg".to_owned()),
            },
            OperationState::Confirmed,
        )
        .unwrap();
    ledger
        .record_github_file(
            &RepositoryPath::new("index.html").unwrap(),
            sha256_bytes(b"index"),
            "commit-01".to_owned(),
            OperationState::Confirmed,
        )
        .unwrap();
    ledger
        .record_vercel(
            old_desired.bundle_fingerprint.clone(),
            OperationState::Confirmed,
            Some("dpl-1".to_owned()),
            Some("project.vercel.app".to_owned()),
        )
        .unwrap();
    fixture.store(&ledger);
    let before = ledger.clone();

    let new_desired = desired_gen(&bundle, "g-000002");
    let mut providers = Providers::new(&log);
    execute(
        &fixture,
        &empty_plan(),
        &new_desired,
        &bundle,
        &mut providers,
        &mut ledger,
    )
    .unwrap();

    // Inventories and hosting entry are untouched by the adoption.
    assert_eq!(ledger.r2_inventory, before.r2_inventory);
    assert_eq!(ledger.github_inventory, before.github_inventory);
    assert_eq!(ledger.vercel, before.vercel);
    // Header moved; schema and integrity hold across writes and reloads.
    assert_eq!(ledger.local_generation, "g-000002");
    assert_eq!(ledger.schema_version, 1);
    assert_eq!(*log.borrow(), Vec::<&'static str>::new());
    let reloaded = fixture.durable_ledger();
    assert_eq!(reloaded, ledger);
    assert_eq!(reloaded.schema_version, 1);
    assert_eq!(reloaded.validate(), Ok(()));
}

#[test]
fn reconciliation_requirements_block_everything_without_adopting() {
    let fixture = Fixture::new();
    let log: SharedLog = Rc::new(RefCell::new(Vec::new()));
    let bundle = bundle_of(&[("index.html", b"index")]);
    let object = fixture.source("a", b"bytes-a");
    let old_desired = desired(&bundle);
    let mut ledger = ledger_for(&old_desired); // header stays g-000001
    let new_desired = desired_gen(&bundle, "g-000002");
    let mut providers = Providers::new(&log);
    let blocked = IntegrationPlan {
        operations: vec![
            IntegrationOperation::PutStorage(object),
            IntegrationOperation::WriteRepository(
                DesiredRepositoryFile::new(
                    RepositoryPath::new("index.html").unwrap(),
                    sha256_bytes(b"index"),
                    5,
                    RepositoryFileSource::BundleMember,
                )
                .unwrap(),
            ),
            IntegrationOperation::PublishHosting {
                bundle_fingerprint: new_desired.bundle_fingerprint.clone(),
            },
        ],
        reconciliation_requirements: vec![ReconciliationRequirement::ConfigurationChanged],
    };

    let error = execute(
        &fixture,
        &blocked,
        &new_desired,
        &bundle,
        &mut providers,
        &mut ledger,
    )
    .unwrap_err();

    assert!(matches!(error, CoordinationError::Blocked(_)));
    assert_eq!(*log.borrow(), Vec::<&'static str>::new());
    assert_eq!(providers.repository.commit_count, 0);
    // The header is not adopted and nothing is persisted.
    assert_eq!(ledger.local_generation, "g-000001");
    assert!(!fixture.is_stored());
}

#[test]
fn adoption_persistence_failure_blocks_the_run() {
    let log: SharedLog = Rc::new(RefCell::new(Vec::new()));
    let bundle = bundle_of(&[("index.html", b"index")]);
    let old_desired = desired(&bundle);
    let ledger = ledger_for(&old_desired);
    let new_desired = desired_gen(&bundle, "g-000002");
    let mut providers = Providers::new(&log);
    providers.hosting.results.push_back(Ok(DeploymentInfo {
        id: "dpl-1".to_owned(),
        url: "project.vercel.app".to_owned(),
    }));

    let coordinator = Coordinator::new(&empty_plan(), &new_desired, ledger);
    assert!(matches!(
        coordinator.action(),
        CoordinationAction::Persist(_)
    ));
    // The write fails and no durable ledger can be read.
    let coordinator = coordinator.handle(CoordinationEvent::NotPersisted {
        durable: None,
        message: "not a directory".to_owned(),
    });
    assert_eq!(coordinator.action(), CoordinationAction::Finished);
    let (_, result) = coordinator.finish();

    assert!(matches!(result, Err(CoordinationError::Ledger(_))));
    assert_eq!(*log.borrow(), Vec::<&'static str>::new());
    assert_eq!(providers.repository.commit_count, 0);
}

#[test]
fn previous_pending_blocks_adoption_and_execution() {
    let fixture = Fixture::new();
    let log: SharedLog = Rc::new(RefCell::new(Vec::new()));
    let bundle = bundle_of(&[("index.html", b"index")]);
    let object = fixture.source("a", b"bytes-a");
    let old_desired = desired(&bundle);
    let mut ledger = ledger_for(&old_desired);
    ledger
        .record_r2_object(
            &object.key,
            &StorageObject {
                key: object.key.duplicate(),
                size_bytes: object.size_bytes,
                sha256: object.sha256.clone(),
                content_type: object.content_type.clone(),
            },
            OperationState::Pending,
        )
        .unwrap();
    fixture.store(&ledger);
    let before = ledger.clone();
    let new_desired = desired_gen(&bundle, "g-000002");
    let mut providers = Providers::new(&log);
    // Adversarial: a hand-built plan pretending nothing is pending.
    let silent_plan = IntegrationPlan {
        operations: vec![IntegrationOperation::PutStorage(object)],
        reconciliation_requirements: Vec::new(),
    };

    let error = execute(
        &fixture,
        &silent_plan,
        &new_desired,
        &bundle,
        &mut providers,
        &mut ledger,
    )
    .unwrap_err();

    assert!(matches!(error, CoordinationError::UnsafeLedger(_)));
    // No adoption, no persist, no remote call; Pending preserved.
    assert_eq!(ledger, before);
    assert_eq!(fixture.durable_ledger(), before);
    assert_eq!(*log.borrow(), Vec::<&'static str>::new());
    assert!(providers.storage.objects.is_empty());
}

#[test]
fn previous_unknown_blocks_adoption_and_execution() {
    let fixture = Fixture::new();
    let log: SharedLog = Rc::new(RefCell::new(Vec::new()));
    let bundle = bundle_of(&[("index.html", b"index")]);
    let old_desired = desired(&bundle);
    let mut ledger = ledger_for(&old_desired);
    ledger
        .record_vercel(
            old_desired.bundle_fingerprint.clone(),
            OperationState::Unknown,
            None,
            None,
        )
        .unwrap();
    fixture.store(&ledger);
    let before = ledger.clone();
    let new_desired = desired_gen(&bundle, "g-000002");
    let mut providers = Providers::new(&log);
    let silent_plan = IntegrationPlan {
        operations: vec![IntegrationOperation::PublishHosting {
            bundle_fingerprint: new_desired.bundle_fingerprint.clone(),
        }],
        reconciliation_requirements: Vec::new(),
    };

    let error = execute(
        &fixture,
        &silent_plan,
        &new_desired,
        &bundle,
        &mut providers,
        &mut ledger,
    )
    .unwrap_err();

    assert!(matches!(error, CoordinationError::UnsafeLedger(_)));
    assert_eq!(ledger, before);
    assert_eq!(fixture.durable_ledger(), before);
    assert_eq!(*log.borrow(), Vec::<&'static str>::new());
}

#[test]
fn configuration_mismatch_is_a_provenance_error() {
    let fixture = Fixture::new();
    let log: SharedLog = Rc::new(RefCell::new(Vec::new()));
    let bundle = bundle_of(&[("index.html", b"index")]);
    let mut ledger = ledger_for(&desired(&bundle));
    ledger.configuration_fingerprint = digest("other-configuration");
    let desired = desired(&bundle);
    let mut providers = Providers::new(&log);

    let error = execute(
        &fixture,
        &empty_plan(),
        &desired,
        &bundle,
        &mut providers,
        &mut ledger,
    )
    .unwrap_err();

    assert!(matches!(error, CoordinationError::ProvenanceMismatch(_)));
    assert_eq!(*log.borrow(), Vec::<&'static str>::new());
    assert!(!fixture.is_stored());
}

#[test]
fn same_generation_with_different_hashes_is_a_provenance_error() {
    let fixture = Fixture::new();
    let log: SharedLog = Rc::new(RefCell::new(Vec::new()));
    let bundle = bundle_of(&[("index.html", b"index")]);
    let mut ledger = ledger_for(&desired(&bundle));
    ledger.state_hash = digest("tampered-state");
    let desired = desired(&bundle);
    let mut providers = Providers::new(&log);

    let error = execute(
        &fixture,
        &empty_plan(),
        &desired,
        &bundle,
        &mut providers,
        &mut ledger,
    )
    .unwrap_err();

    assert!(matches!(error, CoordinationError::ProvenanceMismatch(_)));
    assert_eq!(*log.borrow(), Vec::<&'static str>::new());
    assert!(!fixture.is_stored());
}

#[test]
fn full_success_runs_storage_then_repository_then_hosting() {
    let fixture = Fixture::new();
    let log: SharedLog = Rc::new(RefCell::new(Vec::new()));
    let bundle = bundle_of(&[("index.html", b"index")]);
    let object = fixture.source("a", b"bytes-a");
    let desired = desired(&bundle);
    let mut ledger = ledger_for(&desired);
    let mut providers = Providers::new(&log);
    providers.hosting.results.push_back(Ok(ready_hosting()));

    let report = execute(
        &fixture,
        &full_plan(&object, &desired.bundle_fingerprint),
        &desired,
        &bundle,
        &mut providers,
        &mut ledger,
    )
    .unwrap();

    // Structural order proof: one storage call, one repository execution
    // (single commit), one publish — in exactly this order, once each.
    assert_eq!(*log.borrow(), vec!["storage", "repository", "hosting"]);
    assert_eq!(providers.repository.commit_count, 1);
    assert_eq!(providers.hosting.results.len(), 0);
    assert!(providers.storage.objects.contains_key(object.key.as_str()));
    assert!(report.storage.is_some());
    assert!(report.repository.is_some());
    let hosting = report.hosting.unwrap();
    assert_eq!(
        hosting.deployment.as_ref().map(|d| d.id.as_str()),
        Some("dpl-1")
    );

    // Every family is Confirmed and durably persisted; nothing Pending or
    // Unknown remains.
    let storage_entry = ledger.r2_inventory.get(object.key.as_str()).unwrap();
    assert_eq!(storage_entry.status, OperationState::Confirmed);
    assert_eq!(storage_entry.sha256, object.sha256);
    let repo_entry = ledger.github_inventory.get("index.html").unwrap();
    assert_eq!(repo_entry.status, OperationState::Confirmed);
    assert_eq!(repo_entry.revision, "commit-01");
    let hosting_entry = ledger.vercel.as_ref().unwrap();
    assert_eq!(hosting_entry.status, OperationState::Confirmed);
    assert_eq!(hosting_entry.deployment_id.as_deref(), Some("dpl-1"));
    assert_eq!(hosting_entry.url.as_deref(), Some("project.vercel.app"));
    assert_eq!(fixture.durable_ledger(), ledger);
}

#[test]
fn storage_failure_stops_before_repository_and_hosting() {
    let fixture = Fixture::new();
    let log: SharedLog = Rc::new(RefCell::new(Vec::new()));
    let bundle = bundle_of(&[("index.html", b"index")]);
    let object = fixture.source("a", b"bytes-a");
    let desired = desired(&bundle);
    let mut ledger = ledger_for(&desired);
    let mut providers = Providers::new(&log);
    providers
        .storage
        .put_scripts
        .push_back(Err(ProviderError::PermissionDenied));

    let error = execute(
        &fixture,
        &full_plan(&object, &desired.bundle_fingerprint),
        &desired,
        &bundle,
        &mut providers,
        &mut ledger,
    )
    .unwrap_err();

    // The original classification is preserved, not reclassified.
    assert!(matches!(
        error,
        CoordinationError::Storage(StorageExecutionError::Rejected { .. })
    ));
    assert_eq!(*log.borrow(), vec!["storage"]);
    // Later phases never ran: no commit, no publish.
    assert_eq!(providers.repository.commit_count, 0);
    assert_eq!(providers.hosting.results.len(), 0);
    // The deterministic rejection was rolled back: nothing is pending.
    assert!(ledger.r2_inventory.is_empty());
    assert_eq!(fixture.durable_ledger(), ledger);
}

#[test]
fn storage_ambiguity_stops_before_repository_and_hosting() {
    let fixture = Fixture::new();
    let log: SharedLog = Rc::new(RefCell::new(Vec::new()));
    let bundle = bundle_of(&[("index.html", b"index")]);
    let object = fixture.source("a", b"bytes-a");
    let desired = desired(&bundle);
    let mut ledger = ledger_for(&desired);
    let mut providers = Providers::new(&log);
    providers
        .storage
        .put_scripts
        .push_back(Err(ProviderError::Network));

    let error = execute(
        &fixture,
        &full_plan(&object, &desired.bundle_fingerprint),
        &desired,
        &bundle,
        &mut providers,
        &mut ledger,
    )
    .unwrap_err();

    assert!(matches!(
        error,
        CoordinationError::Storage(StorageExecutionError::Ambiguous { .. })
    ));
    assert_eq!(*log.borrow(), vec!["storage"]);
    assert_eq!(providers.repository.commit_count, 0);
    assert_eq!(providers.hosting.results.len(), 0);
    assert_eq!(
        ledger.r2_inventory.get(object.key.as_str()).unwrap().status,
        OperationState::Unknown
    );
    assert_eq!(fixture.durable_ledger(), ledger);
}

#[test]
fn repository_failure_stops_before_hosting_without_compensating_storage() {
    let fixture = Fixture::new();
    let log: SharedLog = Rc::new(RefCell::new(Vec::new()));
    let bundle = bundle_of(&[("index.html", b"index")]);
    let object = fixture.source("a", b"bytes-a");
    let desired = desired(&bundle);
    let mut ledger = ledger_for(&desired);
    let mut providers = Providers::new(&log);
    providers
        .repository
        .commit_scripts
        .push_back(Err(ProviderError::PermissionDenied));

    let error = execute(
        &fixture,
        &full_plan(&object, &desired.bundle_fingerprint),
        &desired,
        &bundle,
        &mut providers,
        &mut ledger,
    )
    .unwrap_err();

    assert!(matches!(
        error,
        CoordinationError::Repository(RepositoryExecutionError::Rejected { .. })
    ));
    assert_eq!(*log.borrow(), vec!["storage", "repository"]);
    assert_eq!(providers.hosting.results.len(), 0);
    // Storage stays Confirmed: earlier phases are never compensated.
    assert_eq!(
        ledger.r2_inventory.get(object.key.as_str()).unwrap().status,
        OperationState::Confirmed
    );
    // Repository rolled back to its previous (empty) state.
    assert!(!ledger.github_inventory.contains_key("index.html"));
    assert_eq!(fixture.durable_ledger(), ledger);
}

#[test]
fn repository_ambiguity_stops_before_hosting() {
    let fixture = Fixture::new();
    let log: SharedLog = Rc::new(RefCell::new(Vec::new()));
    let bundle = bundle_of(&[("index.html", b"index")]);
    let object = fixture.source("a", b"bytes-a");
    let desired = desired(&bundle);
    let mut ledger = ledger_for(&desired);
    let mut providers = Providers::new(&log);
    providers
        .repository
        .commit_scripts
        .push_back(Err(ProviderError::Network));

    let error = execute(
        &fixture,
        &full_plan(&object, &desired.bundle_fingerprint),
        &desired,
        &bundle,
        &mut providers,
        &mut ledger,
    )
    .unwrap_err();

    assert!(matches!(
        error,
        CoordinationError::Repository(RepositoryExecutionError::Ambiguous { .. })
    ));
    assert_eq!(*log.borrow(), vec!["storage", "repository"]);
    assert_eq!(providers.hosting.results.len(), 0);
    assert_eq!(
        ledger.github_inventory.get("index.html").unwrap().status,
        OperationState::Unknown
    );
    assert_eq!(fixture.durable_ledger(), ledger);
}

#[test]
fn hosting_failure_terminates_without_compensation() {
    let fixture = Fixture::new();
    let log: SharedLog = Rc::new(RefCell::new(Vec::new()));
    let bundle = bundle_of(&[("index.html", b"index")]);
    let object = fixture.source("a", b"bytes-a");
    let desired = desired(&bundle);
    let mut ledger = ledger_for(&desired);
    let mut providers = Providers::new(&log);
    providers
        .hosting
        .results
        .push_back(Err(ProviderError::PermissionDenied));

    let error = execute(
        &fixture,
        &full_plan(&object, &desired.bundle_fingerprint),
        &desired,
        &bundle,
        &mut providers,
        &mut ledger,
    )
    .unwrap_err();

    assert!(matches!(
        error,
        CoordinationError::Hosting(HostingExecutionError::Rejected { .. })
    ));
    assert_eq!(*log.borrow(), vec!["storage", "repository", "hosting"]);
    // Earlier phases remain Confirmed; nothing is rolled back remotely.
    assert_eq!(
        ledger.r2_inventory.get(object.key.as_str()).unwrap().status,
        OperationState::Confirmed
    );
    assert_eq!(
        ledger.github_inventory.get("index.html").unwrap().status,
        OperationState::Confirmed
    );
    // The rejected publish leaves no hosting entry at all.
    assert!(ledger.vercel.is_none());
    assert_eq!(fixture.durable_ledger(), ledger);
}

#[test]
fn hosting_ambiguity_terminates_without_compensation() {
    let fixture = Fixture::new();
    let log: SharedLog = Rc::new(RefCell::new(Vec::new()));
    let bundle = bundle_of(&[("index.html", b"index")]);
    let object = fixture.source("a", b"bytes-a");
    let desired = desired(&bundle);
    let mut ledger = ledger_for(&desired);
    let mut providers = Providers::new(&log);
    providers
        .hosting
        .results
        .push_back(Err(ProviderError::Network));

    let error = execute(
        &fixture,
        &full_plan(&object, &desired.bundle_fingerprint),
        &desired,
        &bundle,
        &mut providers,
        &mut ledger,
    )
    .unwrap_err();

    assert!(matches!(
        error,
        CoordinationError::Hosting(HostingExecutionError::Ambiguous { .. })
    ));
    assert_eq!(
        ledger.vercel.as_ref().unwrap().status,
        OperationState::Unknown
    );
    assert_eq!(
        ledger.r2_inventory.get(object.key.as_str()).unwrap().status,
        OperationState::Confirmed
    );
    assert_eq!(
        ledger.github_inventory.get("index.html").unwrap().status,
        OperationState::Confirmed
    );
    assert_eq!(fixture.durable_ledger(), ledger);
}

#[test]
fn only_storage_runs() {
    let fixture = Fixture::new();
    let log: SharedLog = Rc::new(RefCell::new(Vec::new()));
    let bundle = bundle_of(&[("index.html", b"index")]);
    let object = fixture.source("a", b"bytes-a");
    let desired = desired(&bundle);
    let mut ledger = ledger_for(&desired);
    let plan = IntegrationPlan {
        operations: vec![IntegrationOperation::PutStorage(object.duplicate())],
        reconciliation_requirements: Vec::new(),
    };
    let mut providers = Providers::new(&log);

    let report = execute(
        &fixture,
        &plan,
        &desired,
        &bundle,
        &mut providers,
        &mut ledger,
    )
    .unwrap();

    assert!(*log.borrow() == vec!["storage"]);
    assert!(report.storage.is_some());
    assert!(report.repository.is_none());
    assert!(report.hosting.is_none());
    assert_eq!(providers.repository.commit_count, 0);
}

#[test]
fn only_repository_runs() {
    let fixture = Fixture::new();
    let log: SharedLog = Rc::new(RefCell::new(Vec::new()));
    let bundle = bundle_of(&[("index.html", b"index")]);
    let desired = desired(&bundle);
    let mut ledger = ledger_for(&desired);
    let plan = IntegrationPlan {
        operations: vec![IntegrationOperation::WriteRepository(
            DesiredRepositoryFile::new(
                RepositoryPath::new("index.html").unwrap(),
                sha256_bytes(b"index"),
                5,
                RepositoryFileSource::BundleMember,
            )
            .unwrap(),
        )],
        reconciliation_requirements: Vec::new(),
    };
    let mut providers = Providers::new(&log);

    let report = execute(
        &fixture,
        &plan,
        &desired,
        &bundle,
        &mut providers,
        &mut ledger,
    )
    .unwrap();

    assert_eq!(*log.borrow(), vec!["repository"]);
    assert!(report.storage.is_none());
    assert!(report.repository.is_some());
    assert!(report.hosting.is_none());
    assert!(providers.storage.objects.is_empty());
    assert_eq!(providers.repository.commit_count, 1);
}

#[test]
fn only_hosting_runs() {
    let fixture = Fixture::new();
    let log: SharedLog = Rc::new(RefCell::new(Vec::new()));
    let bundle = bundle_of(&[("index.html", b"index")]);
    let desired = desired(&bundle);
    let mut ledger = ledger_for(&desired);
    let plan = IntegrationPlan {
        operations: vec![IntegrationOperation::PublishHosting {
            bundle_fingerprint: desired.bundle_fingerprint.clone(),
        }],
        reconciliation_requirements: Vec::new(),
    };
    let mut providers = Providers::new(&log);
    providers.hosting.results.push_back(Ok(ready_hosting()));

    let report = execute(
        &fixture,
        &plan,
        &desired,
        &bundle,
        &mut providers,
        &mut ledger,
    )
    .unwrap();

    assert_eq!(*log.borrow(), vec!["hosting"]);
    assert!(report.storage.is_none());
    assert!(report.repository.is_none());
    assert!(report.hosting.is_some());
    assert!(providers.storage.objects.is_empty());
    assert_eq!(providers.repository.commit_count, 0);
}

#[test]
fn storage_and_hosting_skip_repository() {
    let fixture = Fixture::new();
    let log: SharedLog = Rc::new(RefCell::new(Vec::new()));
    let bundle = bundle_of(&[("index.html", b"index")]);
    let object = fixture.source("a", b"bytes-a");
    let desired = desired(&bundle);
    let mut ledger = ledger_for(&desired);
    let plan = IntegrationPlan {
        operations: vec![
            IntegrationOperation::PutStorage(object),
            IntegrationOperation::PublishHosting {
                bundle_fingerprint: desired.bundle_fingerprint.clone(),
            },
        ],
        reconciliation_requirements: Vec::new(),
    };
    let mut providers = Providers::new(&log);
    providers.hosting.results.push_back(Ok(ready_hosting()));

    execute(
        &fixture,
        &plan,
        &desired,
        &bundle,
        &mut providers,
        &mut ledger,
    )
    .unwrap();

    assert_eq!(*log.borrow(), vec!["storage", "hosting"]);
    assert_eq!(providers.repository.commit_count, 0);
}

#[test]
fn repository_and_hosting_skip_storage() {
    let fixture = Fixture::new();
    let log: SharedLog = Rc::new(RefCell::new(Vec::new()));
    let bundle = bundle_of(&[("index.html", b"index")]);
    let desired = desired(&bundle);
    let mut ledger = ledger_for(&desired);
    let plan = IntegrationPlan {
        operations: vec![
            IntegrationOperation::WriteRepository(
                DesiredRepositoryFile::new(
                    RepositoryPath::new("index.html").unwrap(),
                    sha256_bytes(b"index"),
                    5,
                    RepositoryFileSource::BundleMember,
                )
                .unwrap(),
            ),
            IntegrationOperation::PublishHosting {
                bundle_fingerprint: desired.bundle_fingerprint.clone(),
            },
        ],
        reconciliation_requirements: Vec::new(),
    };
    let mut providers = Providers::new(&log);
    providers.hosting.results.push_back(Ok(ready_hosting()));

    execute(
        &fixture,
        &plan,
        &desired,
        &bundle,
        &mut providers,
        &mut ledger,
    )
    .unwrap();

    assert_eq!(*log.borrow(), vec!["repository", "hosting"]);
    assert!(providers.storage.objects.is_empty());
}

#[test]
fn end_to_end_g1_to_g2_executes_previews_and_stays_idempotent() {
    let log: SharedLog = Rc::new(RefCell::new(Vec::new()));
    let mut providers = Providers::new(&log);
    let template = bundle_of(&[("index.html", b"index")]);
    let config = configuration();
    providers.hosting.results.push_back(Ok(DeploymentInfo {
        id: "dpl-1".to_owned(),
        url: "g1.vercel.app".to_owned(),
    }));
    providers.hosting.results.push_back(Ok(DeploymentInfo {
        id: "dpl-2".to_owned(),
        url: "g2.vercel.app".to_owned(),
    }));

    // G1: A and B published end to end.
    let fixture_g1 = Fixture::new();
    let sha_a = digest("source-a");
    let sha_b = digest("source-b");
    let publication1 = commit_publication(
        &fixture_g1,
        "g-000001",
        &[(&sha_a, b"source-a"), (&sha_b, b"source-b")],
    );
    let manifest1 = publication1.manifest(&config);
    let bundle1 = compose_application_bundle(&template, &manifest1, true).unwrap();
    let desired1 = publication1.desired(&config, &fixture_g1, &bundle1);
    let mut ledger = ledger_for(&desired1);
    let plan = plan_reconciliation(
        &desired1,
        &KnownRemoteState::from_ledger(&ledger).unwrap(),
    )
    .unwrap();
    execute(
        &fixture_g1,
        &plan,
        &desired1,
        &bundle1,
        &mut providers,
        &mut ledger,
    )
    .unwrap();

    let phases: Vec<&'static str> = {
        let mut phases = log.borrow().clone();
        phases.dedup();
        phases
    };
    assert_eq!(phases, vec!["storage", "repository", "hosting"]);
    // Previews were written to the repository with the exact physical
    // bytes; downloads went to storage; nothing preview touched storage.
    for sha in [&sha_a, &sha_b] {
        assert_eq!(
            providers.repository.files[format!("previews/photos/preview/{sha}.jpg").as_str()],
            format!("committed preview bytes {sha}").as_bytes()
        );
        assert!(providers
            .storage
            .objects
            .contains_key(format!("originals/photos/download/{sha}.jpg").as_str()));
    }
    assert!(!providers
        .repository
        .files
        .keys()
        .any(|path| path.contains("download")));
    let vercel = copy_vercel(&ledger.vercel).unwrap();
    assert_eq!(vercel.status, OperationState::Confirmed);
    assert_eq!(vercel.deployment_id.as_deref(), Some("dpl-1"));

    // G2: A stays, C arrives, B leaves.
    let fixture_g2 = Fixture::new();
    let sha_c = digest("source-c");
    let publication2 = commit_publication(
        &fixture_g2,
        "g-000002",
        &[(&sha_a, b"source-a"), (&sha_c, b"source-c")],
    );
    let manifest2 = publication2.manifest(&config);
    let bundle2 = compose_application_bundle(&template, &manifest2, true).unwrap();
    let desired2 = publication2.desired(&config, &fixture_g2, &bundle2);
    let plan = plan_reconciliation(
        &desired2,
        &KnownRemoteState::from_ledger(&ledger).unwrap(),
    )
    .unwrap();
    // A is never rewritten or re-uploaded; B is removed; C is added.
    assert!(!plan.operations.iter().any(|operation| matches!(
        operation,
        IntegrationOperation::PutStorage(object)
            if object.key.as_str().contains(&sha_a)
    )));
    assert!(plan.operations.iter().any(|operation| matches!(
        operation,
        IntegrationOperation::DeleteStorage { key }
            if key.as_str() == format!("originals/photos/download/{sha_b}.jpg")
    )));
    assert!(plan.operations.iter().any(|operation| matches!(
        operation,
        IntegrationOperation::DeleteRepository { path }
            if path.as_str() == format!("previews/photos/preview/{sha_b}.jpg")
    )));
    execute(
        &fixture_g2,
        &plan,
        &desired2,
        &bundle2,
        &mut providers,
        &mut ledger,
    )
    .unwrap();

    let phases: Vec<&'static str> = {
        let mut phases = log.borrow().clone();
        phases.dedup();
        phases
    };
    assert_eq!(
        phases,
        vec![
            "storage",
            "repository",
            "hosting",
            "storage",
            "repository",
            "hosting"
        ]
    );
    // After G2: previews B are gone, the repository pubilcation set is A+C.
    assert!(!providers
        .repository
        .files
        .contains_key(format!("previews/photos/preview/{sha_b}.jpg").as_str()));
    assert!(providers
        .repository
        .files
        .contains_key(format!("previews/photos/preview/{sha_c}.jpg").as_str()));
    assert!(providers
        .storage
        .objects
        .contains_key(format!("originals/photos/download/{sha_a}.jpg").as_str()));
    assert!(!providers
        .storage
        .objects
        .contains_key(format!("originals/photos/download/{sha_b}.jpg").as_str()));
    assert_eq!(
        ledger.vercel.as_ref().unwrap().deployment_id.as_deref(),
        Some("dpl-2")
    );

    // Idempotency: replanning G2 over the executed ledger is empty and
    // executing it touches nothing.
    let plan = plan_reconciliation(
        &desired2,
        &KnownRemoteState::from_ledger(&ledger).unwrap(),
    )
    .unwrap();
    assert!(plan.operations.is_empty() && plan.reconciliation_requirements.is_empty());
    let calls_before = log.borrow().len();
    execute(
        &fixture_g2,
        &plan,
        &desired2,
        &bundle2,
        &mut providers,
        &mut ledger,
    )
    .unwrap();
    assert_eq!(log.borrow().len(), calls_before);
}

#[test]
fn unsafe_entries_are_named_in_order() {
    let bundle = bundle_of(&[("index.html", b"index")]);
    let mut ledger = ledger_for(&desired(&bundle));
    assert_eq!(unsafe_ledger_state(&ledger), None);
    ledger
        .record_vercel(digest("bundle"), OperationState::Unknown, None, None)
        .unwrap();
    assert_eq!(
        unsafe_ledger_state(&ledger),
        Some("hosting publication is unknown".to_owned())
    );
    ledger
        .record_github_file(
            &RepositoryPath::new("index.html").unwrap(),
            digest("index"),
            "base".to_owned(),
            OperationState::Pending,
        )
        .unwrap();
    assert_eq!(
        unsafe_ledger_state(&ledger),
        Some("repository file index.html is pending".to_owned())
    );
    let key = ObjectKey::new("originals/a.jpg").unwrap();
    ledger
        .record_r2_object(
            &key,
            &StorageObject {
                key: key.duplicate(),
                size_bytes: 1,
                sha256: digest("a"),
                content_type: None,
            },
            OperationState::Unknown,
        )
        .unwrap();
    assert_eq!(
        unsafe_ledger_state(&ledger),
        Some("storage object originals/a.jpg is unknown".to_owned())
    );
}

#[test]
fn invalid_desired_header_is_refused_at_adoption() {
    let fixture = Fixture::new();
    let log: SharedLog = Rc::new(RefCell::new(Vec::new()));
    let bundle = bundle_of(&[("index.html", b"index")]);
    let mut ledger = ledger_for(&desired(&bundle));
    let before = ledger.clone();
    let mut next = desired_gen(&bundle, "g-000002");
    next.local.state_hash = "no digest".to_owned();
    let error = execute(
        &fixture,
        &empty_plan(),
        &next,
        &bundle,
        &mut Providers::new(&log),
        &mut ledger,
    )
    .unwrap_err();
    assert!(matches!(error, CoordinationError::Ledger(_)));
    assert_eq!(ledger, before);
    assert!(!fixture.is_stored());
}
