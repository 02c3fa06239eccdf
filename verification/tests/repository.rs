//! Repository execution, with a scripted provider and a ledger kept in memory.

use photo_publisher::bundle::{bundle_content, ApplicationBundle};
use photo_publisher::config::{HostingPublicationConfig, ProjectPublicationConfig};
use photo_publisher::file_source::FileObservation;
use photo_publisher::inventory::Duplicate;
use photo_publisher::ledger::{IntegrationLedger, OperationState};
use photo_publisher::paths::{ObjectKey, PublicationPath, RepositoryPath};
use photo_publisher::planner::{
    plan_reconciliation, DesiredPublication, DesiredRepositoryFile, DesiredStorageObject,
    IntegrationOperation, IntegrationPlan, KnownRemoteState, LocalPublication,
    ReconciliationRequirement, RepositoryFileSource,
};
use photo_publisher::provider::{
    CommitInfo, FailureKind, FileMetadata, ProviderError, ProviderFailure,
};
use photo_publisher::public_url::PublicBaseUrl;
use photo_publisher::repository::{
    classify_commit_failure, RepositoryAction, RepositoryEvent, RepositoryExecutionError,
    RepositoryExecutionReport, RepositoryExecutor,
};
use sha2::{Digest, Sha256};
use std::cell::RefCell;
use std::collections::{HashMap, VecDeque};
use std::rc::Rc;

fn sha256_bytes(bytes: &[u8]) -> String {
    format!("{:x}", Sha256::digest(bytes))
}

fn digest(value: &str) -> String {
    sha256_bytes(value.as_bytes())
}

/// The durable copy of a ledger.
type Disk = Rc<RefCell<Option<IntegrationLedger>>>;

fn stored(disk: &Disk) -> IntegrationLedger {
    disk.borrow().as_ref().unwrap().duplicate()
}

fn copy_ledger(from: &Disk, to: &Disk) {
    let ledger = stored(from);
    *to.borrow_mut() = Some(ledger);
}

/// Writes a valid ledger; otherwise reports what is still there.
fn persist(disk: &Disk, ledger: &IntegrationLedger) -> Result<(), (Option<IntegrationLedger>, String)> {
    match ledger.validate() {
        Ok(()) => {
            *disk.borrow_mut() = Some(ledger.duplicate());
            Ok(())
        }
        Err(error) => Err((
            disk.borrow().as_ref().map(|durable| durable.duplicate()),
            error.message().to_owned(),
        )),
    }
}

fn failed(error: ProviderError) -> ProviderFailure {
    ProviderFailure {
        description: format!("{error:?}"),
        error,
    }
}

const BASE_REVISION: &str = "base-revision";

#[derive(Debug, Clone, PartialEq, Eq)]
enum RepoCall {
    Ensure,
    Probe,
    Write(String),
    Delete(String),
    Commit(usize),
}

enum CommitScript {
    Succeed,
    Fail(ProviderError),
    /// Simulates a ref update applied remotely whose response was lost.
    ApplyThenFail,
}

#[derive(Default)]
struct FakeRepository {
    files: HashMap<String, Vec<u8>>,
    revision: String,
    staged: HashMap<String, Option<Vec<u8>>>,
    commit_seq: u64,
    calls: Vec<RepoCall>,
    messages: Vec<String>,
    write_scripts: VecDeque<Result<Option<FileMetadata>, ProviderError>>,
    commit_scripts: VecDeque<CommitScript>,
    ensure_failure: Option<ProviderError>,
    probe_failure: Option<ProviderError>,
    on_write: Option<Box<dyn FnMut()>>,
    on_commit: Option<Box<dyn FnMut()>>,
}

impl FakeRepository {
    fn new() -> Self {
        Self {
            revision: BASE_REVISION.to_owned(),
            ..Self::default()
        }
    }

    fn commit_count(&self) -> usize {
        self.calls
            .iter()
            .filter(|call| matches!(call, RepoCall::Commit(_)))
            .count()
    }

    fn ensure_repository(&mut self) -> Result<(), ProviderFailure> {
        self.calls.push(RepoCall::Ensure);
        match self.ensure_failure.take() {
            Some(error) => Err(failed(error)),
            None => Ok(()),
        }
    }

    fn write(
        &mut self,
        path: &RepositoryPath,
        bytes: Vec<u8>,
    ) -> Result<FileMetadata, ProviderFailure> {
        self.calls.push(RepoCall::Write(path.as_str().to_owned()));
        let script = self.write_scripts.pop_front().unwrap_or(Ok(None));
        if let Some(hook) = self.on_write.as_mut() {
            hook();
        }
        // Like the real provider, a failed blob creation stages nothing.
        let script = script.map_err(failed)?;
        self.staged
            .insert(path.as_str().to_owned(), Some(bytes.clone()));
        Ok(script.unwrap_or(FileMetadata {
            path: path.duplicate(),
            size_bytes: bytes.len() as u64,
            sha256: sha256_bytes(&bytes),
        }))
    }

    fn delete(&mut self, path: &RepositoryPath) -> Result<(), ProviderFailure> {
        self.calls.push(RepoCall::Delete(path.as_str().to_owned()));
        self.staged.insert(path.as_str().to_owned(), None);
        Ok(())
    }

    fn commit(&mut self, message: &str) -> Result<CommitInfo, ProviderFailure> {
        self.messages.push(message.to_owned());
        if self.staged.is_empty() {
            // Probe path: reads the base revision and publishes nothing.
            self.calls.push(RepoCall::Probe);
            return match self.probe_failure.take() {
                Some(error) => Err(failed(error)),
                None => Ok(CommitInfo {
                    revision: self.revision.clone(),
                    message: message.to_owned(),
                    changed_paths: Vec::new(),
                }),
            };
        }
        self.calls.push(RepoCall::Commit(self.staged.len()));
        if let Some(hook) = self.on_commit.as_mut() {
            hook();
        }
        let script = self
            .commit_scripts
            .pop_front()
            .unwrap_or(CommitScript::Succeed);
        match script {
            // Like the real provider, staged changes survive a failed
            // commit; nothing was published.
            CommitScript::Fail(error) => Err(failed(error)),
            CommitScript::Succeed | CommitScript::ApplyThenFail => {
                let staged = std::mem::take(&mut self.staged);
                let mut changed_paths: Vec<RepositoryPath> = staged
                    .keys()
                    .map(|path| RepositoryPath::new(path).unwrap())
                    .collect();
                changed_paths.sort_by(|left, right| left.as_str().cmp(right.as_str()));
                for (path, change) in staged {
                    match change {
                        Some(bytes) => {
                            self.files.insert(path, bytes);
                        }
                        None => {
                            self.files.remove(&path);
                        }
                    }
                }
                self.commit_seq += 1;
                self.revision = format!("commit-{:02}", self.commit_seq);
                let info = CommitInfo {
                    revision: self.revision.clone(),
                    message: message.to_owned(),
                    changed_paths,
                };
                match script {
                    CommitScript::Succeed => Ok(info),
                    CommitScript::ApplyThenFail => Err(failed(ProviderError::Network)),
                    CommitScript::Fail(_) => unreachable!("handled above"),
                }
            }
        }
    }
}

/// What stands at a path below the publication root.
enum Entry {
    File(Vec<u8>),
    Directory,
    OutsideRoot,
}

struct Fixture {
    files: RefCell<HashMap<String, Entry>>,
    ledger_path: Disk,
    snapshot: Disk,
}

impl Fixture {
    fn new() -> Self {
        Self {
            files: RefCell::new(HashMap::new()),
            ledger_path: Rc::new(RefCell::new(None)),
            snapshot: Rc::new(RefCell::new(None)),
        }
    }

    fn write(&self, path: &str, bytes: &[u8]) {
        self.files
            .borrow_mut()
            .insert(path.to_owned(), Entry::File(bytes.to_vec()));
    }

    fn remove(&self, path: &str) {
        self.files.borrow_mut().remove(path).unwrap();
    }

    fn observe(&self, path: &str) -> FileObservation {
        match self.files.borrow().get(path) {
            Some(Entry::File(bytes)) => FileObservation::of_content(bytes.len() as u64, bytes),
            Some(Entry::Directory) => FileObservation::NotRegular,
            Some(Entry::OutsideRoot) => FileObservation::OutsideRoot,
            None => FileObservation::Missing { cause: "not found".to_owned() },
        }
    }

    fn content(&self, path: &str) -> Vec<u8> {
        match self.files.borrow().get(path) {
            Some(Entry::File(bytes)) => bytes.clone(),
            _ => panic!("no file at {path}"),
        }
    }

    fn durable_ledger(&self) -> IntegrationLedger {
        stored(&self.ledger_path)
    }

    fn store(&self, ledger: &IntegrationLedger) {
        persist(&self.ledger_path, ledger).unwrap();
    }

    fn is_stored(&self) -> bool {
        self.ledger_path.borrow().is_some()
    }

    fn snapshot_path(&self) -> Disk {
        Rc::clone(&self.snapshot)
    }
}

fn empty_ledger() -> IntegrationLedger {
    IntegrationLedger::new(
        digest("config"),
        "g-000001".to_owned(),
        digest("state"),
        digest("manifest"),
    )
    .unwrap()
}

fn bundle(files: &[(&str, &[u8])]) -> ApplicationBundle {
    ApplicationBundle::from_files(
        files
            .iter()
            .map(|(path, content)| (path.to_string(), content.to_vec()))
            .collect(),
    )
    .unwrap()
}

fn desired_file(path: &str, content: &[u8]) -> DesiredRepositoryFile {
    DesiredRepositoryFile::new(
        RepositoryPath::new(path).unwrap(),
        sha256_bytes(content),
        content.len() as u64,
        RepositoryFileSource::BundleMember,
    )
    .unwrap()
}

fn plan(operations: Vec<IntegrationOperation>) -> IntegrationPlan {
    IntegrationPlan {
        operations,
        reconciliation_requirements: Vec::new(),
    }
}

/// Performs what the executor asks for until it is done.
fn execute(
    fixture: &Fixture,
    plan: &IntegrationPlan,
    bundle: &ApplicationBundle,
    provider: &mut FakeRepository,
    ledger: &mut IntegrationLedger,
) -> Result<RepositoryExecutionReport, RepositoryExecutionError> {
    let mut executor = RepositoryExecutor::new(plan, bundle, ledger.duplicate())?;
    loop {
        let event = match executor.action() {
            RepositoryAction::Examine(path) => {
                RepositoryEvent::Examined(fixture.observe(path.as_str()))
            }
            RepositoryAction::Ensure => RepositoryEvent::Ensured(provider.ensure_repository()),
            RepositoryAction::Commit(message) => {
                RepositoryEvent::Committed(provider.commit(&message))
            }
            RepositoryAction::Persist(current) => match persist(&fixture.ledger_path, current) {
                Ok(()) => RepositoryEvent::Persisted,
                Err((durable, message)) => RepositoryEvent::NotPersisted { durable, message },
            },
            RepositoryAction::Write(file) => {
                let bytes = match &file.source {
                    RepositoryFileSource::BundleMember => {
                        bundle_content(bundle, &file.path).unwrap().to_vec()
                    }
                    RepositoryFileSource::PublicationFile { source_path } => {
                        fixture.content(source_path.as_str())
                    }
                };
                RepositoryEvent::Written(provider.write(&file.path, bytes))
            }
            RepositoryAction::Delete(path) => RepositoryEvent::Deleted(provider.delete(path)),
            RepositoryAction::Finished => break,
        };
        executor = executor.handle(event);
    }
    let (after, result) = executor.finish();
    *ledger = after;
    result
}

fn configuration() -> ProjectPublicationConfig {
    ProjectPublicationConfig {
        project_id: "project".to_owned(),
        bundle_directory: "site".to_owned(),
        repository_provider: "repository".to_owned(),
        repository: "owner/project".to_owned(),
        branch: Some("main".to_owned()),
        preview_prefix: Some("previews".to_owned()),
        preview_public_base_url: PublicBaseUrl::parse("https://cdn.example.com/previews").unwrap(),
        high_resolution_account_id: "account".to_owned(),
        high_resolution_bucket: Some("bucket".to_owned()),
        high_resolution_prefix: Some("originals".to_owned()),
        high_resolution_public_base_url: PublicBaseUrl::parse(
            "https://downloads.example.com/originals",
        )
        .unwrap(),
        hosting: HostingPublicationConfig::new("hosting-project".to_owned(), None).unwrap(),
    }
}

fn desired_publication(bundle: &ApplicationBundle) -> DesiredPublication {
    DesiredPublication::new(
        &configuration(),
        LocalPublication::new("g-000001".to_owned(), digest("state"), digest("manifest")).unwrap(),
        bundle,
    )
    .unwrap()
}

fn ledger_for(desired: &DesiredPublication) -> IntegrationLedger {
    IntegrationLedger::new(
        desired.configuration_fingerprint.clone(),
        desired.local.generation.clone(),
        desired.local.state_hash.clone(),
        desired.local.manifest_hash.clone(),
    )
    .unwrap()
}

/// A repository-sourced publication asset: bytes committed physically
/// under the publication output, declared with its planned identity.
fn publication_file(fixture: &Fixture, name: &str, bytes: &[u8]) -> DesiredRepositoryFile {
    let relative = format!("photos/preview/{name}.jpg");
    fixture.write(&relative, bytes);
    DesiredRepositoryFile::new(
        RepositoryPath::new(&format!("public/{relative}")).unwrap(),
        sha256_bytes(bytes),
        bytes.len() as u64,
        RepositoryFileSource::PublicationFile {
            source_path: PublicationPath::new(&relative).unwrap(),
        },
    )
    .unwrap()
}

#[test]
fn single_write_is_committed_once_and_confirmed() {
    let fixture = Fixture::new();
    let bundle = bundle(&[("index.html", b"<h1>ok</h1>")]);
    let file = desired_file("index.html", b"<h1>ok</h1>");
    let mut provider = FakeRepository::new();
    let mut ledger = empty_ledger();

    let report = execute(
        &fixture,
        &plan(vec![IntegrationOperation::WriteRepository(file.duplicate())]),
        &bundle,
        &mut provider,
        &mut ledger,
    )
    .unwrap();

    assert_eq!(report.written, vec![file.path.duplicate()]);
    assert_eq!(report.revision.as_deref(), Some("commit-01"));
    // One remote batch: ensure, base probe, one write, one commit.
    assert_eq!(
        provider.calls,
        vec![
            RepoCall::Ensure,
            RepoCall::Probe,
            RepoCall::Write("index.html".to_owned()),
            RepoCall::Commit(1),
        ]
    );
    // Deterministic message for both the probe and the batch commit.
    assert_eq!(
        provider.messages,
        vec!["photo-publisher publish g-000001".to_owned(); 2]
    );
    let entry = ledger.github_inventory.get("index.html").unwrap();
    assert_eq!(entry.status, OperationState::Confirmed);
    assert_eq!(entry.sha256, file.sha256);
    assert_eq!(entry.revision, "commit-01");
    assert_eq!(provider.files["index.html"], b"<h1>ok</h1>");
    assert_eq!(fixture.durable_ledger(), ledger);
}

#[test]
fn multiple_writes_produce_a_single_commit() {
    let fixture = Fixture::new();
    let bundle = bundle(&[("a.txt", b"a"), ("assets/b.txt", b"b")]);
    let first = desired_file("a.txt", b"a");
    let second = desired_file("assets/b.txt", b"b");
    let mut provider = FakeRepository::new();
    let mut ledger = empty_ledger();

    let report = execute(
        &fixture,
        &plan(vec![
            IntegrationOperation::WriteRepository(first.duplicate()),
            IntegrationOperation::WriteRepository(second.duplicate()),
        ]),
        &bundle,
        &mut provider,
        &mut ledger,
    )
    .unwrap();

    assert_eq!(provider.commit_count(), 1);
    assert_eq!(report.revision.as_deref(), Some("commit-01"));
    assert_eq!(
        report.written,
        vec![first.path.duplicate(), second.path.duplicate()]
    );
    for file in [&first, &second] {
        let entry = ledger.github_inventory.get(file.path.as_str()).unwrap();
        assert_eq!(entry.status, OperationState::Confirmed);
        assert_eq!(entry.sha256, file.sha256);
        assert_eq!(entry.revision, "commit-01");
    }
    assert_eq!(fixture.durable_ledger(), ledger);
}

#[test]
fn multiple_deletes_produce_a_single_commit_and_remove_entries() {
    let fixture = Fixture::new();
    let bundle = bundle(&[("index.html", b"index")]);
    let first = RepositoryPath::new("a.txt").unwrap();
    let second = RepositoryPath::new("assets/b.txt").unwrap();
    let mut ledger = empty_ledger();
    for (path, content) in [(&first, b"a".as_slice()), (&second, b"b".as_slice())] {
        ledger
            .record_github_file(
                path,
                sha256_bytes(content),
                "rev-0".to_owned(),
                OperationState::Confirmed,
            )
            .unwrap();
    }
    fixture.store(&ledger);
    let mut provider = FakeRepository::new();
    provider.files.insert("a.txt".to_owned(), b"a".to_vec());
    provider
        .files
        .insert("assets/b.txt".to_owned(), b"b".to_vec());

    let report = execute(
        &fixture,
        &plan(vec![
            IntegrationOperation::DeleteRepository {
                path: first.duplicate(),
            },
            IntegrationOperation::DeleteRepository {
                path: second.duplicate(),
            },
        ]),
        &bundle,
        &mut provider,
        &mut ledger,
    )
    .unwrap();

    assert_eq!(provider.commit_count(), 1);
    assert_eq!(report.deleted, vec![first.duplicate(), second.duplicate()]);
    // No tombstones: absence is the final state.
    assert!(!ledger.github_inventory.contains_key("a.txt"));
    assert!(!ledger.github_inventory.contains_key("assets/b.txt"));
    assert!(!provider.files.contains_key("a.txt"));
    assert_eq!(fixture.durable_ledger(), ledger);
}

#[test]
fn mixed_batch_stages_in_plan_order_and_commits_once() {
    let fixture = Fixture::new();
    let bundle = bundle(&[("a.txt", b"a"), ("b.txt", b"b"), ("d.txt", b"d")]);
    let mut ledger = empty_ledger();
    ledger
        .record_github_file(
            &RepositoryPath::new("c.txt").unwrap(),
            digest("c"),
            "rev-0".to_owned(),
            OperationState::Confirmed,
        )
        .unwrap();
    fixture.store(&ledger);
    let mut provider = FakeRepository::new();
    provider.files.insert("c.txt".to_owned(), b"c".to_vec());

    execute(
        &fixture,
        &plan(vec![
            IntegrationOperation::WriteRepository(desired_file("a.txt", b"a")),
            IntegrationOperation::WriteRepository(desired_file("b.txt", b"b")),
            IntegrationOperation::DeleteRepository {
                path: RepositoryPath::new("c.txt").unwrap(),
            },
            IntegrationOperation::WriteRepository(desired_file("d.txt", b"d")),
        ]),
        &bundle,
        &mut provider,
        &mut ledger,
    )
    .unwrap();

    assert_eq!(
        provider.calls,
        vec![
            RepoCall::Ensure,
            RepoCall::Probe,
            RepoCall::Write("a.txt".to_owned()),
            RepoCall::Write("b.txt".to_owned()),
            RepoCall::Delete("c.txt".to_owned()),
            RepoCall::Write("d.txt".to_owned()),
            RepoCall::Commit(4),
        ]
    );
    assert_eq!(provider.commit_count(), 1);
    assert!(!provider.files.contains_key("c.txt"));
    assert!(!ledger.github_inventory.contains_key("c.txt"));
    assert_eq!(ledger.github_inventory.get("d.txt").unwrap().revision, "commit-01");
}

#[test]
fn plan_without_repository_operations_makes_no_remote_calls() {
    let fixture = Fixture::new();
    let bundle = bundle(&[("index.html", b"index")]);
    let object = DesiredStorageObject::new(
        ObjectKey::new("originals/x.jpg").unwrap(),
        PublicationPath::new("photos/download/x.jpg").unwrap(),
        digest("x"),
        1,
        None,
    )
    .unwrap();
    let mut provider = FakeRepository::new();
    let mut ledger = empty_ledger();

    let report = execute(
        &fixture,
        &plan(vec![IntegrationOperation::PutStorage(object)]),
        &bundle,
        &mut provider,
        &mut ledger,
    )
    .unwrap();

    assert_eq!(report, RepositoryExecutionReport::default());
    assert_eq!(provider.calls, Vec::new());
    assert!(provider.messages.is_empty());
    assert!(!fixture.is_stored());
}

#[test]
fn repository_plan_with_reconciliation_requirements_is_refused() {
    let fixture = Fixture::new();
    let bundle = bundle(&[("index.html", b"index")]);
    let file = desired_file("index.html", b"index");
    let mut provider = FakeRepository::new();
    let mut ledger = empty_ledger();

    for requirement in [
        ReconciliationRequirement::ConfigurationChanged,
        ReconciliationRequirement::RepositoryPending {
            path: file.path.duplicate(),
        },
        ReconciliationRequirement::RepositoryUnknown {
            path: file.path.duplicate(),
        },
    ] {
        let blocked = IntegrationPlan {
            operations: vec![IntegrationOperation::WriteRepository(file.duplicate())],
            reconciliation_requirements: vec![requirement],
        };
        let error =
            execute(&fixture, &blocked, &bundle, &mut provider, &mut ledger).unwrap_err();
        assert!(matches!(
            error,
            RepositoryExecutionError::ReconciliationRequired(_)
        ));
    }
    assert_eq!(provider.calls, Vec::new());
    assert!(ledger.github_inventory.is_empty());
    assert!(!fixture.is_stored());
}

#[test]
fn write_over_a_pending_or_unknown_entry_is_refused() {
    for status in [OperationState::Pending, OperationState::Unknown] {
        let fixture = Fixture::new();
        let bundle = bundle(&[("index.html", b"index")]);
        let file = desired_file("index.html", b"index");
        let mut provider = FakeRepository::new();
        let mut ledger = empty_ledger();
        ledger
            .record_github_file(
                &file.path,
                file.sha256.clone(),
                BASE_REVISION.to_owned(),
                status,
            )
            .unwrap();

        let error = execute(
            &fixture,
            &plan(vec![IntegrationOperation::WriteRepository(file.duplicate())]),
            &bundle,
            &mut provider,
            &mut ledger,
        )
        .unwrap_err();

        assert!(matches!(
            error,
            RepositoryExecutionError::InconsistentPlan(_)
        ));
        assert_eq!(provider.calls, Vec::new());
        assert_eq!(ledger.github_inventory.get("index.html").unwrap().status, status);
        assert!(!fixture.is_stored());
    }
}

#[test]
fn delete_of_a_path_not_confirmed_is_refused() {
    let fixture = Fixture::new();
    let bundle = bundle(&[("index.html", b"index")]);
    let path = RepositoryPath::new("a.txt").unwrap();
    let mut provider = FakeRepository::new();

    // Absent from the ledger.
    let mut ledger = empty_ledger();
    let error = execute(
        &fixture,
        &plan(vec![IntegrationOperation::DeleteRepository {
            path: path.duplicate(),
        }]),
        &bundle,
        &mut provider,
        &mut ledger,
    )
    .unwrap_err();
    assert!(matches!(
        error,
        RepositoryExecutionError::InconsistentPlan(_)
    ));

    // Recorded, but not Confirmed.
    for status in [OperationState::Pending, OperationState::Unknown] {
        let mut ledger = empty_ledger();
        ledger
            .record_github_file(&path, digest("a"), BASE_REVISION.to_owned(), status)
            .unwrap();
        let error = execute(
            &fixture,
            &plan(vec![IntegrationOperation::DeleteRepository {
                path: path.duplicate(),
            }]),
            &bundle,
            &mut provider,
            &mut ledger,
        )
        .unwrap_err();
        assert!(matches!(
            error,
            RepositoryExecutionError::InconsistentPlan(_)
        ));
    }
    assert_eq!(provider.calls, Vec::new());
    assert!(!fixture.is_stored());
}

#[test]
fn bundle_content_mismatch_changes_nothing() {
    let fixture = Fixture::new();
    let bundle = bundle(&[("index.html", b"actual content")]);
    let mismatched = desired_file("index.html", b"expected different content");
    let mut provider = FakeRepository::new();
    let mut ledger = empty_ledger();

    let error = execute(
        &fixture,
        &plan(vec![IntegrationOperation::WriteRepository(mismatched)]),
        &bundle,
        &mut provider,
        &mut ledger,
    )
    .unwrap_err();

    assert!(matches!(
        error,
        RepositoryExecutionError::LocalValidation { .. }
    ));
    assert_eq!(provider.calls, Vec::new());
    assert!(ledger.github_inventory.is_empty());
    assert!(!fixture.is_stored());
}

#[test]
fn bundle_missing_file_changes_nothing() {
    let fixture = Fixture::new();
    let bundle = bundle(&[("index.html", b"index")]);
    let missing = desired_file("missing.txt", b"whatever");
    let mut provider = FakeRepository::new();
    let mut ledger = empty_ledger();

    let error = execute(
        &fixture,
        &plan(vec![IntegrationOperation::WriteRepository(missing)]),
        &bundle,
        &mut provider,
        &mut ledger,
    )
    .unwrap_err();

    assert!(matches!(
        error,
        RepositoryExecutionError::LocalValidation { .. }
    ));
    assert_eq!(provider.calls, Vec::new());
    assert!(ledger.github_inventory.is_empty());
    assert!(!fixture.is_stored());
}

#[test]
fn write_returning_divergent_metadata_rolls_back_without_commit() {
    for pre_existing in [false, true] {
        let fixture = Fixture::new();
        let bundle = bundle(&[("index.html", b"index")]);
        let file = desired_file("index.html", b"index");
        let mut provider = FakeRepository::new();
        provider.write_scripts.push_back(Ok(Some(FileMetadata {
            path: file.path.duplicate(),
            size_bytes: 5,
            sha256: digest("bogus"),
        })));
        let mut ledger = empty_ledger();
        if pre_existing {
            ledger
                .record_github_file(
                    &file.path,
                    digest("old"),
                    "rev-0".to_owned(),
                    OperationState::Confirmed,
                )
                .unwrap();
            fixture.store(&ledger);
        }
        let before = ledger.clone();

        let error = execute(
            &fixture,
            &plan(vec![IntegrationOperation::WriteRepository(file.duplicate())]),
            &bundle,
            &mut provider,
            &mut ledger,
        )
        .unwrap_err();

        assert!(matches!(error, RepositoryExecutionError::Rejected(_)));
        // The batch was staged but never committed.
        assert_eq!(provider.commit_count(), 0);
        assert!(provider.files.is_empty());
        // The ledger is back to its previous state, durably.
        assert_eq!(ledger, before);
        assert_eq!(fixture.durable_ledger(), before);
    }
}

#[test]
fn first_write_failure_rolls_back_without_commit() {
    let fixture = Fixture::new();
    let bundle = bundle(&[("a.txt", b"a"), ("b.txt", b"b")]);
    let mut provider = FakeRepository::new();
    provider
        .write_scripts
        .push_back(Err(ProviderError::Network));
    let mut ledger = empty_ledger();

    let error = execute(
        &fixture,
        &plan(vec![
            IntegrationOperation::WriteRepository(desired_file("a.txt", b"a")),
            IntegrationOperation::WriteRepository(desired_file("b.txt", b"b")),
        ]),
        &bundle,
        &mut provider,
        &mut ledger,
    )
    .unwrap_err();

    assert!(matches!(error, RepositoryExecutionError::Rejected(_)));
    assert_eq!(provider.commit_count(), 0);
    assert!(!provider.calls.contains(&RepoCall::Commit(0)));
    assert!(ledger.github_inventory.is_empty());
    assert_eq!(fixture.durable_ledger(), ledger);
}

#[test]
fn second_write_failure_rolls_back_without_commit() {
    let fixture = Fixture::new();
    let bundle = bundle(&[("a.txt", b"a"), ("b.txt", b"b")]);
    let mut provider = FakeRepository::new();
    provider.write_scripts.push_back(Ok(None));
    provider
        .write_scripts
        .push_back(Err(ProviderError::Conflict));
    let mut ledger = empty_ledger();

    let error = execute(
        &fixture,
        &plan(vec![
            IntegrationOperation::WriteRepository(desired_file("a.txt", b"a")),
            IntegrationOperation::WriteRepository(desired_file("b.txt", b"b")),
        ]),
        &bundle,
        &mut provider,
        &mut ledger,
    )
    .unwrap_err();

    assert!(matches!(error, RepositoryExecutionError::Rejected(_)));
    assert_eq!(provider.commit_count(), 0);
    assert!(provider.files.is_empty());
    assert!(ledger.github_inventory.is_empty());
    assert_eq!(fixture.durable_ledger(), ledger);
}

#[test]
fn pending_with_the_base_revision_is_durable_before_the_first_write() {
    let fixture = Fixture::new();
    let bundle = bundle(&[("index.html", b"index")]);
    let file = desired_file("index.html", b"index");
    let mut provider = FakeRepository::new();
    let mut ledger = empty_ledger();
    let observed: Rc<RefCell<Vec<(OperationState, String, String)>>> =
        Rc::new(RefCell::new(Vec::new()));
    let ledger_path = fixture.ledger_path.clone();
    let observed_in_hook = Rc::clone(&observed);
    let path = "index.html".to_owned();
    provider.on_write = Some(Box::new(move || {
        // The fundamental safety rule: a persisted Pending (carrying the
        // base revision captured by the probe) must exist before the
        // first remote call of the batch.
        let durable = stored(&ledger_path);
        let entry = durable.github_inventory.get(&path).unwrap().duplicate();
        observed_in_hook
            .borrow_mut()
            .push((entry.status, entry.sha256, entry.revision));
    }));

    execute(
        &fixture,
        &plan(vec![IntegrationOperation::WriteRepository(file.duplicate())]),
        &bundle,
        &mut provider,
        &mut ledger,
    )
    .unwrap();

    assert_eq!(
        *observed.borrow(),
        vec![(
            OperationState::Pending,
            file.sha256.clone(),
            BASE_REVISION.to_owned()
        )]
    );
    // The probe published nothing: the revision only advanced with the
    // real commit.
    assert_eq!(
        fixture.durable_ledger().github_inventory.get("index.html").unwrap().revision,
        "commit-01"
    );
}

#[test]
fn commit_network_or_integrity_marks_the_whole_batch_unknown() {
    for failure in [ProviderError::Network, ProviderError::Integrity] {
        let fixture = Fixture::new();
        let bundle = bundle(&[("a.txt", b"a"), ("b.txt", b"b")]);
        let mut provider = FakeRepository::new();
        // ProviderError is not Clone: rebuild per iteration.
        let commit_failure = match failure {
            ProviderError::Network => ProviderError::Network,
            _ => ProviderError::Integrity,
        };
        provider
            .commit_scripts
            .push_back(CommitScript::Fail(commit_failure));
        let mut ledger = empty_ledger();

        let error = execute(
            &fixture,
            &plan(vec![
                IntegrationOperation::WriteRepository(desired_file("a.txt", b"a")),
                IntegrationOperation::WriteRepository(desired_file("b.txt", b"b")),
            ]),
            &bundle,
            &mut provider,
            &mut ledger,
        )
        .unwrap_err();

        assert!(matches!(error, RepositoryExecutionError::Ambiguous(_)));
        for path in ["a.txt", "b.txt"] {
            let entry = ledger.github_inventory.get(path).unwrap();
            assert_eq!(entry.status, OperationState::Unknown);
            // The Unknown entry keeps the pending intent and the base
            // revision: the ref update may have been applied.
            assert_eq!(entry.revision, BASE_REVISION);
            assert_eq!(
                entry.sha256,
                sha256_bytes(match path {
                    "a.txt" => b"a",
                    _ => b"b",
                })
            );
        }
        assert_eq!(fixture.durable_ledger(), ledger);
        assert_eq!(provider.commit_count(), 1);
        // A lost commit never applied the staged changes in this fake.
        assert!(provider.files.is_empty());
        let _ = failure;
    }
}

#[test]
fn commit_rejections_roll_back_the_previous_state() {
    for failure in [
        ProviderError::Conflict,
        ProviderError::Other, // 422 non-fast-forward surfaces as Other
        ProviderError::AuthenticationFailed,
        ProviderError::PermissionDenied,
        ProviderError::NotFound,
    ] {
        let fixture = Fixture::new();
        let bundle = bundle(&[("index.html", b"index")]);
        let file = desired_file("index.html", b"index");
        let mut provider = FakeRepository::new();
        provider
            .commit_scripts
            .push_back(CommitScript::Fail(failure));
        provider.files.insert("old.txt".to_owned(), b"old".to_vec());
        let mut ledger = empty_ledger();
        ledger
            .record_github_file(
                &RepositoryPath::new("old.txt").unwrap(),
                digest("old"),
                "rev-0".to_owned(),
                OperationState::Confirmed,
            )
            .unwrap();
        fixture.store(&ledger);
        let before = ledger.clone();

        let error = execute(
            &fixture,
            &plan(vec![
                IntegrationOperation::WriteRepository(file),
                IntegrationOperation::DeleteRepository {
                    path: RepositoryPath::new("old.txt").unwrap(),
                },
            ]),
            &bundle,
            &mut provider,
            &mut ledger,
        )
        .unwrap_err();

        assert!(matches!(error, RepositoryExecutionError::Rejected(_)));
        assert_eq!(provider.commit_count(), 1);
        // Nothing published: the reject proves the ref was untouched.
        assert!(!provider.files.contains_key("index.html"));
        assert!(provider.files.contains_key("old.txt"));
        assert_eq!(provider.revision, BASE_REVISION);
        assert_eq!(ledger, before);
        assert_eq!(fixture.durable_ledger(), before);
    }
}

#[test]
fn ensure_repository_failure_aborts_before_pending() {
    let fixture = Fixture::new();
    let bundle = bundle(&[("index.html", b"index")]);
    let mut provider = FakeRepository::new();
    provider.ensure_failure = Some(ProviderError::NotFound);
    let mut ledger = empty_ledger();

    let error = execute(
        &fixture,
        &plan(vec![IntegrationOperation::WriteRepository(desired_file(
            "index.html",
            b"index",
        ))]),
        &bundle,
        &mut provider,
        &mut ledger,
    )
    .unwrap_err();

    assert!(matches!(error, RepositoryExecutionError::Initialization(_)));
    assert_eq!(provider.calls, vec![RepoCall::Ensure]);
    assert!(ledger.github_inventory.is_empty());
    assert!(!fixture.is_stored());
}

#[test]
fn base_probe_failure_aborts_before_pending_and_publishes_nothing() {
    let fixture = Fixture::new();
    let bundle = bundle(&[("index.html", b"index")]);
    let mut provider = FakeRepository::new();
    provider.probe_failure = Some(ProviderError::Network);
    let mut ledger = empty_ledger();

    let error = execute(
        &fixture,
        &plan(vec![IntegrationOperation::WriteRepository(desired_file(
            "index.html",
            b"index",
        ))]),
        &bundle,
        &mut provider,
        &mut ledger,
    )
    .unwrap_err();

    assert!(matches!(error, RepositoryExecutionError::Initialization(_)));
    assert_eq!(provider.calls, vec![RepoCall::Ensure, RepoCall::Probe]);
    assert_eq!(provider.revision, BASE_REVISION);
    assert!(provider.files.is_empty());
    assert!(ledger.github_inventory.is_empty());
    assert!(!fixture.is_stored());
}

#[test]
fn repository_crash_after_pending_blocks_the_next_cycle() {
    let fixture = Fixture::new();
    let bundle = bundle(&[("index.html", b"index"), ("app.js", b"app")]);
    let desired = desired_publication(&bundle);
    // Durable state left by a crash after the batch Pending was persisted
    // and before any staging happened.
    let mut crashed = ledger_for(&desired);
    for file in desired.repository_files() {
        crashed
            .record_github_file(
                &file.path,
                file.sha256.clone(),
                BASE_REVISION.to_owned(),
                OperationState::Pending,
            )
            .unwrap();
    }
    fixture.store(&crashed);

    let mut ledger = fixture.durable_ledger();
    let planned = plan_reconciliation(
        &desired,
        &KnownRemoteState::from_ledger(&ledger).unwrap(),
    )
    .unwrap();
    assert!(planned
        .reconciliation_requirements
        .iter()
        .any(|requirement| matches!(
            requirement,
            ReconciliationRequirement::RepositoryPending { .. }
        )));
    assert!(!planned
        .operations
        .iter()
        .any(|operation| matches!(operation, IntegrationOperation::WriteRepository(_))));

    let mut provider = FakeRepository::new();
    let error = execute(&fixture, &planned, &bundle, &mut provider, &mut ledger).unwrap_err();

    assert!(matches!(
        error,
        RepositoryExecutionError::ReconciliationRequired(_)
    ));
    assert_eq!(provider.calls, Vec::new());
    assert!(provider.files.is_empty());
    assert_eq!(
        fixture.durable_ledger().github_inventory.get("index.html").unwrap().status,
        OperationState::Pending
    );
}

#[test]
fn published_commit_with_lost_response_is_never_repeated() {
    let fixture = Fixture::new();
    let bundle = bundle(&[("index.html", b"index")]);
    let desired = desired_publication(&bundle);
    let mut ledger = ledger_for(&desired);
    let planned = plan_reconciliation(
        &desired,
        &KnownRemoteState::from_ledger(&ledger).unwrap(),
    )
    .unwrap();
    assert!(planned
        .operations
        .iter()
        .any(|operation| matches!(operation, IntegrationOperation::WriteRepository(_))));

    // The ref update was applied remotely, but the response was lost.
    let mut provider = FakeRepository::new();
    provider
        .commit_scripts
        .push_back(CommitScript::ApplyThenFail);
    let error = execute(&fixture, &planned, &bundle, &mut provider, &mut ledger).unwrap_err();
    assert!(matches!(error, RepositoryExecutionError::Ambiguous(_)));
    assert_eq!(provider.commit_count(), 1);
    // The remote really moved.
    assert_eq!(provider.revision, "commit-01");
    assert_eq!(provider.files["index.html"], b"index");
    // The durable ledger honestly records the indeterminacy.
    let durable = fixture.durable_ledger();
    assert_eq!(
        durable.github_inventory.get("index.html").unwrap().status,
        OperationState::Unknown
    );

    // Next cycle: the planner blocks and no second commit is attempted.
    let mut ledger = durable;
    let planned = plan_reconciliation(
        &desired,
        &KnownRemoteState::from_ledger(&ledger).unwrap(),
    )
    .unwrap();
    assert!(planned
        .reconciliation_requirements
        .iter()
        .any(|requirement| matches!(
            requirement,
            ReconciliationRequirement::RepositoryUnknown { .. }
        )));
    let mut provider = FakeRepository::new();
    let error = execute(&fixture, &planned, &bundle, &mut provider, &mut ledger).unwrap_err();
    assert!(matches!(
        error,
        RepositoryExecutionError::ReconciliationRequired(_)
    ));
    assert_eq!(provider.calls, Vec::new());
    assert_eq!(provider.commit_count(), 0);
}

#[test]
fn published_commit_without_persisted_confirmation_is_never_repeated() {
    let fixture = Fixture::new();
    let bundle = bundle(&[("index.html", b"index")]);
    let desired = desired_publication(&bundle);
    let mut ledger = ledger_for(&desired);
    let planned = plan_reconciliation(
        &desired,
        &KnownRemoteState::from_ledger(&ledger).unwrap(),
    )
    .unwrap();

    // Snapshot the durable Pending while the commit is in flight.
    let mut provider = FakeRepository::new();
    let ledger_path = fixture.ledger_path.clone();
    let snapshot_path = fixture.snapshot_path();
    provider.on_commit = Some(Box::new(move || {
        copy_ledger(&ledger_path, &snapshot_path);
    }));
    execute(&fixture, &planned, &bundle, &mut provider, &mut ledger).unwrap();
    assert_eq!(provider.commit_count(), 1);
    assert_eq!(provider.files["index.html"], b"index");

    // Emulate a crash that lost the Confirmed write: the durable ledger is
    // back at Pending while the remote branch points at the new commit.
    copy_ledger(&fixture.snapshot_path(), &fixture.ledger_path);
    let durable = fixture.durable_ledger();
    assert_eq!(
        durable.github_inventory.get("index.html").unwrap().status,
        OperationState::Pending
    );

    let mut ledger = durable;
    let planned = plan_reconciliation(
        &desired,
        &KnownRemoteState::from_ledger(&ledger).unwrap(),
    )
    .unwrap();
    let mut provider = FakeRepository::new();
    let error = execute(&fixture, &planned, &bundle, &mut provider, &mut ledger).unwrap_err();

    assert!(matches!(
        error,
        RepositoryExecutionError::ReconciliationRequired(_)
    ));
    // No second commit, no remote call at all.
    assert_eq!(provider.calls, Vec::new());
    assert_eq!(provider.commit_count(), 0);
}

#[test]
fn idempotent_second_cycle_makes_no_commit() {
    let fixture = Fixture::new();
    let bundle = bundle(&[("index.html", b"index")]);
    let desired = desired_publication(&bundle);
    let mut ledger = ledger_for(&desired);
    let planned = plan_reconciliation(
        &desired,
        &KnownRemoteState::from_ledger(&ledger).unwrap(),
    )
    .unwrap();
    let mut provider = FakeRepository::new();
    execute(&fixture, &planned, &bundle, &mut provider, &mut ledger).unwrap();

    // Same desired state + Confirmed ledger: the planner emits no
    // repository operations, so the executor performs no remote call.
    let planned = plan_reconciliation(
        &desired,
        &KnownRemoteState::from_ledger(&ledger).unwrap(),
    )
    .unwrap();
    assert!(!planned.operations.iter().any(|operation| matches!(
        operation,
        IntegrationOperation::WriteRepository(_)
            | IntegrationOperation::DeleteRepository { .. }
    )));
    let mut provider = FakeRepository::new();
    let report = execute(&fixture, &planned, &bundle, &mut provider, &mut ledger).unwrap();
    assert_eq!(report, RepositoryExecutionReport::default());
    assert_eq!(provider.calls, Vec::new());
    assert_eq!(provider.commit_count(), 0);
}

#[test]
fn publication_file_write_is_staged_and_confirmed() {
    let fixture = Fixture::new();
    let file = publication_file(&fixture, "a", b"preview-a-bytes");
    let bundle = bundle(&[("index.html", b"index")]);
    let mut provider = FakeRepository::new();
    let mut ledger = empty_ledger();

    let report = execute(
        &fixture,
        &plan(vec![IntegrationOperation::WriteRepository(file.duplicate())]),
        &bundle,
        &mut provider,
        &mut ledger,
    )
    .unwrap();

    // The bytes staged remotely are exactly the publication file bytes.
    assert_eq!(
        provider.files["public/photos/preview/a.jpg"],
        b"preview-a-bytes"
    );
    assert_eq!(report.written, vec![file.path.duplicate()]);
    let entry = ledger.github_inventory.get("public/photos/preview/a.jpg").unwrap();
    assert_eq!(entry.status, OperationState::Confirmed);
    assert_eq!(entry.sha256, file.sha256);
    assert_eq!(fixture.durable_ledger(), ledger);
}

#[test]
fn mixed_bundle_and_publication_files_commit_once() {
    let fixture = Fixture::new();
    let preview_a = publication_file(&fixture, "a", b"preview-a");
    let preview_b = publication_file(&fixture, "b", b"preview-b");
    let gallery = DesiredRepositoryFile::new(
        RepositoryPath::new("gallery.json").unwrap(),
        sha256_bytes(b"{\"photos\":[]}"),
        13,
        RepositoryFileSource::BundleMember,
    )
    .unwrap();
    let bundle = bundle(&[
        ("index.html", b"index".as_slice()),
        ("gallery.json", b"{\"photos\":[]}".as_slice()),
    ] as &[(&str, &[u8])]);
    let mut provider = FakeRepository::new();
    provider.files.insert("old.txt".to_owned(), b"old".to_vec());
    let mut ledger = empty_ledger();
    ledger
        .record_github_file(
            &RepositoryPath::new("old.txt").unwrap(),
            digest("old"),
            BASE_REVISION.to_owned(),
            OperationState::Confirmed,
        )
        .unwrap();

    execute(
        &fixture,
        &plan(vec![
            IntegrationOperation::WriteRepository(desired_file("index.html", b"index")),
            IntegrationOperation::WriteRepository(preview_a),
            IntegrationOperation::WriteRepository(preview_b),
            IntegrationOperation::WriteRepository(gallery),
            IntegrationOperation::DeleteRepository {
                path: RepositoryPath::new("old.txt").unwrap(),
            },
        ]),
        &bundle,
        &mut provider,
        &mut ledger,
    )
    .unwrap();

    // One commit covered bundle members, publication files, and deletes.
    assert_eq!(provider.commit_count(), 1);
    assert_eq!(provider.files["public/photos/preview/a.jpg"], b"preview-a");
    assert_eq!(provider.files["public/photos/preview/b.jpg"], b"preview-b");
    assert_eq!(provider.files["gallery.json"], b"{\"photos\":[]}");
    assert!(!provider.files.contains_key("old.txt"));
    assert!(!ledger.github_inventory.contains_key("old.txt"));
}

#[test]
fn publication_file_missing_at_execution_fails_locally_without_remote_calls() {
    let fixture = Fixture::new();
    let file = publication_file(&fixture, "a", b"preview-a");
    fixture.remove("photos/preview/a.jpg");
    let bundle = bundle(&[("index.html", b"index")]);
    let mut provider = FakeRepository::new();
    let mut ledger = empty_ledger();

    let error = execute(
        &fixture,
        &plan(vec![IntegrationOperation::WriteRepository(file)]),
        &bundle,
        &mut provider,
        &mut ledger,
    )
    .unwrap_err();

    assert!(matches!(
        error,
        RepositoryExecutionError::LocalValidation { .. }
    ));
    assert_eq!(provider.calls, Vec::new());
    assert!(ledger.github_inventory.is_empty());
    assert!(!fixture.is_stored());
}

#[test]
fn publication_file_size_or_hash_mismatch_fails_locally_without_remote_calls() {
    for wrong in ["size", "sha"] {
        let fixture = Fixture::new();
        let mut file = publication_file(&fixture, "a", b"preview-a");
        if wrong == "size" {
            file.size_bytes += 1;
        } else {
            file.sha256 = digest("different content");
        }
        let bundle = bundle(&[("index.html", b"index")]);
        let mut provider = FakeRepository::new();
        let mut ledger = empty_ledger();

        let error = execute(
            &fixture,
            &plan(vec![IntegrationOperation::WriteRepository(file)]),
            &bundle,
            &mut provider,
            &mut ledger,
        )
        .unwrap_err();

        assert!(matches!(
            error,
            RepositoryExecutionError::LocalValidation { .. }
        ));
        assert_eq!(provider.calls, Vec::new());
        assert!(ledger.github_inventory.is_empty());
        assert!(!fixture.is_stored());
    }
}

#[test]
fn non_regular_publication_file_fails_locally_without_remote_calls() {
    let fixture = Fixture::new();
    let file = publication_file(&fixture, "a", b"preview-a");
    fixture
        .files
        .borrow_mut()
        .insert("photos/preview/a.jpg".to_owned(), Entry::Directory);
    let bundle = bundle(&[("index.html", b"index")]);
    let mut provider = FakeRepository::new();
    let mut ledger = empty_ledger();

    let error = execute(
        &fixture,
        &plan(vec![IntegrationOperation::WriteRepository(file)]),
        &bundle,
        &mut provider,
        &mut ledger,
    )
    .unwrap_err();

    assert!(matches!(
        error,
        RepositoryExecutionError::LocalValidation { .. }
    ));
    assert_eq!(provider.calls, Vec::new());
    assert!(!fixture.is_stored());
}

#[test]
fn publication_file_symlink_escape_fails_locally_without_remote_calls() {
    let fixture = Fixture::new();
    let file = publication_file(&fixture, "a", b"preview-a");
    fixture
        .files
        .borrow_mut()
        .insert("photos/preview/a.jpg".to_owned(), Entry::OutsideRoot);
    let bundle = bundle(&[("index.html", b"index")]);
    let mut provider = FakeRepository::new();
    let mut ledger = empty_ledger();

    let error = execute(
        &fixture,
        &plan(vec![IntegrationOperation::WriteRepository(file)]),
        &bundle,
        &mut provider,
        &mut ledger,
    )
    .unwrap_err();

    assert!(matches!(
        error,
        RepositoryExecutionError::LocalValidation { .. }
    ));
    assert_eq!(provider.calls, Vec::new());
    assert!(!fixture.is_stored());
}

#[test]
fn divergent_write_metadata_for_publication_file_rolls_back_without_commit() {
    for field in ["sha256", "size", "path"] {
        let fixture = Fixture::new();
        let file = publication_file(&fixture, "a", b"preview-a");
        let bundle = bundle(&[("index.html", b"index")]);
        let mut provider = FakeRepository::new();
        let mut divergent = FileMetadata {
            path: file.path.duplicate(),
            size_bytes: file.size_bytes,
            sha256: file.sha256.clone(),
        };
        match field {
            "sha256" => divergent.sha256 = digest("different"),
            "size" => divergent.size_bytes += 1,
            _ => divergent.path = RepositoryPath::new("other.txt").unwrap(),
        }
        provider.write_scripts.push_back(Ok(Some(divergent)));
        let mut ledger = empty_ledger();

        let error = execute(
            &fixture,
            &plan(vec![IntegrationOperation::WriteRepository(file)]),
            &bundle,
            &mut provider,
            &mut ledger,
        )
        .unwrap_err();

        // Divergent metadata: detected after the write; the batch is
        // never committed and the ledger rolls back (no commit happened).
        assert!(matches!(error, RepositoryExecutionError::Rejected(_)));
        assert_eq!(provider.commit_count(), 0);
        assert!(ledger.github_inventory.is_empty());
        assert_eq!(fixture.durable_ledger(), ledger);
    }
}

#[test]
fn delete_of_a_publication_file_needs_no_source_content() {
    let fixture = Fixture::new();
    let path = RepositoryPath::new("public/photos/preview/a.jpg").unwrap();
    let mut ledger = empty_ledger();
    ledger
        .record_github_file(
            &path,
            digest("preview-a"),
            BASE_REVISION.to_owned(),
            OperationState::Confirmed,
        )
        .unwrap();
    fixture.store(&ledger);
    let bundle = bundle(&[("index.html", b"index")]);
    let mut provider = FakeRepository::new();
    provider.files.insert(
        "public/photos/preview/a.jpg".to_owned(),
        b"preview-a".to_vec(),
    );

    execute(
        &fixture,
        &plan(vec![IntegrationOperation::DeleteRepository {
            path: path.duplicate(),
        }]),
        &bundle,
        &mut provider,
        &mut ledger,
    )
    .unwrap();

    assert!(!ledger
        .github_inventory
        .contains_key("public/photos/preview/a.jpg"));
    assert!(!provider.files.contains_key("public/photos/preview/a.jpg"));
}

#[test]
fn commit_failures_are_classified_by_whether_they_can_have_had_an_effect() {
    for error in [
        ProviderError::AuthenticationFailed,
        ProviderError::AuthenticationRequired,
        ProviderError::PermissionDenied,
        ProviderError::NotFound,
        ProviderError::Conflict,
        ProviderError::Other,
        ProviderError::InvalidKey("x".to_owned()),
        ProviderError::InvalidPath("x".to_owned()),
        ProviderError::AlreadyExists,
        ProviderError::Unsupported,
        ProviderError::Io("x".to_owned()),
    ] {
        assert_eq!(classify_commit_failure(&error), FailureKind::NoEffect);
    }
    for error in [ProviderError::Network, ProviderError::Integrity] {
        assert_eq!(classify_commit_failure(&error), FailureKind::Ambiguous);
    }
}

#[test]
fn repeated_path_in_a_batch_is_refused() {
    let fixture = Fixture::new();
    let bundle = bundle(&[("index.html", b"index")]);
    let file = desired_file("index.html", b"index");
    let mut provider = FakeRepository::new();
    let mut ledger = empty_ledger();
    let error = execute(
        &fixture,
        &plan(vec![
            IntegrationOperation::WriteRepository(file.duplicate()),
            IntegrationOperation::WriteRepository(file),
        ]),
        &bundle,
        &mut provider,
        &mut ledger,
    )
    .unwrap_err();
    assert!(matches!(
        error,
        RepositoryExecutionError::InconsistentPlan(_)
    ));
    assert_eq!(provider.calls, Vec::new());
}

#[test]
fn unpersisted_repository_pending_stages_nothing() {
    let bundle = bundle(&[("index.html", b"index")]);
    let plan = plan(vec![IntegrationOperation::WriteRepository(desired_file(
        "index.html",
        b"index",
    ))]);
    let executor = RepositoryExecutor::new(&plan, &bundle, empty_ledger())
        .unwrap()
        .handle(RepositoryEvent::Ensured(Ok(())));
    assert_eq!(
        executor.action(),
        RepositoryAction::Commit("photo-publisher publish g-000001".to_owned())
    );
    let executor = executor
        .handle(RepositoryEvent::Committed(Ok(CommitInfo {
            revision: BASE_REVISION.to_owned(),
            message: String::new(),
            changed_paths: Vec::new(),
        })))
        .handle(RepositoryEvent::NotPersisted {
            durable: Some(empty_ledger()),
            message: "disk full".to_owned(),
        });
    assert_eq!(executor.action(), RepositoryAction::Finished);
    let (ledger, result) = executor.finish();
    assert_eq!(ledger, empty_ledger());
    assert_eq!(
        result.unwrap_err().message(),
        "failed to persist the integration ledger: disk full"
    );
}

#[test]
fn an_ambiguous_deletion_keeps_the_recorded_digest() {
    let fixture = Fixture::new();
    let bundle = bundle(&[("b.txt", b"new")]);
    let path = RepositoryPath::new("a.txt").unwrap();
    let mut ledger = empty_ledger();
    ledger
        .record_github_file(
            &path,
            sha256_bytes(b"old"),
            "rev-0".to_owned(),
            OperationState::Confirmed,
        )
        .unwrap();
    fixture.store(&ledger);
    let mut provider = FakeRepository::new();
    provider.files.insert("a.txt".to_owned(), b"old".to_vec());
    provider
        .commit_scripts
        .push_back(CommitScript::Fail(ProviderError::Network));

    let error = execute(
        &fixture,
        &plan(vec![
            IntegrationOperation::WriteRepository(desired_file("b.txt", b"new")),
            IntegrationOperation::DeleteRepository {
                path: path.duplicate(),
            },
        ]),
        &bundle,
        &mut provider,
        &mut ledger,
    )
    .unwrap_err();

    assert!(matches!(error, RepositoryExecutionError::Ambiguous(_)));
    for (path, sha256) in [("a.txt", sha256_bytes(b"old")), ("b.txt", sha256_bytes(b"new"))] {
        let entry = ledger.github_inventory.get(path).unwrap();
        assert_eq!(entry.sha256, sha256);
        assert_eq!(entry.revision, BASE_REVISION);
        assert_eq!(entry.status, OperationState::Unknown);
    }
    assert_eq!(fixture.durable_ledger(), ledger);
}
