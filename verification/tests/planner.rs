//! Reconciliation plans and the desired state of a committed publication.

use photo_publisher::bundle::ApplicationBundle;
use photo_publisher::committed::{
    committed_high_resolution_objects, committed_preview_files, trimmed_prefix, CommittedError,
    CommittedOutput,
};
use photo_publisher::config::{HostingPublicationConfig, ProjectPublicationConfig};
use photo_publisher::file_source::FileObservation;
use photo_publisher::gallery::{ProcessedDimensions, SourcePhoto};
use photo_publisher::inventory::Duplicate;
use photo_publisher::journal::{JournalError, JournalPhase, JournalRecord};
use photo_publisher::ledger::{IntegrationLedger, LedgerError, OperationState};
use photo_publisher::manifest::{compose_application_bundle, ManifestError, PublicGalleryManifest};
use photo_publisher::paths::{ObjectKey, PublicationPath, PublicationPathError, RepositoryPath};
use photo_publisher::planner::{
    plan_reconciliation, DesiredPublication, DesiredRepositoryFile, DesiredStorageObject,
    IntegrationOperation, KnownRemoteState, LocalPublication, PlannerError,
    ReconciliationRequirement, RepositoryFileSource,
};
use photo_publisher::provider::StorageObject;
use photo_publisher::public_url::PublicBaseUrl;
use photo_publisher::publish::{build_local_gallery, PipelineOptions};
use photo_publisher::recovery::GalleryFile;
use sha2::{Digest, Sha256};
use std::collections::HashMap;

fn sha256_bytes(bytes: &[u8]) -> String {
    format!("{:x}", Sha256::digest(bytes))
}

fn digest(value: &str) -> String {
    sha256_bytes(value.as_bytes())
}

fn configuration() -> ProjectPublicationConfig {
    ProjectPublicationConfig {
        project_id: "project".to_owned(),
        bundle_directory: "site".to_owned(),
        repository_provider: "repository".to_owned(),
        repository: "owner/project".to_owned(),
        branch: Some("main".to_owned()),
        preview_prefix: Some("previews".to_owned()),
        preview_public_base_url: PublicBaseUrl::parse("https://cdn.example.com/previews").unwrap(),
        high_resolution_account_id: "account".to_owned(),
        high_resolution_bucket: Some("bucket".to_owned()),
        high_resolution_prefix: Some("originals".to_owned()),
        high_resolution_public_base_url: PublicBaseUrl::parse(
            "https://downloads.example.com/originals",
        )
        .unwrap(),
        hosting: HostingPublicationConfig::new("hosting-project".to_owned(), None).unwrap(),
    }
}

fn desired() -> DesiredPublication {
    let configuration = configuration();
    let bundle = ApplicationBundle::from_files(vec![
        ("assets/app.js".to_owned(), b"app".to_vec()),
        ("index.html".to_owned(), b"index".to_vec()),
    ])
    .unwrap();
    let mut desired = DesiredPublication::new(
        &configuration,
        LocalPublication::new("g-000001".to_owned(), digest("state"), digest("manifest")).unwrap(),
        &bundle,
    )
    .unwrap();
    desired
        .insert_storage_object(
            DesiredStorageObject::new(
                ObjectKey::new("originals/a.jpg").unwrap(),
                PublicationPath::new("photos/download/a.jpg").unwrap(),
                digest("a"),
                1,
                Some("image/jpeg".to_owned()),
            )
            .unwrap(),
        )
        .unwrap();
    desired
}

/// The ledger of a publication of which nothing is known remotely.
fn ledger_of(desired: &DesiredPublication) -> IntegrationLedger {
    IntegrationLedger::new(
        desired.configuration_fingerprint.clone(),
        desired.local.generation.clone(),
        desired.local.state_hash.clone(),
        desired.local.manifest_hash.clone(),
    )
    .unwrap()
}

fn known(desired: &DesiredPublication) -> KnownRemoteState {
    KnownRemoteState::from_ledger(&ledger_of(desired)).unwrap()
}

fn record_object(
    ledger: &mut IntegrationLedger,
    key: &str,
    sha256: String,
    size_bytes: u64,
    status: OperationState,
) {
    let key = ObjectKey::new(key).unwrap();
    ledger
        .record_r2_object(
            &key,
            &StorageObject {
                key: key.duplicate(),
                size_bytes,
                sha256,
                content_type: Some("image/jpeg".to_owned()),
            },
            status,
        )
        .unwrap();
}

fn record_file(ledger: &mut IntegrationLedger, path: &str, sha256: String, status: OperationState) {
    ledger
        .record_github_file(
            &RepositoryPath::new(path).unwrap(),
            sha256,
            "revision".to_owned(),
            status,
        )
        .unwrap();
}

#[test]
fn absent_remote_resources_produce_put_write_and_publish() {
    let desired = desired();
    let plan = plan_reconciliation(&desired, &known(&desired)).unwrap();
    assert_eq!(plan.reconciliation_requirements, Vec::new());
    assert!(matches!(
        plan.operations[0],
        IntegrationOperation::PutStorage(_)
    ));
    assert!(matches!(
        plan.operations[1],
        IntegrationOperation::WriteRepository(_)
    ));
    assert!(matches!(
        plan.operations[2],
        IntegrationOperation::WriteRepository(_)
    ));
    assert!(matches!(
        plan.operations[3],
        IntegrationOperation::PublishHosting { .. }
    ));
    assert_eq!(plan.operations.len(), 4);
}

#[test]
fn confirmed_matching_resources_are_skipped() {
    let desired = desired();
    let mut ledger = ledger_of(&desired);
    record_object(
        &mut ledger,
        "originals/a.jpg",
        digest("a"),
        1,
        OperationState::Confirmed,
    );
    for file in desired.repository_files() {
        record_file(
            &mut ledger,
            file.path.as_str(),
            file.sha256.clone(),
            OperationState::Confirmed,
        );
    }
    ledger
        .record_vercel(
            desired.bundle_fingerprint.clone(),
            OperationState::Confirmed,
            Some("deployment".to_owned()),
            Some("deployment.example.com".to_owned()),
        )
        .unwrap();
    let known = KnownRemoteState::from_ledger(&ledger).unwrap();
    assert!(plan_reconciliation(&desired, &known).unwrap().is_empty());
}

#[test]
fn changed_or_extra_resources_produce_explicit_updates_and_deletes() {
    let desired = desired();
    let mut ledger = ledger_of(&desired);
    record_object(
        &mut ledger,
        "originals/a.jpg",
        digest("old"),
        3,
        OperationState::Confirmed,
    );
    record_object(
        &mut ledger,
        "originals/removed.jpg",
        digest("removed"),
        7,
        OperationState::Confirmed,
    );
    let files = desired.repository_files();
    let first = files[0];
    record_file(
        &mut ledger,
        first.path.as_str(),
        digest("old"),
        OperationState::Confirmed,
    );
    record_file(
        &mut ledger,
        "assets/removed.js",
        digest("removed"),
        OperationState::Confirmed,
    );
    ledger
        .record_vercel(
            digest("old-bundle"),
            OperationState::Confirmed,
            Some("old".to_owned()),
            Some("old.example.com".to_owned()),
        )
        .unwrap();
    let known = KnownRemoteState::from_ledger(&ledger).unwrap();
    let plan = plan_reconciliation(&desired, &known).unwrap();
    assert!(plan
        .operations
        .iter()
        .any(|operation| matches!(operation, IntegrationOperation::PutStorage(_))));
    assert!(plan.operations.iter().any(|operation| matches!(operation, IntegrationOperation::DeleteStorage { key } if key.as_str() == "originals/removed.jpg")));
    assert!(plan.operations.iter().any(|operation| matches!(operation, IntegrationOperation::WriteRepository(file) if file.path == first.path)));
    assert!(plan.operations.iter().any(|operation| matches!(operation, IntegrationOperation::DeleteRepository { path } if path.as_str() == "assets/removed.js")));
    assert!(matches!(
        plan.operations.last(),
        Some(IntegrationOperation::PublishHosting { .. })
    ));
}

#[test]
fn pending_and_unknown_entries_require_reconciliation_without_retrying() {
    let desired = desired();
    let mut ledger = ledger_of(&desired);
    record_object(
        &mut ledger,
        "originals/a.jpg",
        digest("a"),
        1,
        OperationState::Pending,
    );
    let files = desired.repository_files();
    let first = files[0];
    record_file(
        &mut ledger,
        first.path.as_str(),
        first.sha256.clone(),
        OperationState::Pending,
    );
    ledger
        .record_vercel(
            desired.bundle_fingerprint.clone(),
            OperationState::Unknown,
            None,
            None,
        )
        .unwrap();
    let known = KnownRemoteState::from_ledger(&ledger).unwrap();
    let plan = plan_reconciliation(&desired, &known).unwrap();
    assert!(plan
        .reconciliation_requirements
        .iter()
        .any(|requirement| matches!(
            requirement,
            ReconciliationRequirement::StoragePending { .. }
        )));
    assert!(plan
        .reconciliation_requirements
        .iter()
        .any(|requirement| matches!(
            requirement,
            ReconciliationRequirement::RepositoryPending { .. }
        )));
    assert!(plan
        .reconciliation_requirements
        .iter()
        .any(|requirement| matches!(
            requirement,
            ReconciliationRequirement::HostingUnknown { .. }
        )));
    assert!(!plan
        .operations
        .iter()
        .any(|operation| matches!(operation, IntegrationOperation::PublishHosting { .. })));
    assert!(!plan.operations.iter().any(|operation| matches!(operation, IntegrationOperation::PutStorage(object) if object.key.as_str() == "originals/a.jpg")));
}

#[test]
fn unsettled_entries_that_are_not_desired_block_too() {
    let desired = desired();
    let mut ledger = ledger_of(&desired);
    record_object(
        &mut ledger,
        "originals/gone.jpg",
        digest("gone"),
        4,
        OperationState::Unknown,
    );
    record_file(
        &mut ledger,
        "gone.html",
        digest("gone"),
        OperationState::Unknown,
    );
    ledger
        .record_vercel(
            digest("other bundle"),
            OperationState::Pending,
            None,
            None,
        )
        .unwrap();
    let known = KnownRemoteState::from_ledger(&ledger).unwrap();
    let plan = plan_reconciliation(&desired, &known).unwrap();
    assert_eq!(
        plan.reconciliation_requirements,
        vec![
            ReconciliationRequirement::StorageUnknown {
                key: ObjectKey::new("originals/gone.jpg").unwrap()
            },
            ReconciliationRequirement::RepositoryUnknown {
                path: RepositoryPath::new("gone.html").unwrap()
            },
            ReconciliationRequirement::HostingPending {
                bundle_fingerprint: digest("other bundle")
            },
        ]
    );
    assert!(!plan.is_empty());
    assert!(!plan.operations.iter().any(|operation| matches!(
        operation,
        IntegrationOperation::DeleteStorage { .. } | IntegrationOperation::DeleteRepository { .. }
    )));
}

#[test]
fn planner_is_idempotent_and_ordered() {
    let desired = desired();
    let known = known(&desired);
    let first = plan_reconciliation(&desired, &known).unwrap();
    let second = plan_reconciliation(&desired, &known).unwrap();
    assert_eq!(first, second);
    let paths: Vec<_> = first
        .operations
        .iter()
        .filter_map(|operation| match operation {
            IntegrationOperation::WriteRepository(file) => Some(file.path.as_str()),
            _ => None,
        })
        .collect();
    assert_eq!(paths, vec!["assets/app.js", "index.html"]);
}

#[test]
fn changed_configuration_blocks_reconciliation() {
    let desired = desired();
    let mut known = known(&desired);
    known.configuration_fingerprint = digest("other configuration");
    let plan = plan_reconciliation(&desired, &known).unwrap();
    assert!(plan.operations.is_empty());
    assert_eq!(
        plan.reconciliation_requirements,
        vec![ReconciliationRequirement::ConfigurationChanged]
    );
}

#[test]
fn invalid_desired_state_is_refused() {
    let mut configuration = desired();
    configuration.configuration_fingerprint = "x".to_owned();
    let remote = known(&desired());
    assert_eq!(
        plan_reconciliation(&configuration, &remote),
        Err(PlannerError::InvalidConfigurationFingerprint)
    );
    let mut bundle = desired();
    bundle.bundle_fingerprint = "x".to_owned();
    assert_eq!(
        plan_reconciliation(&bundle, &remote),
        Err(PlannerError::InvalidBundleFingerprint)
    );
    let mut generation = desired();
    generation.local.generation = " ".to_owned();
    assert_eq!(generation.validate(), Err(PlannerError::MissingGeneration));
    assert_eq!(
        LocalPublication::new("g-000001".to_owned(), "x".to_owned(), digest("manifest")),
        Err(PlannerError::InvalidStateHash)
    );
    assert_eq!(
        LocalPublication::new("g-000001".to_owned(), digest("state"), "x".to_owned()),
        Err(PlannerError::InvalidManifestHash)
    );
    assert_eq!(
        DesiredStorageObject::new(
            ObjectKey::new("a").unwrap(),
            PublicationPath::new("photos/a.jpg").unwrap(),
            "x".to_owned(),
            1,
            None,
        ),
        Err(PlannerError::InvalidObjectHash)
    );
    assert_eq!(
        DesiredRepositoryFile::new(
            RepositoryPath::new("a").unwrap(),
            "x".to_owned(),
            1,
            RepositoryFileSource::BundleMember,
        ),
        Err(PlannerError::InvalidFileHash)
    );
    let mut twice = desired();
    assert_eq!(
        twice.insert_storage_object(
            DesiredStorageObject::new(
                ObjectKey::new("originals/a.jpg").unwrap(),
                PublicationPath::new("photos/b.jpg").unwrap(),
                digest("b"),
                1,
                None,
            )
            .unwrap()
        ),
        Err(PlannerError::DuplicateStorageKey)
    );
    assert_eq!(
        twice.insert_repository_file(
            DesiredRepositoryFile::new(
                RepositoryPath::new("index.html").unwrap(),
                digest("b"),
                1,
                RepositoryFileSource::BundleMember,
            )
            .unwrap()
        ),
        Err(PlannerError::DuplicateRepositoryPath)
    );
}

#[test]
fn local_publication_reads_committed_pipeline_artifacts() {
    let journal = JournalRecord::new(
        1,
        "g-000001".to_owned(),
        None,
        JournalPhase::Committed,
        digest("manifest"),
        digest("state"),
        ".publisher/staging/g-000001".to_owned(),
        ".publisher/backups/none".to_owned(),
        None,
        None,
    );
    assert_eq!(
        LocalPublication::from_output(
            &journal,
            &Some(b"manifest".to_vec()),
            &Some(b"state".to_vec())
        )
        .unwrap(),
        LocalPublication::new("g-000001".to_owned(), digest("state"), digest("manifest")).unwrap()
    );
    assert_eq!(
        LocalPublication::from_output(
            &journal,
            &Some(b"tampered".to_vec()),
            &Some(b"state".to_vec())
        ),
        Err(PlannerError::HashesDifferFromJournal)
    );
    let prepared = journal.with_phase(JournalPhase::StateInstalled);
    assert_eq!(
        LocalPublication::from_output(
            &prepared,
            &Some(b"manifest".to_vec()),
            &Some(b"state".to_vec())
        ),
        Err(PlannerError::NotCommitted)
    );
}

#[test]
fn known_remote_state_is_a_validated_projection_of_the_ledger() {
    let desired = desired();
    let mut ledger = ledger_of(&desired);
    record_object(
        &mut ledger,
        "originals/a.jpg",
        digest("a"),
        1,
        OperationState::Confirmed,
    );
    record_file(
        &mut ledger,
        "index.html",
        digest("index"),
        OperationState::Confirmed,
    );
    ledger
        .record_vercel(
            desired.bundle_fingerprint.clone(),
            OperationState::Unknown,
            None,
            None,
        )
        .unwrap();

    let known = KnownRemoteState::from_ledger(&ledger).unwrap();
    assert_eq!(known.storage_objects().len(), 1);
    assert_eq!(known.repository_files().len(), 1);
    assert_eq!(known.storage_objects()[0].0, "originals/a.jpg");
    assert_eq!(known.repository_files()[0].1.revision, "revision");
    assert_eq!(known.hosting.unwrap().status, OperationState::Unknown);

    ledger.record_sha256 = digest("corrupt");
    assert_eq!(
        KnownRemoteState::from_ledger(&ledger),
        Err(LedgerError::DigestMismatch)
    );
}

// ---------------------------------------------------------------------------
// Committed output
// ---------------------------------------------------------------------------
const ASSET_BYTES: &[u8] = b"committed download bytes";

fn download_url(sha: &str) -> String {
    format!("photos/download/{sha}.jpg")
}

fn bundle() -> ApplicationBundle {
    ApplicationBundle::from_files(vec![("index.html".to_owned(), b"index".to_vec())]).unwrap()
}

fn preview_url(sha: &str) -> String {
    format!("photos/preview/{sha}.jpg")
}

fn preview_bytes(sha: &str) -> Vec<u8> {
    format!("committed preview bytes {sha}").into_bytes()
}

fn stem(url: &str) -> &str {
    url.rsplit('/').next().unwrap().rsplit_once('.').unwrap().0
}

/// An output directory held in memory.
struct Output {
    journal: JournalRecord,
    gallery: Vec<u8>,
    state: Vec<u8>,
    sources: Vec<(String, String, u64)>,
    downloads: Vec<String>,
    previews: Vec<String>,
    files: HashMap<String, FileObservation>,
}

impl Output {
    fn write_asset(&mut self, url: &str, bytes: &[u8]) {
        self.files.insert(
            url.to_owned(),
            FileObservation::of_content(bytes.len() as u64, bytes),
        );
    }

    fn observe(&self, urls: &[String]) -> Vec<FileObservation> {
        urls.iter()
            .map(|url| match self.files.get(url) {
                Some(seen) => seen.copy(),
                None => FileObservation::Missing { cause: "not found".to_owned() },
            })
            .collect()
    }

    fn desired(
        &self,
        configuration: &ProjectPublicationConfig,
        bundle: &ApplicationBundle,
    ) -> Result<DesiredPublication, CommittedError> {
        let output = CommittedOutput {
            journal: self.journal.duplicate(),
            gallery: GalleryFile::new(self.gallery.clone()),
            state: self.state.clone(),
            sources: Some(
                self.sources
                    .iter()
                    .map(|(path, sha256, bytes)| SourcePhoto {
                        relative_path: path.clone(),
                        sha256: sha256.clone(),
                        bytes: *bytes,
                    })
                    .collect(),
            ),
        };
        DesiredPublication::from_committed_output(
            configuration,
            &output,
            &self.observe(&self.downloads),
            &self.observe(&self.previews),
            bundle,
        )
    }

    fn manifest(
        &self,
        configuration: &ProjectPublicationConfig,
    ) -> Result<PublicGalleryManifest, ManifestError> {
        PublicGalleryManifest::derive_from_committed_output(
            configuration,
            &self.journal,
            &Some(self.gallery.clone()),
            &Some(self.state.clone()),
        )
    }
}

fn photo_json(index: usize, preview: &str, download: &str) -> String {
    let download = download.replace('\\', "\\\\");
    let preview = preview.replace('\\', "\\\\");
    format!(
        r#"{{"id": "photo-{0}", "filename": "{0}.jpg", "sequence": {0},
            "preview": {{"url": "{preview}", "width": 1, "height": 1}},
            "download": {{"url": "{download}", "width": 1, "height": 1}}}}"#,
        index + 1
    )
}

fn committed(
    photos: Vec<(String, String)>,
    sources: Vec<(String, String, u64)>,
) -> Output {
    let photo_documents: Vec<String> = photos
        .iter()
        .enumerate()
        .map(|(index, (preview, download))| photo_json(index, preview, download))
        .collect();
    let gallery = format!(
        r#"{{"schemaVersion": 1, "gallery": {{"id": "gallery-local", "title": "Title"}},
            "photos": [{}]}}"#,
        photo_documents.join(", ")
    )
    .into_bytes();
    let state = format!("state of {} sources: {:?}", sources.len(), sources).into_bytes();
    Output {
        journal: JournalRecord::new(
            1,
            "g-000001".to_owned(),
            None,
            JournalPhase::Committed,
            sha256_bytes(&gallery),
            sha256_bytes(&state),
            ".publisher/staging/g-000001".to_owned(),
            ".publisher/backups/none".to_owned(),
            None,
            None,
        ),
        gallery,
        state,
        sources,
        downloads: photos.iter().map(|(_, download)| download.clone()).collect(),
        previews: photos.iter().map(|(preview, _)| preview.clone()).collect(),
        files: HashMap::new(),
    }
}

/// A committed publication whose journal, manifest, and state agree about the
/// recorded source (`state_sha`, `state_bytes`).
fn commit(urls: &[&str], state_sha: &str, state_bytes: u64) -> Output {
    let mut output = committed(
        urls.iter()
            .map(|url| (preview_url(stem(url)), (*url).to_owned()))
            .collect(),
        vec![("a.jpg".to_owned(), state_sha.to_owned(), state_bytes)],
    );
    for url in urls {
        output.write_asset(&preview_url(stem(url)), &preview_bytes(stem(url)));
    }
    output
}

/// A publication of several sources: each `(sha, bytes)` becomes one photo
/// whose download asset is a byte-exact copy of the source and whose preview is
/// a distinct byte string named after the source hash.
fn commit_multi(sources: &[(&str, &[u8])], preview_stem: Option<&str>) -> Output {
    let mut output = committed(
        sources
            .iter()
            .map(|(sha, _)| (preview_url(preview_stem.unwrap_or(sha)), download_url(sha)))
            .collect(),
        sources
            .iter()
            .enumerate()
            .map(|(index, (sha, bytes))| {
                (format!("{index}.jpg"), (*sha).to_owned(), bytes.len() as u64)
            })
            .collect(),
    );
    for (sha, bytes) in sources {
        output.write_asset(&download_url(sha), bytes);
        output.write_asset(
            &preview_url(preview_stem.unwrap_or(sha)),
            &preview_bytes(sha),
        );
    }
    output
}

/// A committed publication of one photo with its download in place.
fn one_photo() -> (Output, String, String) {
    let sha = sha256_bytes(ASSET_BYTES);
    let url = download_url(&sha);
    let mut output = commit(&[&url], &sha, ASSET_BYTES.len() as u64);
    output.write_asset(&url, ASSET_BYTES);
    (output, sha, url)
}

#[test]
fn committed_output_binds_each_download_to_its_publication_file() {
    let (output, sha, url) = one_photo();
    let desired = output.desired(&configuration(), &bundle()).unwrap();
    let objects = desired.storage_objects();
    assert_eq!(objects.len(), 1);
    let object = objects[0];
    assert_eq!(object.source_path.as_str(), url);
    assert_eq!(object.key.as_str(), format!("originals/{url}"));
    assert_eq!(object.sha256, sha);
    assert_eq!(object.size_bytes, ASSET_BYTES.len() as u64);
    assert_eq!(object.content_type, Some("image/jpeg".to_owned()));
}

#[test]
fn empty_prefix_uses_the_manifest_url_as_the_object_key() {
    let (output, _, url) = one_photo();
    let mut without_prefix = configuration();
    without_prefix.high_resolution_prefix = None;
    let desired = output.desired(&without_prefix, &bundle()).unwrap();
    let object = desired.storage_objects()[0];
    assert_eq!(object.key.as_str(), url);
    assert!(!object.key.as_str().contains("//"));

    let mut trailing = configuration();
    trailing.high_resolution_prefix = Some("originals/".to_owned());
    let desired = output.desired(&trailing, &bundle()).unwrap();
    let object = desired.storage_objects()[0];
    assert_eq!(object.key.as_str(), format!("originals/{url}"));
}

#[test]
fn missing_download_file_fails_the_binding() {
    let sha = sha256_bytes(ASSET_BYTES);
    let url = download_url(&sha);
    let output = commit(&[&url], &sha, ASSET_BYTES.len() as u64);
    assert_eq!(
        output.desired(&configuration(), &bundle()),
        Err(CommittedError::MissingFile)
    );
}

#[test]
fn download_hash_mismatch_fails_the_binding() {
    let declared = sha256_bytes(b"declared source");
    let url = download_url(&declared);
    let content = b"different bytes";
    let mut output = commit(&[&url], &declared, content.len() as u64);
    output.write_asset(&url, content);
    assert_eq!(
        output.desired(&configuration(), &bundle()),
        Err(CommittedError::DigestMismatch)
    );
}

#[test]
fn download_size_mismatch_fails_the_binding() {
    let sha = sha256_bytes(ASSET_BYTES);
    let url = download_url(&sha);
    let mut output = commit(&[&url], &sha, ASSET_BYTES.len() as u64 + 1);
    output.write_asset(&url, ASSET_BYTES);
    assert_eq!(
        output.desired(&configuration(), &bundle()),
        Err(CommittedError::SizeMismatch)
    );
}

#[test]
fn download_absent_from_publisher_state_fails_the_binding() {
    let sha = sha256_bytes(ASSET_BYTES);
    let url = download_url(&sha);
    let mut output = commit(
        &[&url],
        &sha256_bytes(b"another source"),
        ASSET_BYTES.len() as u64,
    );
    output.write_asset(&url, ASSET_BYTES);
    assert_eq!(
        output.desired(&configuration(), &bundle()),
        Err(CommittedError::UnknownSource)
    );
}

#[test]
fn publication_path_contract_rejects_absolute_urls_and_escapes() {
    for value in [
        "C:/Fotos/a.jpg",
        "C:\\Fotos\\a.jpg",
        "/photos/download/a.jpg",
        "https://example.com/a.jpg",
        "photos/../outside/a.jpg",
        "photos\\download\\a.jpg",
        "photos/download//a.jpg",
        "photos/../download/a.jpg",
        "outside/photos/download/a.jpg",
        "photos",
        "//server/share/a.jpg",
        "..",
        "photos/download/..jpg",
    ] {
        assert!(PublicationPath::new(value).is_err(), "accepted {value}");
    }
    for value in [
        "photos/download/abc123.jpg",
        "photos/download/1234567890abcdef.jpg",
    ] {
        assert!(PublicationPath::new(value).is_ok(), "rejected {value}");
    }
}

#[test]
fn absolute_escaping_and_backslashed_manifest_urls_fail_the_binding() {
    for url in [
        "https://example.com/a.jpg",
        "C:/Fotos/a.jpg",
        "/photos/download/a.jpg",
        "photos/../outside/a.jpg",
        "photos\\download\\a.jpg",
        "photos/download//a.jpg",
    ] {
        let sha = sha256_bytes(ASSET_BYTES);
        let output = commit(&[url], &sha, ASSET_BYTES.len() as u64);
        assert_eq!(
            output.desired(&configuration(), &bundle()),
            Err(CommittedError::InvalidPath(PublicationPathError::NotPortable)),
            "accepted {url}"
        );
    }
}

#[test]
fn planner_symlink_escape_is_rejected() {
    let (mut output, _, url) = one_photo();
    output.files.insert(url, FileObservation::OutsideRoot);
    assert_eq!(
        output.desired(&configuration(), &bundle()),
        Err(CommittedError::OutsideRoot)
    );
}

#[test]
fn duplicate_object_keys_fail_the_binding() {
    let sha = sha256_bytes(ASSET_BYTES);
    let url = download_url(&sha);
    let mut output = commit(
        &[url.as_str(), url.as_str()],
        &sha,
        ASSET_BYTES.len() as u64,
    );
    output.write_asset(&url, ASSET_BYTES);
    assert_eq!(
        output.desired(&configuration(), &bundle()),
        Err(CommittedError::Planner(PlannerError::DuplicateStorageKey))
    );
}

#[test]
fn from_committed_output_is_deterministic() {
    let (output, _, _) = one_photo();
    let first = output.desired(&configuration(), &bundle()).unwrap();
    let second = output.desired(&configuration(), &bundle()).unwrap();
    assert_eq!(first, second);
}

#[test]
fn confirmed_inventory_keeps_bound_objects_out_of_the_plan() {
    let (output, _, _) = one_photo();
    let desired = output.desired(&configuration(), &bundle()).unwrap();
    let mut ledger = ledger_of(&desired);
    for object in desired.storage_objects() {
        record_object(
            &mut ledger,
            object.key.as_str(),
            object.sha256.clone(),
            object.size_bytes,
            OperationState::Confirmed,
        );
    }
    let known = KnownRemoteState::from_ledger(&ledger).unwrap();
    let plan = plan_reconciliation(&desired, &known).unwrap();
    assert!(!plan
        .operations
        .iter()
        .any(|operation| matches!(operation, IntegrationOperation::PutStorage(_))));
}

#[test]
fn planned_high_resolution_puts_use_image_jpeg() {
    let (output, _, url) = one_photo();
    let desired = output.desired(&configuration(), &bundle()).unwrap();
    let plan = plan_reconciliation(&desired, &known(&desired)).unwrap();
    let puts: Vec<_> = plan
        .operations
        .iter()
        .filter_map(|operation| match operation {
            IntegrationOperation::PutStorage(object) => Some(object),
            _ => None,
        })
        .collect();
    assert_eq!(puts.len(), 1);
    assert_eq!(puts[0].content_type, Some("image/jpeg".to_owned()));
    assert_eq!(puts[0].source_path.as_str(), url);
}

#[test]
fn committed_output_binds_each_preview_to_its_repository_file() {
    let (output, sha, _) = one_photo();
    let desired = output.desired(&configuration(), &bundle()).unwrap();
    let files = desired.repository_files();
    let previews: Vec<_> = files
        .iter()
        .filter(|file| file.path.as_str().starts_with("previews/"))
        .collect();
    assert_eq!(previews.len(), 1);
    // Repository path = preview.prefix + local preview URL.
    assert_eq!(
        previews[0].path.as_str(),
        format!("previews/{}", preview_url(&sha))
    );
    // The desired sha256 is the hash of the preview bytes...
    assert_eq!(previews[0].sha256, sha256_bytes(&preview_bytes(&sha)));
    // ...deliberately not the source-hash stem: the pipeline re-encodes
    // previews, and the stem proves source membership instead.
    assert_ne!(previews[0].sha256, sha);
}

#[test]
fn empty_preview_prefix_places_previews_at_their_publication_path() {
    let (output, sha, _) = one_photo();
    let mut without_prefix = configuration();
    without_prefix.preview_prefix = None;
    let desired = output.desired(&without_prefix, &bundle()).unwrap();
    let files = desired.repository_files();
    let previews: Vec<_> = files
        .iter()
        .filter(|file| !file.path.as_str().starts_with("index"))
        .collect();
    assert_eq!(previews.len(), 1);
    assert_eq!(previews[0].path.as_str(), preview_url(&sha));
}

#[test]
fn unicode_preview_prefix_is_preserved_in_the_repository_path() {
    let (output, sha, _) = one_photo();
    let mut unicode = configuration();
    unicode.preview_prefix = Some("álbum público".to_owned());
    let desired = output.desired(&unicode, &bundle()).unwrap();
    let files = desired.repository_files();
    let previews: Vec<_> = files
        .iter()
        .filter(|file| file.path.as_str().starts_with('á'))
        .collect();
    assert_eq!(previews.len(), 1);
    assert_eq!(
        previews[0].path.as_str(),
        format!("álbum público/{}", preview_url(&sha))
    );
}

#[test]
fn missing_preview_file_fails_the_binding() {
    let (mut output, sha, _) = one_photo();
    output.files.remove(&preview_url(&sha));
    assert_eq!(
        output.desired(&configuration(), &bundle()),
        Err(CommittedError::MissingFile)
    );
}

#[test]
fn non_regular_preview_file_fails_the_binding() {
    let (mut output, sha, _) = one_photo();
    output
        .files
        .insert(preview_url(&sha), FileObservation::NotRegular);
    assert_eq!(
        output.desired(&configuration(), &bundle()),
        Err(CommittedError::NotRegular)
    );
}

#[test]
fn preview_from_an_unknown_source_fails_the_binding() {
    let sha = sha256_bytes(ASSET_BYTES);
    let foreign = sha256_bytes(b"foreign source");
    // The preview exists physically, but its stem names a source that is
    // not part of the committed publication.
    let output = commit_multi(&[(&sha, ASSET_BYTES)], Some(&foreign));
    assert_eq!(
        output.desired(&configuration(), &bundle()),
        Err(CommittedError::UnknownSource)
    );
}

#[test]
fn preview_symlink_escape_is_rejected() {
    let (mut output, sha, _) = one_photo();
    output
        .files
        .insert(preview_url(&sha), FileObservation::OutsideRoot);
    assert_eq!(
        output.desired(&configuration(), &bundle()),
        Err(CommittedError::OutsideRoot)
    );
}

#[test]
fn tampered_committed_output_fails_the_binding() {
    let (mut gallery, _, _) = one_photo();
    gallery.gallery.push(b' ');
    assert_eq!(
        gallery.desired(&configuration(), &bundle()),
        Err(CommittedError::Planner(
            PlannerError::HashesDifferFromJournal
        ))
    );
    assert!(gallery.manifest(&configuration()).is_err());
    let (mut journal, _, _) = one_photo();
    journal.journal = journal.journal.with_phase(JournalPhase::RolledBack);
    assert_eq!(
        journal.desired(&configuration(), &bundle()),
        Err(CommittedError::Planner(PlannerError::NotCommitted))
    );
    assert_eq!(
        journal.manifest(&configuration()),
        Err(ManifestError::Local(PlannerError::NotCommitted))
    );
}

#[test]
fn invalid_journals_are_refused() {
    let mut journal = JournalRecord::new(
        1,
        "g-000001".to_owned(),
        None,
        JournalPhase::Committed,
        digest("manifest"),
        digest("state"),
        ".publisher/staging/g-000001".to_owned(),
        ".publisher/backups/none".to_owned(),
        None,
        None,
    );
    journal.record_sha256 = digest("altered");
    assert_eq!(
        LocalPublication::from_output(
            &journal,
            &Some(b"manifest".to_vec()),
            &Some(b"state".to_vec())
        ),
        Err(PlannerError::InvalidJournal(JournalError::DigestMismatch))
    );

    let (mut output, _, _) = one_photo();
    let local = LocalPublication::from_output(
        &output.journal,
        &Some(output.gallery.clone()),
        &Some(output.state.clone()),
    )
    .unwrap();
    output.journal.record_sha256 = digest("altered");
    assert_eq!(
        output.desired(&configuration(), &bundle()),
        Err(CommittedError::Planner(PlannerError::InvalidJournal(
            JournalError::DigestMismatch
        )))
    );
    assert_eq!(
        output.manifest(&configuration()),
        Err(ManifestError::Local(PlannerError::InvalidJournal(
            JournalError::DigestMismatch
        )))
    );
    let committed = CommittedOutput {
        journal: output.journal.duplicate(),
        gallery: GalleryFile::new(output.gallery.clone()),
        state: output.state.clone(),
        sources: Some(Vec::new()),
    };
    assert_eq!(
        committed_high_resolution_objects(&configuration(), &local, &committed, &Vec::new()),
        Err(CommittedError::InvalidJournal(JournalError::DigestMismatch))
    );
    assert_eq!(
        committed_preview_files(&configuration(), &local, &committed, &Vec::new()),
        Err(CommittedError::InvalidJournal(JournalError::DigestMismatch))
    );
}

#[test]
fn trailing_slashes_of_a_prefix_are_dropped() {
    assert_eq!(trimmed_prefix(&Some("originals//".to_owned())), "originals");
    assert_eq!(trimmed_prefix(&Some("/".to_owned())), "");
    assert_eq!(trimmed_prefix(&None), "");
    let (output, _, url) = one_photo();
    let mut slashed = configuration();
    slashed.high_resolution_prefix = Some("originals/".to_owned());
    let desired = output.desired(&slashed, &bundle()).unwrap();
    assert_eq!(
        desired.storage_objects()[0].key.as_str(),
        format!("originals/{url}")
    );
}

#[test]
fn changed_files_fail_the_binding() {
    let (mut output, _, url) = one_photo();
    output.files.insert(
        url.clone(),
        FileObservation::of_content(ASSET_BYTES.len() as u64 + 1, ASSET_BYTES),
    );
    assert_eq!(
        output.desired(&configuration(), &bundle()),
        Err(CommittedError::ChangedWhileRead)
    );
    output.files.insert(url, FileObservation::Unresolvable { cause: "cause".to_owned() });
    assert_eq!(
        output.desired(&configuration(), &bundle()),
        Err(CommittedError::Unresolvable)
    );
}

#[test]
fn asset_names_are_source_digests_of_jpegs() {
    let sha = sha256_bytes(ASSET_BYTES);
    let bind = |preview: &str, download: &str| {
        let mut output = committed(
            vec![(preview.to_owned(), download.to_owned())],
            vec![("a.jpg".to_owned(), sha.clone(), ASSET_BYTES.len() as u64)],
        );
        output.write_asset(download, ASSET_BYTES);
        output.write_asset(preview, &preview_bytes(&sha));
        output.desired(&configuration(), &bundle())
    };
    for (download, error) in [
        ("photos/download/plain", CommittedError::NoExtension),
        ("photos/download/a.jpg", CommittedError::InvalidDigestName),
    ] {
        assert_eq!(bind(&preview_url(&sha), download), Err(error));
    }
    for (preview, error) in [
        ("photos/preview/plain", CommittedError::NoExtension),
        ("photos/preview/a.png", CommittedError::NotJpeg),
        ("photos/preview/a.jpg", CommittedError::InvalidDigestName),
    ] {
        assert_eq!(bind(preview, &download_url(&sha)), Err(error));
    }
    assert!(bind(&preview_url(&sha), &download_url(&sha)).is_ok());
}

#[test]
fn g1_to_g2_moves_previews_and_manifest_without_repeating_kept_content() {
    let template = bundle();
    let config = configuration();

    // G1: photos A and B fully published.
    let sha_a = sha256_bytes(b"source-a");
    let sha_b = sha256_bytes(b"source-b");
    let g1 = commit_multi(&[(&sha_a, b"source-a"), (&sha_b, b"source-b")], None);
    let manifest1 = g1.manifest(&config).unwrap();
    let bundle1 = compose_application_bundle(&template, &manifest1, true).unwrap();
    let desired1 = g1.desired(&config, &bundle1).unwrap();

    // The desired repository set: previews + gallery.json + template.
    let repo_paths: Vec<_> = desired1
        .repository_files()
        .iter()
        .map(|file| file.path.as_str().to_owned())
        .collect();
    assert!(repo_paths.contains(&format!("previews/{}", preview_url(&sha_a))));
    assert!(repo_paths.contains(&format!("previews/{}", preview_url(&sha_b))));
    assert!(repo_paths.contains(&"gallery.json".to_owned()));
    assert!(repo_paths.contains(&"index.html".to_owned()));

    // Ledger: everything from G1 is Confirmed.
    let mut ledger = ledger_of(&desired1);
    for object in desired1.storage_objects() {
        record_object(
            &mut ledger,
            object.key.as_str(),
            object.sha256.clone(),
            object.size_bytes,
            OperationState::Confirmed,
        );
    }
    for file in desired1.repository_files() {
        ledger
            .record_github_file(
                &file.path,
                file.sha256.clone(),
                "commit-01".to_owned(),
                OperationState::Confirmed,
            )
            .unwrap();
    }
    ledger
        .record_vercel(
            desired1.bundle_fingerprint.clone(),
            OperationState::Confirmed,
            Some("dpl-1".to_owned()),
            Some("g1.vercel.app".to_owned()),
        )
        .unwrap();
    let known = KnownRemoteState::from_ledger(&ledger).unwrap();

    // G1 already published: the plan is empty.
    assert!(plan_reconciliation(&desired1, &known).unwrap().is_empty());

    // G2: A stays, C arrives, B leaves.
    let sha_c = sha256_bytes(b"source-c");
    let g2 = commit_multi(&[(&sha_a, b"source-a"), (&sha_c, b"source-c")], None);
    let manifest2 = g2.manifest(&config).unwrap();
    let bundle2 = compose_application_bundle(&template, &manifest2, true).unwrap();
    assert_ne!(manifest1, manifest2);
    assert_ne!(bundle1.fingerprint(), bundle2.fingerprint());
    let desired2 = g2.desired(&config, &bundle2).unwrap();

    let plan = plan_reconciliation(&desired2, &known).unwrap();
    assert!(plan.reconciliation_requirements.is_empty());

    // Storage: C is uploaded, B is deleted, A is never touched.
    let puts: Vec<_> = plan
        .operations
        .iter()
        .filter_map(|operation| match operation {
            IntegrationOperation::PutStorage(object) => Some(object.key.as_str()),
            _ => None,
        })
        .collect();
    assert_eq!(puts, vec![format!("originals/{}", download_url(&sha_c))]);
    let deletes: Vec<_> = plan
        .operations
        .iter()
        .filter_map(|operation| match operation {
            IntegrationOperation::DeleteStorage { key } => Some(key.as_str()),
            _ => None,
        })
        .collect();
    assert_eq!(deletes, vec![format!("originals/{}", download_url(&sha_b))]);

    // Repository: preview C and the rewritten gallery.json are written;
    // preview B is deleted; preview A and the template are untouched.
    let writes: Vec<_> = plan
        .operations
        .iter()
        .filter_map(|operation| match operation {
            IntegrationOperation::WriteRepository(file) => Some(file),
            _ => None,
        })
        .collect();
    let write_paths: Vec<_> = writes.iter().map(|file| file.path.as_str()).collect();
    assert!(write_paths.contains(&format!("previews/{}", preview_url(&sha_c)).as_str()));
    assert!(write_paths.contains(&"gallery.json"));
    assert!(!write_paths.contains(&format!("previews/{}", preview_url(&sha_a)).as_str()));
    assert!(!write_paths.contains(&"index.html"));
    let gallery_write = writes
        .iter()
        .find(|file| file.path.as_str() == "gallery.json")
        .unwrap();
    assert_eq!(gallery_write.sha256, manifest2.sha256());
    let repo_deletes: Vec<_> = plan
        .operations
        .iter()
        .filter_map(|operation| match operation {
            IntegrationOperation::DeleteRepository { path } => Some(path.as_str()),
            _ => None,
        })
        .collect();
    assert_eq!(
        repo_deletes,
        vec![format!("previews/{}", preview_url(&sha_b))]
    );

    // Hosting: the fingerprint moved exactly because the manifest moved.
    let hosting: Vec<_> = plan
        .operations
        .iter()
        .filter_map(|operation| match operation {
            IntegrationOperation::PublishHosting { bundle_fingerprint } => {
                Some(bundle_fingerprint.clone())
            }
            _ => None,
        })
        .collect();
    assert_eq!(hosting, vec![bundle2.fingerprint().to_owned()]);

    // The public manifest of G2 references only A and C, never B.
    assert!(manifest2
        .as_str()
        .contains(&format!("photos/download/{sha_a}.jpg")));
    assert!(manifest2
        .as_str()
        .contains(&format!("photos/download/{sha_c}.jpg")));
    assert!(!manifest2.as_str().contains(&sha_b));
}

#[test]
fn bundle_files_are_bundle_members_and_previews_are_publication_files() {
    let (output, sha, _) = one_photo();
    let desired = output.desired(&configuration(), &bundle()).unwrap();

    let files = desired.repository_files();
    let index = files
        .iter()
        .find(|file| file.path.as_str() == "index.html")
        .unwrap();
    assert_eq!(index.source, RepositoryFileSource::BundleMember);
    assert_eq!(index.size_bytes, b"index".len() as u64);

    let preview = files
        .iter()
        .find(|file| file.path.as_str().starts_with("previews/"))
        .unwrap();
    assert_eq!(
        preview.source,
        RepositoryFileSource::PublicationFile {
            source_path: PublicationPath::new(&preview_url(&sha)).unwrap(),
        }
    );
    assert_eq!(preview.size_bytes, preview_bytes(&sha).len() as u64);
}

#[test]
fn built_galleries_can_be_published() {
    let contents: [&[u8]; 2] = [b"one", b"another"];
    let photos: Vec<(SourcePhoto, ProcessedDimensions)> = contents
        .iter()
        .enumerate()
        .map(|(index, bytes)| {
            (
                SourcePhoto {
                    relative_path: format!("álbum/{index}.jpg"),
                    sha256: sha256_bytes(bytes),
                    bytes: bytes.len() as u64,
                },
                ProcessedDimensions {
                    preview_width: 1,
                    preview_height: 1,
                    orig_width: 2,
                    orig_height: 2,
                },
            )
        })
        .collect();
    let options = PipelineOptions {
        source_dir: "source".to_owned(),
        output_dir: "output".to_owned(),
        project_title: "Título".to_owned(),
    };
    let state = b"state".to_vec();
    let built = build_local_gallery(&options, &photos, &state, None, &None, &None).unwrap();
    let shas: Vec<String> = contents.iter().map(|bytes| sha256_bytes(bytes)).collect();
    let mut output = Output {
        journal: built.plan.record,
        gallery: built.gallery_document,
        state,
        sources: photos
            .iter()
            .map(|(photo, _)| (photo.relative_path.clone(), photo.sha256.clone(), photo.bytes))
            .collect(),
        downloads: shas.iter().map(|sha| download_url(sha)).collect(),
        previews: shas.iter().map(|sha| preview_url(sha)).collect(),
        files: HashMap::new(),
    };
    for (sha, bytes) in shas.iter().zip(contents) {
        output.write_asset(&download_url(sha), bytes);
        output.write_asset(&preview_url(sha), &preview_bytes(sha));
    }

    let desired = output.desired(&configuration(), &bundle()).unwrap();
    let mut keys: Vec<String> = shas
        .iter()
        .map(|sha| format!("originals/{}", download_url(sha)))
        .collect();
    keys.sort();
    let objects: Vec<String> = desired
        .storage_objects()
        .iter()
        .map(|object| object.key.as_str().to_owned())
        .collect();
    assert_eq!(objects, keys);
    for sha in &shas {
        let path = format!("previews/{}", preview_url(sha));
        let file = desired
            .repository_files()
            .into_iter()
            .find(|file| file.path.as_str() == path)
            .unwrap();
        assert_eq!(file.sha256, sha256_bytes(&preview_bytes(sha)));
    }
    assert_eq!(
        desired.repository_files().len(),
        bundle().files().len() + shas.len()
    );

    let manifest = output.manifest(&configuration()).unwrap();
    for sha in &shas {
        assert!(manifest.as_str().contains(&format!(
            "https://cdn.example.com/previews/{}",
            preview_url(sha)
        )));
    }
}
