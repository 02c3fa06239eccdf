//! The integration ledger and the files it speaks of.

use photo_publisher::file_source::{
    open_validated_source, source_problem, FileObservation, SourceError, SourceRole,
};
use photo_publisher::inventory::{Duplicate, Inventory};
use photo_publisher::ledger::{
    GitHubInventoryEntry, IntegrationLedger, LedgerError, OperationState, R2InventoryEntry,
    VercelPublication,
};
use photo_publisher::paths::{ObjectKey, RepositoryPath};
use photo_publisher::provider::StorageObject;
use sha2::{Digest, Sha256};

fn sha(bytes: &[u8]) -> String {
    format!("{:x}", Sha256::digest(bytes))
}

fn digest(value: &str) -> String {
    sha(value.as_bytes())
}

fn new_ledger() -> IntegrationLedger {
    IntegrationLedger::new(
        digest("config"),
        "g-000001".to_owned(),
        digest("state"),
        digest("manifest"),
    )
    .unwrap()
}

fn object(key: &ObjectKey) -> StorageObject {
    StorageObject {
        key: key.duplicate(),
        size_bytes: 3,
        sha256: digest("jpg"),
        content_type: Some("image/jpeg".to_owned()),
    }
}

#[test]
fn ledger_round_trips_inventory_and_operation_states_atomically() {
    let mut ledger = new_ledger();
    let key = ObjectKey::new("originals/a.jpg").unwrap();
    ledger
        .record_r2_object(&key, &object(&key), OperationState::Pending)
        .unwrap();
    ledger
        .record_github_file(
            &RepositoryPath::new("public/photos/a.jpg").unwrap(),
            digest("preview"),
            "revision-1".to_owned(),
            OperationState::Confirmed,
        )
        .unwrap();
    ledger
        .record_vercel(digest("bundle"), OperationState::Unknown, None, None)
        .unwrap();
    assert_eq!(ledger.validate(), Ok(()));
    assert_eq!(ledger.clone(), ledger);

    ledger
        .record_vercel(
            digest("bundle"),
            OperationState::Confirmed,
            Some("dpl_1".to_owned()),
            Some("deployment.vercel.app".to_owned()),
        )
        .unwrap();
    assert_eq!(ledger.validate(), Ok(()));
    assert_eq!(ledger.clone(), ledger);
    assert_eq!(
        ledger.r2_inventory.get("originals/a.jpg"),
        Some(&R2InventoryEntry {
            size_bytes: 3,
            sha256: digest("jpg"),
            content_type: Some("image/jpeg".to_owned()),
            status: OperationState::Pending,
        })
    );
    assert_eq!(
        ledger.github_inventory.get("public/photos/a.jpg"),
        Some(&GitHubInventoryEntry {
            sha256: digest("preview"),
            revision: "revision-1".to_owned(),
            status: OperationState::Confirmed,
        })
    );
    assert_eq!(
        ledger.vercel,
        Some(VercelPublication {
            bundle_fingerprint: digest("bundle"),
            status: OperationState::Confirmed,
            deployment_id: Some("dpl_1".to_owned()),
            url: Some("deployment.vercel.app".to_owned()),
        })
    );
}

#[test]
fn ledger_detects_corruption_unknown_versions_and_avoids_secrets() {
    // The digest pins the text of the document, so what it does not hold is not
    // recorded.
    let text = format!(
        "{{\"configurationFingerprint\":\"{}\",\"githubInventory\":{{}},\
         \"localGeneration\":\"g-000001\",\"manifestHash\":\"{}\",\"r2Inventory\":{{}},\
         \"schemaVersion\":1,\"stateHash\":\"{}\",\"vercel\":null}}",
        digest("config"),
        digest("manifest"),
        digest("state")
    );
    assert_eq!(new_ledger().record_sha256, digest(&text));
    assert!(!text.contains("Authorization"));
    assert!(!text.contains("secret"));
    assert_ne!(
        new_ledger().record_sha256,
        digest(&text.replacen("g-000001", "g-corrupt", 1))
    );
    let mut corrupt = new_ledger();
    corrupt.local_generation = "g-corrupt".to_owned();
    assert_eq!(corrupt.validate(), Err(LedgerError::DigestMismatch));
    let mut version = new_ledger();
    version.schema_version = 999;
    assert_eq!(
        version.validate(),
        Err(LedgerError::UnsupportedSchemaVersion)
    );
}

#[test]
fn confirmed_vercel_publication_requires_deployment_identity() {
    let mut ledger = new_ledger();
    assert!(ledger
        .record_vercel(digest("bundle"), OperationState::Confirmed, None, None)
        .is_err());
    assert!(ledger.validate().is_ok());
}

#[test]
fn ledger_stays_schema_v1_without_storage_source_binding() {
    let key = ObjectKey::new("originals/photos/download/a.jpg").unwrap();
    let mut ledger = new_ledger();
    ledger
        .record_r2_object(&key, &object(&key), OperationState::Confirmed)
        .unwrap();
    assert_eq!(ledger.schema_version, 1);
    // The digest covers exactly these members, so no source path is kept.
    let text = format!(
        "{{\"configurationFingerprint\":\"{}\",\"githubInventory\":{{}},\
         \"localGeneration\":\"g-000001\",\"manifestHash\":\"{}\",\
         \"r2Inventory\":{{\"originals/photos/download/a.jpg\":\
         {{\"contentType\":\"image/jpeg\",\"sha256\":\"{}\",\"sizeBytes\":3,\
         \"status\":\"confirmed\"}}}},\"schemaVersion\":1,\"stateHash\":\"{}\",\"vercel\":null}}",
        digest("config"),
        digest("manifest"),
        digest("jpg"),
        digest("state")
    );
    assert_eq!(ledger.record_sha256, digest(&text));
    assert_eq!(
        ledger
            .r2_inventory
            .get("originals/photos/download/a.jpg")
            .unwrap()
            .sha256,
        digest("jpg")
    );
}

#[test]
fn invalid_headers_are_refused() {
    let new = |configuration: &str, generation: &str, state: &str, manifest: &str| {
        IntegrationLedger::new(
            configuration.to_owned(),
            generation.to_owned(),
            state.to_owned(),
            manifest.to_owned(),
        )
    };
    let valid = digest("x");
    assert_eq!(
        new("x", "g", &valid, &valid),
        Err(LedgerError::InvalidConfigurationFingerprint)
    );
    assert_eq!(
        new(&valid, "g", "x", &valid),
        Err(LedgerError::InvalidStateHash)
    );
    assert_eq!(
        new(&valid, "g", &valid, "x"),
        Err(LedgerError::InvalidManifestHash)
    );
    assert_eq!(
        new(&valid, " \t", &valid, &valid),
        Err(LedgerError::MissingGeneration)
    );
    assert!(new(&valid, "g", &valid, &valid).is_ok());
}

#[test]
fn refused_changes_leave_the_ledger_as_it_was() {
    let mut ledger = new_ledger();
    let before = ledger.clone();
    let key = ObjectKey::new("originals/a.jpg").unwrap();
    let other = ObjectKey::new("originals/b.jpg").unwrap();
    let path = RepositoryPath::new("index.html").unwrap();
    assert_eq!(
        ledger.record_r2_object(&key, &object(&other), OperationState::Pending),
        Err(LedgerError::KeyMismatch)
    );
    let mut wrong = object(&key);
    wrong.sha256 = "no digest".to_owned();
    assert_eq!(
        ledger.record_r2_object(&key, &wrong, OperationState::Pending),
        Err(LedgerError::InvalidStorageDigest)
    );
    let unrecorded = ledger.remove_r2_object(&key).unwrap_err();
    assert_eq!(
        unrecorded,
        LedgerError::UnrecordedStorageKey("originals/a.jpg".to_owned())
    );
    assert_eq!(
        unrecorded.message(),
        "R2 inventory does not contain key: originals/a.jpg"
    );
    assert_eq!(
        ledger.record_github_file(
            &path,
            "no digest".to_owned(),
            "r".to_owned(),
            OperationState::Pending
        ),
        Err(LedgerError::InvalidRepositoryDigest)
    );
    assert_eq!(
        ledger.record_github_file(
            &path,
            digest("x"),
            "  ".to_owned(),
            OperationState::Pending
        ),
        Err(LedgerError::MissingRevision)
    );
    let unrecorded = ledger.remove_github_file(&path).unwrap_err();
    assert_eq!(
        unrecorded,
        LedgerError::UnrecordedRepositoryPath("index.html".to_owned())
    );
    assert_eq!(
        unrecorded.message(),
        "GitHub inventory does not contain path: index.html"
    );
    assert_eq!(
        ledger.record_vercel("x".to_owned(), OperationState::Pending, None, None),
        Err(LedgerError::InvalidBundleFingerprint)
    );
    assert_eq!(
        ledger.record_vercel(digest("b"), OperationState::Confirmed, None, None),
        Err(LedgerError::IncompleteDeployment)
    );
    assert_eq!(
        ledger.remove_vercel(),
        Err(LedgerError::UnrecordedDeployment)
    );
    assert_eq!(
        ledger.adopt_publication(
            digest("config"),
            "g-000002".to_owned(),
            "x".to_owned(),
            digest("manifest")
        ),
        Err(LedgerError::InvalidStateHash)
    );
    assert_eq!(ledger, before);
}

#[test]
fn recording_and_removing_restores_the_ledger() {
    let mut ledger = new_ledger();
    let before = ledger.clone();
    let key = ObjectKey::new("originals/a.jpg").unwrap();
    ledger
        .record_r2_object(&key, &object(&key), OperationState::Pending)
        .unwrap();
    ledger.remove_r2_object(&key).unwrap();
    assert_eq!(ledger, before);
    let path = RepositoryPath::new("index.html").unwrap();
    ledger
        .record_github_file(
            &path,
            digest("x"),
            "r".to_owned(),
            OperationState::Unknown,
        )
        .unwrap();
    ledger.remove_github_file(&path).unwrap();
    assert_eq!(ledger, before);
    ledger
        .record_vercel(digest("b"), OperationState::Pending, None, None)
        .unwrap();
    ledger.remove_vercel().unwrap();
    assert_eq!(ledger, before);
}

#[test]
fn adoption_changes_the_header_only() {
    let mut ledger = new_ledger();
    let key = ObjectKey::new("originals/a.jpg").unwrap();
    ledger
        .record_r2_object(&key, &object(&key), OperationState::Confirmed)
        .unwrap();
    let before = ledger.clone();
    ledger
        .adopt_publication(
            digest("config 2"),
            "g-000002".to_owned(),
            digest("state 2"),
            digest("manifest 2"),
        )
        .unwrap();
    assert_eq!(ledger.local_generation, "g-000002");
    assert_eq!(ledger.r2_inventory, before.r2_inventory);
    assert_ne!(ledger.record_sha256, before.record_sha256);
    assert_eq!(ledger.validate(), Ok(()));
}

#[test]
fn inventory_keeps_its_keys_ascending() {
    let mut inventory: Inventory<R2InventoryEntry> = Inventory::new();
    let entry = |size_bytes: u64| R2InventoryEntry {
        size_bytes,
        sha256: digest("x"),
        content_type: None,
        status: OperationState::Pending,
    };
    for (key, size) in [("b", 1), ("a", 2), ("c", 3), ("b", 4)] {
        inventory.insert(key.to_owned(), entry(size));
    }
    assert_eq!(inventory.len(), 3);
    assert_eq!(inventory.key_at(0), "a");
    assert_eq!(inventory.key_at(1), "b");
    assert_eq!(inventory.key_at(2), "c");
    assert_eq!(inventory.value_at(1).size_bytes, 4);
    inventory.remove("a");
    assert!(!inventory.contains_key("a"));
    assert_eq!(inventory.len(), 2);
}

// ---------------------------------------------------------------------------
// Publication files
// ---------------------------------------------------------------------------
#[test]
fn valid_source_opens_rewound_and_verified() {
    let seen = FileObservation::of_content(13, b"preview-bytes");
    assert_eq!(
        open_validated_source(&seen, &sha(b"preview-bytes"), 13),
        Ok(())
    );
}

#[test]
fn missing_non_regular_and_wrong_size_or_hash_are_rejected() {
    let seen = FileObservation::of_content(3, b"abc");
    assert_eq!(
        open_validated_source(&FileObservation::Missing { cause: "not found".to_owned() }, &sha(b""), 0),
        Err(SourceError::Missing)
    );
    assert_eq!(
        open_validated_source(&seen, &sha(b"abc"), 4),
        Err(SourceError::WrongSize)
    );
    assert_eq!(
        open_validated_source(&seen, &sha(b"other"), 3),
        Err(SourceError::WrongDigest)
    );
    assert_eq!(
        open_validated_source(&FileObservation::NotRegular, &sha(b""), 0),
        Err(SourceError::NotRegular)
    );
    assert_eq!(
        open_validated_source(&FileObservation::of_content(4, b"abc"), &sha(b"abc"), 4),
        Err(SourceError::ChangedWhileRead)
    );
    assert_eq!(
        open_validated_source(
            &FileObservation::Unopened {
                declared_size: 3,
                cause: "denied".to_owned()
            },
            &sha(b"abc"),
            3
        ),
        Err(SourceError::Unopened)
    );
    assert_eq!(
        open_validated_source(&FileObservation::Unresolvable { cause: "cause".to_owned() }, &sha(b"abc"), 3),
        Err(SourceError::Unresolvable)
    );
}

#[test]
fn file_source_symlink_escape_is_rejected() {
    assert_eq!(
        open_validated_source(&FileObservation::OutsideRoot, &sha(b"outside"), 7),
        Err(SourceError::OutsideRoot)
    );
}

#[test]
fn source_problems_have_their_messages() {
    let seen = FileObservation::of_content(3, b"abc");
    assert_eq!(
        source_problem(SourceRole::SourceFile, "photos/a.jpg", &seen, &sha(b"abc"), 3),
        None
    );
    assert_eq!(
        source_problem(SourceRole::SourceFile, "photos/a.jpg", &seen, &sha(b"abc"), 12),
        Some("source file size 3 does not match the desired 12 bytes: photos/a.jpg".to_owned())
    );
    assert_eq!(
        source_problem(SourceRole::SourceFile, "photos/a.jpg", &seen, &sha(b"x"), 3),
        Some(format!(
            "source file SHA-256 {} does not match the desired {}: photos/a.jpg",
            sha(b"abc"),
            sha(b"x")
        ))
    );
    let problem = |role: SourceRole, seen: FileObservation| {
        source_problem(role, "photos/a.jpg", &seen, &sha(b"abc"), 3).unwrap()
    };
    assert_eq!(
        problem(
            SourceRole::SourceFile,
            FileObservation::Missing {
                cause: "not found".to_owned()
            }
        ),
        "source file does not exist: photos/a.jpg (not found)"
    );
    assert_eq!(
        problem(
            SourceRole::PublicationFile,
            FileObservation::Missing {
                cause: "not found".to_owned()
            }
        ),
        "publication file does not exist: photos/a.jpg: not found"
    );
    assert_eq!(
        problem(
            SourceRole::SourceFile,
            FileObservation::Unresolvable {
                cause: "loop".to_owned()
            }
        ),
        "failed to resolve source file: photos/a.jpg (loop)"
    );
    assert_eq!(
        problem(
            SourceRole::PublicationFile,
            FileObservation::Unopened {
                declared_size: 3,
                cause: "denied".to_owned()
            }
        ),
        "failed to open publication file: photos/a.jpg: denied"
    );
    assert_eq!(
        problem(
            SourceRole::SourceFile,
            FileObservation::Unhashed {
                declared_size: 3,
                cause: "reset".to_owned()
            }
        ),
        "failed to hash source file: photos/a.jpg (reset)"
    );
    let not_rewound = |sha256: String| FileObservation::NotRewound {
        declared_size: 3,
        bytes_read: 3,
        sha256,
        cause: "closed".to_owned(),
    };
    assert_eq!(
        problem(SourceRole::PublicationFile, not_rewound(sha(b"abc"))),
        "failed to rewind publication file: photos/a.jpg: closed"
    );
    assert_eq!(
        problem(SourceRole::PublicationFile, not_rewound(sha(b"x"))),
        format!(
            "publication file SHA-256 {} does not match the desired {}: photos/a.jpg",
            sha(b"x"),
            sha(b"abc")
        )
    );
}

#[test]
fn altered_ledgers_are_refused() {
    let key = ObjectKey::new("originals/a.jpg").unwrap();
    let mut sealed = new_ledger();
    sealed
        .record_r2_object(&key, &object(&key), OperationState::Pending)
        .unwrap();
    let refused = |change: &dyn Fn(&mut IntegrationLedger)| {
        let mut ledger = sealed.clone();
        assert_eq!(ledger.validate(), Ok(()));
        change(&mut ledger);
        assert_eq!(ledger.validate(), Err(LedgerError::DigestMismatch));
    };
    refused(&|ledger| ledger.configuration_fingerprint = digest("other"));
    refused(&|ledger| ledger.local_generation = "g-000002".to_owned());
    refused(&|ledger| ledger.state_hash = digest("other"));
    refused(&|ledger| ledger.manifest_hash = digest("other"));
    refused(&|ledger| ledger.r2_inventory = Inventory::new());
    refused(&|ledger| {
        ledger.vercel = Some(VercelPublication {
            bundle_fingerprint: digest("bundle"),
            status: OperationState::Pending,
            deployment_id: None,
            url: None,
        })
    });
    refused(&|ledger| ledger.record_sha256 = digest("other"));
}
