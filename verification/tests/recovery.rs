//! Local publication and recovery, on an output directory kept in memory.

use photo_publisher::gallery::{
    asset_path, photos_of, verify_gallery_assets, AssetError, AssetObservation,
    ProcessedDimensions, SourcePhoto,
};
use photo_publisher::inventory::Duplicate;
use photo_publisher::journal::{
    history_name, update_journal, ArtifactRecord, CandidateDecision, JournalError, JournalFile,
    JournalPhase, JournalRecord,
};
use photo_publisher::publish::{
    build_local_gallery, build_local_gallery_with_fault, publication_needed, BuiltPublication,
    PipelineOptions,
};
use photo_publisher::recovery::{
    can_be_followed, plan_backup, recover_publication, recover_publication_with_fault, recover_record,
    select_record, verify_backup_directory, ArtifactFile, BackupPlan, BackupSnapshot, GalleryFile,
    OutputSnapshot, RecoveryError, SelectedRecord, StagingSnapshot,
};
use photo_publisher::steps::{check_step, FaultPoint, PublicationPlan, PublicationStep, StepError};
use sha2::{Digest, Sha256};
use std::collections::{BTreeMap, HashMap};

const JPEG: &[u8] = b"a picture";
const CHANGED_JPEG: &[u8] = b"a picture, changed";

fn sha256_bytes(bytes: &[u8]) -> String {
    format!("{:x}", Sha256::digest(bytes))
}

#[derive(Debug, PartialEq, Eq)]
enum Failure {
    Journal(JournalError),
    Recovery(RecoveryError),
    Step(StepError),
    Assets(AssetError),
}

/// A pair of files with its record.
struct Pair {
    gallery: Vec<u8>,
    state: Vec<u8>,
    record: Option<(String, String, String)>,
}

impl Pair {
    fn artifact(&self) -> ArtifactFile {
        match &self.record {
            Some((generation, gallery, state)) => ArtifactFile::Read(ArtifactRecord::new(
                generation.clone(),
                gallery.clone(),
                state.clone(),
            )),
            None => ArtifactFile::Unreadable,
        }
    }
}

struct World {
    gallery: Option<Vec<u8>>,
    state: Option<Vec<u8>>,
    journal: JournalFile,
    candidate: JournalFile,
    history: BTreeMap<String, JournalRecord>,
    staging: HashMap<String, Pair>,
    backups: HashMap<String, Pair>,
    assets: HashMap<String, Vec<u8>>,
}

/// What a journal file with this record is read as.
fn journal_file(record: JournalRecord) -> JournalFile {
    match record.validate() {
        Ok(()) => JournalFile::Valid(record),
        Err(_) => JournalFile::Invalid,
    }
}

fn read(file: &JournalFile) -> Option<JournalRecord> {
    match file {
        JournalFile::Valid(record) => Some(record.duplicate()),
        _ => None,
    }
}

impl World {
    fn new() -> Self {
        Self {
            gallery: None,
            state: None,
            journal: JournalFile::Absent,
            candidate: JournalFile::Absent,
            history: BTreeMap::new(),
            staging: HashMap::new(),
            backups: HashMap::new(),
            assets: HashMap::new(),
        }
    }

    fn record(&self) -> JournalRecord {
        read(&self.journal).unwrap()
    }

    fn write_journal(&mut self, record: &JournalRecord) -> Result<(), Failure> {
        let archived = match &self.journal {
            JournalFile::Valid(old) => self
                .history
                .contains_key(&history_name(old.journal_sequence)),
            _ => false,
        };
        let update = update_journal(record, &self.journal, archived, &self.candidate)
            .map_err(Failure::Journal)?;
        if let Some(name) = update.archive {
            let old = self.record();
            self.history.insert(name, old);
        }
        if let CandidateDecision::Refuse(error) = update.candidate {
            return Err(Failure::Journal(error));
        }
        self.journal = JournalFile::Valid(record.duplicate());
        self.candidate = JournalFile::Absent;
        Ok(())
    }

    fn carry_out(&mut self, plan: &PublicationPlan) -> Result<(), Failure> {
        for step in &plan.steps {
            match step {
                PublicationStep::WriteJournal(record) => self.write_journal(record)?,
                PublicationStep::CreateBackup(generation) => {
                    let directory = plan.record.backup_directory.clone();
                    let plan = plan_backup(
                        self.backups.contains_key(&directory),
                        generation,
                        &self.gallery,
                        &self.state,
                    )
                    .map_err(Failure::Recovery)?;
                    if let BackupPlan::Create(record) = plan {
                        self.backups.insert(
                            directory.clone(),
                            Pair {
                                gallery: self.gallery.clone().unwrap(),
                                state: self.state.clone().unwrap(),
                                record: Some((
                                    record.generation,
                                    record.gallery_sha256,
                                    record.state_sha256,
                                )),
                            },
                        );
                    }
                    verify_backup_directory(&self.backup(&directory), generation)
                        .map_err(Failure::Recovery)?;
                }
                PublicationStep::InstallGallery(_) => {
                    self.gallery = Some(self.staging[&plan.record.staging_directory].gallery.clone())
                }
                PublicationStep::InstallState(_) => {
                    self.state = Some(self.staging[&plan.record.staging_directory].state.clone())
                }
                PublicationStep::RestoreGallery(_) => {
                    self.gallery = Some(self.backups[&plan.record.backup_directory].gallery.clone())
                }
                PublicationStep::RestoreState(_) => {
                    self.state = Some(self.backups[&plan.record.backup_directory].state.clone())
                }
                PublicationStep::VerifyActive(_, _) | PublicationStep::Fault(_) => {}
                PublicationStep::CleanStaging => {
                    self.staging.remove(&plan.record.staging_directory);
                }
            }
            check_step(step, &self.gallery, &self.state).map_err(Failure::Step)?;
        }
        Ok(())
    }

    fn observations(&self, gallery: &GalleryFile) -> Vec<AssetObservation> {
        let mut seen = Vec::new();
        let Some(photos) = gallery.document().and_then(photos_of) else {
            return seen;
        };
        for photo in photos {
            for key in ["preview", "download"] {
                seen.push(
                    match asset_path(photo, key).and_then(|path| self.assets.get(&path)) {
                        Some(bytes) => AssetObservation::of_file(bytes, Some((1, 1))),
                        None => AssetObservation::missing(),
                    },
                );
            }
        }
        seen
    }

    fn backup(&self, directory: &str) -> BackupSnapshot {
        match self.backups.get(directory) {
            Some(pair) => BackupSnapshot {
                gallery: Some(pair.gallery.clone()),
                state: Some(pair.state.clone()),
                record: pair.artifact(),
            },
            None => BackupSnapshot {
                gallery: None,
                state: None,
                record: ArtifactFile::Absent,
            },
        }
    }

    fn snapshot(&self, record: &JournalRecord) -> OutputSnapshot {
        let staging = match self.staging.get(&record.staging_directory) {
            Some(pair) => {
                let gallery = GalleryFile::new(pair.gallery.clone());
                StagingSnapshot {
                    directory: true,
                    conforms: true,
                    assets: self.observations(&gallery),
                    gallery: Some(gallery),
                    state: Some(pair.state.clone()),
                    state_readable: true,
                    record: pair.artifact(),
                }
            }
            None => StagingSnapshot {
                directory: false,
                conforms: true,
                assets: Vec::new(),
                gallery: None,
                state: None,
                state_readable: false,
                record: ArtifactFile::Absent,
            },
        };
        let gallery = self.gallery.clone().map(GalleryFile::new);
        OutputSnapshot {
            conforms: true,
            assets: match &gallery {
                Some(file) => self.observations(file),
                None => Vec::new(),
            },
            named_gallery: gallery,
            named_state: self.state.clone(),
            gallery: self.gallery.clone(),
            state: self.state.clone(),
            staging,
            backup: self.backup(&record.backup_directory),
        }
    }

    fn select(&self) -> Result<Option<SelectedRecord>, Failure> {
        let mut found = Vec::new();
        found.extend(read(&self.journal));
        found.extend(read(&self.candidate));
        found.extend(self.history.values().map(|record| record.duplicate()));
        select_record(found, self.gallery.is_some(), self.state.is_some())
            .map_err(Failure::Recovery)
    }

    fn recover_with_fault(
        &mut self,
        fault: Option<FaultPoint>,
    ) -> Result<Option<JournalRecord>, Failure> {
        let Some(selected) = self.select()? else {
            return Ok(None);
        };
        let output = self.snapshot(&selected.record);
        let plan = recover_publication_with_fault(selected.evidence, &output, fault)
            .map_err(Failure::Recovery)?
            .unwrap();
        self.carry_out(&plan)?;
        Ok(Some(plan.record))
    }

    fn recover(&mut self) -> Result<Option<JournalRecord>, Failure> {
        self.recover_with_fault(None)
    }

    fn publish(&mut self, built: BuiltPublication, state: Vec<u8>) -> Result<(), Failure> {
        let gallery = GalleryFile::new(built.gallery_document.clone());
        verify_gallery_assets(&built.gallery, &self.observations(&gallery))
            .map_err(Failure::Assets)?;
        let record = (
            built.generation.clone(),
            sha256_bytes(&built.gallery_document),
            sha256_bytes(&state),
        );
        self.staging.insert(
            format!(".publisher/staging/{}", built.generation),
            Pair {
                gallery: built.gallery_document,
                state,
                record: Some(record),
            },
        );
        self.carry_out(&built.plan)
    }

    fn build_with_fault(
        &mut self,
        photos: &[(&str, &[u8])],
        fault: Option<FaultPoint>,
    ) -> Result<(), Failure> {
        let recovered = self.recover()?;
        let state = format!("{photos:?}").into_bytes();
        let changes = usize::from(self.state.as_ref() != Some(&state) && !photos.is_empty());
        if !publication_needed(changes, self.gallery.is_some()) {
            return Ok(());
        }
        let mut processed = Vec::new();
        for (path, bytes) in photos {
            let sha256 = sha256_bytes(bytes);
            self.assets
                .insert(format!("photos/preview/{sha256}.jpg"), b"preview".to_vec());
            self.assets
                .insert(format!("photos/download/{sha256}.jpg"), bytes.to_vec());
            processed.push((
                SourcePhoto {
                    relative_path: (*path).to_owned(),
                    sha256,
                    bytes: bytes.len() as u64,
                },
                ProcessedDimensions {
                    preview_width: 1,
                    preview_height: 1,
                    orig_width: 1,
                    orig_height: 1,
                },
            ));
        }
        let built = match fault {
            None => build_local_gallery(
                &options(),
                &processed,
                &state,
                recovered.as_ref(),
                &self.gallery,
                &self.state,
            ),
            fault => build_local_gallery_with_fault(
                &options(),
                &processed,
                &state,
                recovered.as_ref(),
                &self.gallery,
                &self.state,
                fault,
            ),
        }
        .map_err(Failure::Journal)?;
        self.publish(built, state)
    }

    fn build(&mut self, photos: &[(&str, &[u8])]) -> Result<(), Failure> {
        self.build_with_fault(photos, None)
    }
}

fn options() -> PipelineOptions {
    PipelineOptions {
        source_dir: "source".to_owned(),
        output_dir: "output".to_owned(),
        project_title: "Recovery blockers".to_owned(),
    }
}

/// An output with one published photo.
fn published() -> World {
    let mut world = World::new();
    world.build(&[("photo.jpg", JPEG)]).unwrap();
    world
}

/// An output whose second generation failed at the fault.
fn interrupted(fault: FaultPoint) -> World {
    let mut world = published();
    assert_eq!(
        world.build_with_fault(&[("photo.jpg", CHANGED_JPEG)], Some(fault)),
        Err(Failure::Step(StepError::InjectedFault))
    );
    world
}

#[test]
fn test_build_empty_gallery() {
    let mut world = World::new();
    world.build(&[]).unwrap();
    assert!(world.gallery.is_some());
    assert!(world.state.is_some());
    assert_eq!(world.record().phase, JournalPhase::Committed);
    assert_eq!(world.record().generation, "g-000001");
}

#[test]
fn test_second_run_is_idempotent() {
    let mut world = published();
    let gallery = world.gallery.clone();
    let state = world.state.clone();
    let journal = world.record();
    world.build(&[("photo.jpg", JPEG)]).unwrap();
    assert_eq!(world.gallery, gallery);
    assert_eq!(world.state, state);
    assert_eq!(world.record(), journal);
}

#[test]
fn test_fault_after_gallery_replacement_recovers_previous_pair() {
    let mut world = published();
    let original_gallery = world.gallery.clone();
    let original_state = world.state.clone();
    assert!(world
        .build_with_fault(
            &[("photo.jpg", CHANGED_JPEG)],
            Some(FaultPoint::AfterGalleryReplacement)
        )
        .is_err());
    assert_ne!(world.gallery, original_gallery);
    world.recover().unwrap();
    assert_eq!(world.gallery, original_gallery);
    assert_eq!(world.state, original_state);
}

#[test]
fn every_fault_of_a_replacement_is_recovered() {
    let old = published();
    for (fault, phase) in [
        (FaultPoint::BeforeGalleryReplacement, JournalPhase::RolledBack),
        (FaultPoint::AfterGalleryReplacement, JournalPhase::RolledBack),
        (FaultPoint::BeforeGalleryJournal, JournalPhase::RolledBack),
        (FaultPoint::AfterGalleryJournal, JournalPhase::RolledBack),
        (FaultPoint::BeforeStateReplacement, JournalPhase::RolledBack),
        (FaultPoint::AfterStateReplacement, JournalPhase::Committed),
        (FaultPoint::BeforeStateJournal, JournalPhase::Committed),
        (FaultPoint::AfterStateJournal, JournalPhase::Committed),
        (FaultPoint::BeforeCommitted, JournalPhase::Committed),
        (FaultPoint::AfterCommitted, JournalPhase::Committed),
    ] {
        let mut world = interrupted(fault);
        let recovered = world.recover().unwrap().unwrap();
        assert_eq!(recovered.phase, phase, "after {fault:?}");
        assert_eq!(
            world.gallery == old.gallery && world.state == old.state,
            phase == JournalPhase::RolledBack
        );
        // Recovering once more changes nothing.
        let again = world.recover().unwrap().unwrap();
        assert_eq!(again, recovered);
    }
}

#[test]
fn test_journal_is_committed_and_staged_records_are_integrity_checked() {
    let world = published();
    assert_eq!(world.record().phase, JournalPhase::Committed);
    assert_eq!(
        world.history.keys().cloned().collect::<Vec<_>>(),
        vec![history_name(1), history_name(2), history_name(3)]
    );
}

#[test]
fn test_corrupted_journal_fails_without_touching_active_files() {
    let mut world = published();
    let gallery = world.gallery.clone();
    let state = world.state.clone();
    world.journal = JournalFile::Invalid;
    assert!(world.recover().is_err());
    assert_eq!(world.gallery, gallery);
    assert_eq!(world.state, state);
}

#[test]
fn test_invalid_journal_candidate_is_not_automatically_valid() {
    let mut world = published();
    world.candidate = JournalFile::Invalid;
    let recovered = world.recover().unwrap();
    assert_eq!(recovered.unwrap().phase, JournalPhase::Committed);
}

#[test]
fn recovery_does_not_promote_when_staging_is_missing() {
    let mut world = interrupted(FaultPoint::AfterStateReplacement);
    let staging = world.record().staging_directory;
    world.staging.remove(&staging).unwrap();
    let gallery = world.gallery.clone();
    let state = world.state.clone();
    assert_eq!(
        world.recover(),
        Err(Failure::Recovery(RecoveryError::StagingMissing))
    );
    assert_eq!(world.gallery, gallery);
    assert_eq!(world.state, state);
}

#[test]
fn recovery_does_not_promote_when_staged_record_is_corrupted() {
    let mut world = interrupted(FaultPoint::AfterStateReplacement);
    let staging = world.record().staging_directory;
    world.staging.get_mut(&staging).unwrap().record = None;
    assert_eq!(
        world.recover(),
        Err(Failure::Recovery(RecoveryError::StagedRecordInvalid))
    );
}

#[test]
fn recovery_promotes_when_staging_and_active_hashes_are_coherent() {
    let mut world = interrupted(FaultPoint::AfterStateReplacement);
    assert_eq!(
        world.recover().unwrap().unwrap().phase,
        JournalPhase::Committed
    );
}

#[test]
fn committed_external_gallery_change_is_an_error_without_rollback() {
    let mut world = published();
    world.gallery = Some(b"external gallery".to_vec());
    assert_eq!(
        world.recover(),
        Err(Failure::Recovery(RecoveryError::CommittedMismatch))
    );
    assert_eq!(world.gallery, Some(b"external gallery".to_vec()));
}

#[test]
fn committed_external_state_change_is_an_error_without_rollback() {
    let mut world = published();
    world.state = Some(b"external state".to_vec());
    assert_eq!(
        world.recover(),
        Err(Failure::Recovery(RecoveryError::CommittedMismatch))
    );
    assert_eq!(world.state, Some(b"external state".to_vec()));
}

#[test]
fn committed_both_external_changes_are_not_rolled_back() {
    let mut world = published();
    world.gallery = Some(b"external gallery".to_vec());
    world.state = Some(b"external state".to_vec());
    assert!(world.recover().is_err());
    assert_eq!(world.gallery, Some(b"external gallery".to_vec()));
    assert_eq!(world.state, Some(b"external state".to_vec()));
}

#[test]
fn partial_restore_is_detected_and_completed_on_next_recovery() {
    let before = published();
    let old_gallery = before.gallery.clone();
    let old_state = before.state.clone();
    let mut world = interrupted(FaultPoint::AfterStateReplacement);
    world.gallery = old_gallery.clone();
    assert_eq!(
        world.recover_with_fault(Some(FaultPoint::BeforeRestoreState)),
        Err(Failure::Step(StepError::InjectedFault))
    );
    assert_eq!(world.gallery, old_gallery);
    assert_ne!(world.state, old_state);
    assert_eq!(
        world.recover().unwrap().unwrap().phase,
        JournalPhase::RolledBack
    );
    assert_eq!(world.gallery, old_gallery);
    assert_eq!(world.state, old_state);
}

#[test]
fn valid_new_journal_with_incoherent_staging_is_rejected() {
    let mut world = published();
    let mut candidate = world.record();
    candidate.journal_sequence += 1;
    candidate.phase = JournalPhase::StateInstalled;
    candidate.staging_directory = ".publisher/staging/missing-generation".into();
    candidate.record_sha256 = candidate.compute_record_sha256();
    world.candidate = journal_file(candidate);
    assert!(world.recover().is_err());
}

fn prepare_rolled_back_publication() -> (World, Option<Vec<u8>>, Option<Vec<u8>>) {
    let before = published();
    let mut world = interrupted(FaultPoint::AfterGalleryReplacement);
    assert_eq!(
        world.recover().unwrap().unwrap().phase,
        JournalPhase::RolledBack
    );
    (world, before.gallery, before.state)
}

#[test]
fn rolled_back_with_correct_active_pair_is_accepted() {
    let (mut world, old_gallery, old_state) = prepare_rolled_back_publication();
    assert_eq!(world.gallery, old_gallery);
    assert_eq!(world.state, old_state);
    assert_eq!(
        world.recover().unwrap().unwrap().phase,
        JournalPhase::RolledBack
    );
}

#[test]
fn rolled_back_with_incorrect_active_files_is_rejected() {
    for corrupt_gallery in [true, false] {
        let (mut world, old_gallery, old_state) = prepare_rolled_back_publication();
        if corrupt_gallery {
            world.gallery = Some(b"wrong gallery".to_vec());
        } else {
            world.state = Some(b"wrong state".to_vec());
        }
        assert_eq!(
            world.recover(),
            Err(Failure::Recovery(RecoveryError::ActiveDiffersFromPrevious))
        );
        if corrupt_gallery {
            assert_eq!(world.gallery, Some(b"wrong gallery".to_vec()));
            assert_eq!(world.state, old_state);
        } else {
            assert_eq!(world.gallery, old_gallery);
            assert_eq!(world.state, Some(b"wrong state".to_vec()));
        }
    }
}

#[test]
fn intermediate_generation_requires_intact_backup_for_promotion() {
    for corrupt in [false, true] {
        let mut world = interrupted(FaultPoint::AfterStateReplacement);
        let backup = world.record().backup_directory;
        if corrupt {
            world.backups.get_mut(&backup).unwrap().gallery = b"corrupted backup".to_vec();
        } else {
            world.backups.remove(&backup).unwrap();
        }
        assert!(world.recover().is_err());
    }
}

#[test]
fn duplicate_journal_sequence_is_an_ambiguity_error() {
    let mut world = published();
    let mut duplicate = world.record();
    duplicate.generation = "g-999999".into();
    duplicate.record_sha256 = duplicate.compute_record_sha256();
    assert_eq!(duplicate.validate(), Ok(()));
    world.history.insert("ambiguous.json".to_owned(), duplicate);
    assert_eq!(
        world.recover(),
        Err(Failure::Recovery(RecoveryError::AmbiguousSequence))
    );
}

#[test]
fn different_existing_journal_candidate_is_not_overwritten() {
    let mut world = published();
    let mut candidate = world.record();
    candidate.journal_sequence += 1;
    candidate.generation = "g-999999".into();
    candidate.record_sha256 = candidate.compute_record_sha256();
    let original = candidate.duplicate();
    world.candidate = JournalFile::Valid(candidate);
    let current = world.record();
    assert_eq!(
        world.write_journal(&current),
        Err(Failure::Journal(JournalError::DifferentCandidate))
    );
    assert_eq!(world.candidate, JournalFile::Valid(original));
}

#[test]
fn unreadable_existing_journal_candidate_is_not_overwritten() {
    let mut world = published();
    world.candidate = JournalFile::Invalid;
    let current = world.record();
    assert_eq!(
        world.write_journal(&current),
        Err(Failure::Journal(JournalError::InvalidCandidate))
    );
    assert_eq!(world.candidate, JournalFile::Invalid);
}

#[test]
fn equivalent_existing_journal_candidate_is_reused_deterministically() {
    let mut world = published();
    let journal = world.record();
    world.candidate = JournalFile::Valid(journal.duplicate());
    world.write_journal(&journal).unwrap();
    assert_eq!(world.record(), journal);
}

#[test]
fn initial_publication_after_gallery_replacement_is_completed() {
    let mut world = World::new();
    assert!(world
        .build_with_fault(
            &[("photo.jpg", JPEG)],
            Some(FaultPoint::AfterGalleryReplacement)
        )
        .is_err());
    assert_eq!(world.record().phase, JournalPhase::Prepared);
    assert_eq!(
        world.recover().unwrap().unwrap().phase,
        JournalPhase::Committed
    );
    assert!(world.gallery.is_some());
    assert!(world.state.is_some());
}

#[test]
fn initial_publication_before_any_replacement_is_rolled_back() {
    let mut world = World::new();
    assert!(world
        .build_with_fault(
            &[("photo.jpg", JPEG)],
            Some(FaultPoint::BeforeGalleryReplacement)
        )
        .is_err());
    assert_eq!(
        world.recover().unwrap().unwrap().phase,
        JournalPhase::RolledBack
    );
    assert!(world.gallery.is_none());
    assert!(world.state.is_none());
}

#[test]
fn later_orphan_candidate_cannot_supplant_committed_generation() {
    let mut world = published();
    let current = world.record();
    let gallery = world.gallery.clone().unwrap();
    let state = world.state.clone().unwrap();
    world.staging.insert(
        ".publisher/staging/g-999999".to_owned(),
        Pair {
            gallery,
            state,
            record: Some((
                "g-999999".to_owned(),
                current.gallery_sha256.clone(),
                current.state_sha256.clone(),
            )),
        },
    );
    let mut orphan = current.duplicate();
    orphan.journal_sequence += 1;
    orphan.generation = "g-999999".into();
    orphan.previous_generation = None;
    orphan.phase = JournalPhase::StateInstalled;
    orphan.staging_directory = ".publisher/staging/g-999999".into();
    orphan.backup_directory = ".publisher/backups/none".into();
    orphan.previous_gallery_sha256 = None;
    orphan.previous_state_sha256 = None;
    orphan.record_sha256 = orphan.compute_record_sha256();
    world.candidate = journal_file(orphan);
    let gallery = world.gallery.clone();
    assert_eq!(
        world.recover(),
        Err(Failure::Recovery(RecoveryError::OrphanedCandidate))
    );
    assert_eq!(world.gallery, gallery);
}

#[test]
fn corrupted_published_download_is_rejected_by_recovery() {
    let mut world = published();
    let url = format!("photos/download/{}.jpg", sha256_bytes(JPEG));
    world.assets.insert(url, b"corrupt asset".to_vec());
    assert_eq!(
        world.recover(),
        Err(Failure::Recovery(RecoveryError::Assets(
            AssetError::WrongDigest
        )))
    );
}

#[test]
fn malformed_previous_hashes_return_error_without_panic() {
    let mut world = published();
    let mut malformed = world.record();
    malformed.journal_sequence += 1;
    malformed.generation = "g-000002".into();
    malformed.previous_generation = Some("g-000001".into());
    malformed.previous_gallery_sha256 = None;
    malformed.previous_state_sha256 = None;
    malformed.phase = JournalPhase::StateInstalled;
    malformed.record_sha256 = malformed.compute_record_sha256();
    world.journal = journal_file(malformed);
    let gallery = world.gallery.clone();
    assert!(world.recover().is_err());
    assert_eq!(world.gallery, gallery);
}

#[test]
fn active_files_without_a_journal_are_not_trusted() {
    let mut world = World::new();
    assert_eq!(world.recover(), Ok(None));
    world.gallery = Some(b"gallery".to_vec());
    assert_eq!(
        world.recover(),
        Err(Failure::Recovery(RecoveryError::IncompleteInitial))
    );
    world.state = Some(b"state".to_vec());
    assert_eq!(
        world.recover(),
        Err(Failure::Recovery(RecoveryError::UntrustedActiveFiles))
    );
}

#[test]
fn generations_count_up() {
    let mut world = published();
    world.build(&[("photo.jpg", CHANGED_JPEG)]).unwrap();
    assert_eq!(world.record().generation, "g-000002");
    assert_eq!(
        world.record().previous_generation,
        Some("g-000001".to_owned())
    );
    assert_eq!(world.record().backup_directory, ".publisher/backups/g-000001");
    world.build(&[("photo.jpg", JPEG)]).unwrap();
    assert_eq!(world.record().generation, "g-000003");
}

#[test]
fn journal_hash_is_deterministic_without_self_reference() {
    let record = JournalRecord::new(
        1,
        "g-000001".into(),
        None,
        JournalPhase::Prepared,
        "a".repeat(64),
        "b".repeat(64),
        ".publisher/staging/g-000001".into(),
        ".publisher/backups/none".into(),
        None,
        None,
    );
    assert_eq!(record.record_sha256, record.compute_record_sha256());
    // The digest is that of the record's JSON without the digest itself.
    let text = format!(
        "{{\"backupDirectory\":\".publisher/backups/none\",\"galleryPath\":\"gallery.json\",\
         \"gallerySha256\":\"{}\",\"generation\":\"g-000001\",\"journalSequence\":1,\
         \"phase\":\"PREPARED\",\"previousGallerySha256\":null,\"previousGeneration\":null,\
         \"previousStateSha256\":null,\"schemaVersion\":1,\
         \"stagingDirectory\":\".publisher/staging/g-000001\",\
         \"statePath\":\".publisher/state.json\",\"stateSha256\":\"{}\"}}",
        "a".repeat(64),
        "b".repeat(64)
    );
    assert_eq!(record.record_sha256, sha256_bytes(text.as_bytes()));
}

#[test]
fn previous_generation_requires_both_previous_hashes() {
    for (gallery, state) in [
        (None, None),
        (Some("a".repeat(64)), None),
        (None, Some("b".repeat(64))),
    ] {
        let mut record = JournalRecord::new(
            2,
            "g-000002".into(),
            Some("g-000001".into()),
            JournalPhase::StateInstalled,
            "c".repeat(64),
            "d".repeat(64),
            ".publisher/staging/g-000002".into(),
            ".publisher/backups/g-000001".into(),
            gallery,
            state,
        );
        record.record_sha256 = record.compute_record_sha256();
        assert!(record.validate().is_err());
    }
}

#[test]
fn backups_are_made_once_and_of_a_whole_pair() {
    let gallery = Some(b"gallery".to_vec());
    let state = Some(b"state".to_vec());
    assert_eq!(
        plan_backup(true, "g-000001", &None, &None),
        Ok(BackupPlan::Reuse)
    );
    assert_eq!(
        plan_backup(false, "g-000001", &gallery, &state),
        Ok(BackupPlan::Create(ArtifactRecord::new(
            "g-000001".to_owned(),
            sha256_bytes(b"gallery"),
            sha256_bytes(b"state"),
        )))
    );
    assert_eq!(
        plan_backup(false, "g-000001", &gallery, &None),
        Err(RecoveryError::NoActivePair)
    );
    assert_eq!(
        plan_backup(false, "g-000001", &None, &state),
        Err(RecoveryError::NoActivePair)
    );
}

#[test]
fn written_galleries_are_read_back() {
    let photos = vec![(
        SourcePhoto {
            relative_path: "álbum/\"photo\".jpg".to_owned(),
            sha256: sha256_bytes(JPEG),
            bytes: JPEG.len() as u64,
        },
        ProcessedDimensions {
            preview_width: 2,
            preview_height: 1,
            orig_width: 4,
            orig_height: 2,
        },
    )];
    let built =
        build_local_gallery(&options(), &photos, &b"state".to_vec(), None, &None, &None).unwrap();
    assert_eq!(built.generation, "g-000001");
    let file = GalleryFile::new(built.gallery_document);
    assert_eq!(file.document(), Some(&built.gallery));
}

#[test]
fn generations_run_out() {
    let committed = |generation: &str| {
        JournalRecord::new(
            1,
            generation.to_owned(),
            None,
            JournalPhase::Committed,
            "a".repeat(64),
            "b".repeat(64),
            format!(".publisher/staging/{generation}"),
            ".publisher/backups/none".to_owned(),
            None,
            None,
        )
    };
    let built = |last: &JournalRecord| {
        build_local_gallery(&options(), &Vec::new(), &b"state".to_vec(), Some(last), &None, &None)
    };
    assert_eq!(
        built(&committed("g-999998")).unwrap().generation,
        "g-999999"
    );
    assert_eq!(
        built(&committed("g-999999")).err(),
        Some(JournalError::InvalidArtifactRecord)
    );
}

#[test]
fn recovery_starts_from_the_latest_valid_record() {
    let world = interrupted(FaultPoint::AfterStateReplacement);
    let selected = world.select().unwrap().unwrap();
    let newest = world.record();
    assert_eq!(selected.record, newest);
    let output = world.snapshot(&newest);
    let planned = recover_record(&newest, &selected.evidence, &output, None).unwrap();
    let mut damaged = newest.duplicate();
    damaged.journal_sequence += 1;
    let mut found: Vec<JournalRecord> = vec![damaged];
    found.extend(selected.evidence);
    assert_eq!(recover_publication(found, &output), Ok(Some(planned)));
}

#[test]
fn recovery_without_records_needs_an_empty_output() {
    let world = published();
    let recovered = |gallery: bool, state: bool| {
        let mut output = world.snapshot(&world.record());
        if !gallery {
            output.gallery = None;
        }
        if !state {
            output.state = None;
        }
        recover_publication(Vec::new(), &output)
    };
    assert_eq!(recovered(false, false), Ok(None));
    assert_eq!(
        recovered(true, false),
        Err(RecoveryError::IncompleteInitial)
    );
    assert_eq!(
        recovered(false, true),
        Err(RecoveryError::IncompleteInitial)
    );
    assert_eq!(
        recovered(true, true),
        Err(RecoveryError::UntrustedActiveFiles)
    );
}

#[test]
fn every_fault_is_recovered_to_a_whole_pair() {
    let faults = [
        (FaultPoint::BeforeGalleryReplacement, JournalPhase::RolledBack),
        (FaultPoint::AfterGalleryReplacement, JournalPhase::RolledBack),
        (FaultPoint::BeforeGalleryJournal, JournalPhase::RolledBack),
        (FaultPoint::AfterGalleryJournal, JournalPhase::RolledBack),
        (FaultPoint::BeforeStateReplacement, JournalPhase::RolledBack),
        (FaultPoint::AfterStateReplacement, JournalPhase::Committed),
        (FaultPoint::BeforeStateJournal, JournalPhase::Committed),
        (FaultPoint::AfterStateJournal, JournalPhase::Committed),
        (FaultPoint::BeforeCommitted, JournalPhase::Committed),
        (FaultPoint::AfterCommitted, JournalPhase::Committed),
    ];
    let before = published();
    for (fault, phase) in faults {
        let mut world = interrupted(fault);
        let record = world.recover().unwrap().unwrap();
        assert_eq!(record.phase, phase);
        if phase == JournalPhase::RolledBack {
            assert_eq!(world.gallery, before.gallery);
            assert_eq!(world.state, before.state);
        } else {
            assert_eq!(
                sha256_bytes(world.gallery.as_ref().unwrap()),
                record.gallery_sha256
            );
            assert_eq!(
                sha256_bytes(world.state.as_ref().unwrap()),
                record.state_sha256
            );
        }
        let (gallery, state) = (world.gallery.clone(), world.state.clone());
        let again = world.recover().unwrap().unwrap();
        assert_eq!(again, record);
        assert_eq!(world.gallery, gallery);
        assert_eq!(world.state, state);
    }
}

#[test]
fn records_that_name_other_places_are_classified_there() {
    let world = published();
    let mut record = JournalRecord::new(
        1,
        "g-000001".to_owned(),
        None,
        JournalPhase::Prepared,
        sha256_bytes(b"gallery"),
        sha256_bytes(b"state"),
        ".publisher/staging/g-000001".to_owned(),
        ".publisher/backups/none".to_owned(),
        None,
        None,
    );
    record.gallery_path = "elsewhere/gallery.json".to_owned();
    record.state_path = "elsewhere/state.json".to_owned();
    record.record_sha256 = record.compute_record_sha256();
    let mut output = world.snapshot(&record);
    output.named_gallery = None;
    output.named_state = None;
    let plan = recover_publication(vec![record.duplicate()], &output)
        .unwrap()
        .unwrap();
    assert_eq!(plan.record.phase, JournalPhase::RolledBack);
    output.named_gallery = Some(GalleryFile::new(b"other".to_vec()));
    assert_eq!(
        recover_publication(vec![record], &output),
        Err(RecoveryError::InitialHasActiveFiles)
    );
}

#[test]
fn altered_artifact_records_are_refused() {
    let made = || {
        ArtifactRecord::new(
            "g-000001".to_owned(),
            sha256_bytes(b"gallery"),
            sha256_bytes(b"state"),
        )
    };
    assert_eq!(made().validate(), Ok(()));
    let refused = |change: &dyn Fn(&mut ArtifactRecord)| {
        let mut record = made();
        change(&mut record);
        assert_eq!(record.validate(), Err(JournalError::InvalidArtifactRecord));
    };
    refused(&|record| record.generation = "g-000002".to_owned());
    refused(&|record| record.gallery_sha256 = sha256_bytes(b"other"));
    refused(&|record| record.state_sha256 = sha256_bytes(b"other"));
    refused(&|record| record.record_sha256 = sha256_bytes(b"other"));
    assert!(ArtifactRecord::new("g-1".to_owned(), sha256_bytes(b""), sha256_bytes(b""))
        .validate()
        .is_err());
    assert!(ArtifactRecord::new("g-000001".to_owned(), "x".to_owned(), sha256_bytes(b""))
        .validate()
        .is_err());
}

#[test]
fn altered_journal_records_are_refused() {
    let world = interrupted(FaultPoint::AfterStateJournal);
    let refused = |change: &dyn Fn(&mut JournalRecord)| {
        let mut record = world.record();
        assert_eq!(record.validate(), Ok(()));
        change(&mut record);
        assert_eq!(record.validate(), Err(JournalError::DigestMismatch));
    };
    refused(&|record| record.journal_sequence += 1);
    refused(&|record| record.generation = "g-000009".to_owned());
    refused(&|record| record.previous_generation = Some("g-000007".to_owned()));
    refused(&|record| record.phase = JournalPhase::Committed);
    refused(&|record| record.gallery_sha256 = sha256_bytes(b"other"));
    refused(&|record| record.state_sha256 = sha256_bytes(b"other"));
    refused(&|record| record.gallery_path = "other.json".to_owned());
    refused(&|record| record.state_path = "other.json".to_owned());
    refused(&|record| record.staging_directory = "other".to_owned());
    refused(&|record| record.backup_directory = "other".to_owned());
    refused(&|record| record.previous_gallery_sha256 = Some(sha256_bytes(b"other")));
    refused(&|record| record.previous_state_sha256 = Some(sha256_bytes(b"other")));
    refused(&|record| record.record_sha256 = sha256_bytes(b"other"));
}

#[test]
fn a_fault_is_the_last_step_of_a_publication() {
    let planned = |fault: Option<FaultPoint>| {
        build_local_gallery_with_fault(
            &options(),
            &Vec::new(),
            &b"state".to_vec(),
            None,
            &None,
            &None,
            fault,
        )
        .unwrap()
        .plan
    };
    let whole = planned(None);
    assert_eq!(whole.steps.last(), Some(&PublicationStep::CleanStaging));
    for (fault, before) in [
        (FaultPoint::BeforeGalleryReplacement, 1),
        (FaultPoint::AfterGalleryReplacement, 2),
        (FaultPoint::BeforeGalleryJournal, 2),
        (FaultPoint::AfterGalleryJournal, 3),
        (FaultPoint::BeforeStateReplacement, 3),
        (FaultPoint::AfterStateReplacement, 4),
        (FaultPoint::BeforeStateJournal, 4),
        (FaultPoint::AfterStateJournal, 5),
        (FaultPoint::BeforeCommitted, 5),
        (FaultPoint::AfterCommitted, 7),
    ] {
        let faulted = planned(Some(fault));
        assert_eq!(faulted.steps.len(), before + 1);
        assert_eq!(faulted.steps[..before], whole.steps[..before]);
        assert_eq!(faulted.steps[before], PublicationStep::Fault(fault));
    }
    for fault in [
        FaultPoint::AfterRestoreGallery,
        FaultPoint::BeforeRestoreState,
    ] {
        assert_eq!(planned(Some(fault)).steps, whole.steps);
    }
}

#[test]
fn the_numbering_bounds_only_what_recovery_has_to_write() {
    let world = published();
    let renumbered = |sequence: u64, phase: JournalPhase| {
        let mut record = world.record();
        record.journal_sequence = sequence;
        record.phase = phase;
        record.record_sha256 = record.compute_record_sha256();
        record
    };
    for (phase, room) in [
        (JournalPhase::Committed, 0),
        (JournalPhase::RolledBack, 0),
        (JournalPhase::StateInstalled, 1),
        (JournalPhase::GalleryInstalled, 2),
        (JournalPhase::BackupCreated, 2),
        (JournalPhase::Prepared, 2),
    ] {
        assert!(can_be_followed(&renumbered(u64::MAX - room, phase)));
        if room > 0 {
            assert!(!can_be_followed(&renumbered(u64::MAX - room + 1, phase)));
        }
    }
    let last = renumbered(u64::MAX, JournalPhase::Committed);
    let output = world.snapshot(&last);
    let kept = recover_publication(vec![last.duplicate()], &output)
        .unwrap()
        .unwrap();
    assert_eq!(kept.steps, Vec::new());
    assert_eq!(kept.record, last);
    let installed = interrupted(FaultPoint::AfterStateJournal);
    let mut record = installed.record();
    assert_eq!(record.phase, JournalPhase::StateInstalled);
    record.journal_sequence = u64::MAX - 1;
    record.record_sha256 = record.compute_record_sha256();
    let output = installed.snapshot(&record);
    let mut found = installed.select().unwrap().unwrap().evidence;
    found.push(record);
    let promoted = recover_publication(found, &output).unwrap().unwrap();
    assert_eq!(promoted.record.phase, JournalPhase::Committed);
    assert_eq!(promoted.record.journal_sequence, u64::MAX);
}
