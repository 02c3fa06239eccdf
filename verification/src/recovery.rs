//! Recovery of an interrupted local publication.

use crate::digest::{hex_digest, hex_sha256, law_digest_is_well_formed};
use crate::gallery::{gallery_assets_error, verify_gallery_assets, AssetError, AssetObservation};
use crate::inventory::Duplicate;
use crate::journal::{
    artifact_of, artifact_valid, classification, classify_active, file_view, in_phase,
    is_generation_text, journal_error, records_view, ActiveClassification, ActiveStatus,
    ArtifactRecord, ArtifactView, JournalPhase, JournalRecord, JournalView,
};
use crate::json::{json_document, parse, Json};
use crate::steps::{
    digest_of, has_digest, push_step, steps_view, FaultPoint, PlanView, PublicationPlan,
    PublicationStep, StepView,
};
use crate::text::same_text;
use vstd::prelude::*;

verus! {

// ---------------------------------------------------------------------------
// What is found on disk
// ---------------------------------------------------------------------------
/// A gallery file: its bytes, and the document they hold.
#[derive(Debug, PartialEq, Eq)]
pub struct GalleryFile {
    bytes: Vec<u8>,
    document: Option<Json>,
}

impl View for GalleryFile {
    type V = Seq<u8>;

    closed spec fn view(&self) -> Seq<u8> {
        self.bytes@
    }
}

impl GalleryFile {
    #[verifier::type_invariant]
    spec fn consistent(self) -> bool {
        match self.document {
            Some(document) => json_document(self.bytes@) == Some(document@),
            None => json_document(self.bytes@) is None,
        }
    }

    /// The gallery file with the given bytes.
    pub fn new(bytes: Vec<u8>) -> (r: GalleryFile)
        ensures
            r@ == bytes@,
    {
        let document: Option<Json> = parse(bytes.as_slice());
        GalleryFile { bytes, document }
    }

    /// The bytes of the file.
    pub fn bytes(&self) -> (r: &Vec<u8>)
        ensures
            r@ == self@,
    {
        &self.bytes
    }

    /// The document in the file, where its bytes are one.
    pub fn document(&self) -> (r: Option<&Json>)
        ensures
            match r {
                Some(document) => json_document(self@) == Some(document@),
                None => json_document(self@) is None,
            },
    {
        proof {
            use_type_invariant(self);
        }
        match &self.document {
            Some(document) => Some(document),
            None => None,
        }
    }
}

/// The bytes of an optional gallery file.
pub open spec fn gallery_view(file: Option<GalleryFile>) -> Option<Seq<u8>> {
    match file {
        Some(f) => Some(f@),
        None => None,
    }
}

/// The record file of a staged or backed-up pair.
#[derive(Debug, PartialEq, Eq)]
pub enum ArtifactFile {
    /// It is not there.
    Absent,
    /// It is there and holds no record.
    Unreadable,
    Read(ArtifactRecord),
}

/// The mathematical form of a record file.
pub enum ArtifactFileView {
    Absent,
    Unreadable,
    Read(ArtifactView),
}

impl View for ArtifactFile {
    type V = ArtifactFileView;

    open spec fn view(&self) -> ArtifactFileView {
        match *self {
            ArtifactFile::Absent => ArtifactFileView::Absent,
            ArtifactFile::Unreadable => ArtifactFileView::Unreadable,
            ArtifactFile::Read(record) => ArtifactFileView::Read(record@),
        }
    }
}

/// What the staging directory of a record holds.
#[derive(Debug, PartialEq, Eq)]
pub struct StagingSnapshot {
    /// Whether the directory is there.
    pub directory: bool,
    pub gallery: Option<GalleryFile>,
    /// Whether the gallery document conforms to the gallery schema.
    pub conforms: bool,
    /// What was found of the assets that the gallery names.
    pub assets: Vec<AssetObservation>,
    pub state: Option<Vec<u8>>,
    /// Whether the state file holds a publisher state.
    pub state_readable: bool,
    pub record: ArtifactFile,
}

/// The mathematical form of a staging directory.
pub struct StagingView {
    pub directory: bool,
    pub gallery: Option<Seq<u8>>,
    pub conforms: bool,
    pub assets: Seq<AssetObservation>,
    pub state: Option<Seq<u8>>,
    pub state_readable: bool,
    pub record: ArtifactFileView,
}

impl View for StagingSnapshot {
    type V = StagingView;

    open spec fn view(&self) -> StagingView {
        StagingView {
            directory: self.directory,
            gallery: gallery_view(self.gallery),
            conforms: self.conforms,
            assets: self.assets@,
            state: file_view(self.state),
            state_readable: self.state_readable,
            record: self.record@,
        }
    }
}

/// What the backup directory of a record holds.
#[derive(Debug, PartialEq, Eq)]
pub struct BackupSnapshot {
    pub gallery: Option<Vec<u8>>,
    pub state: Option<Vec<u8>>,
    pub record: ArtifactFile,
}

/// The mathematical form of a backup directory.
pub struct BackupView {
    pub gallery: Option<Seq<u8>>,
    pub state: Option<Seq<u8>>,
    pub record: ArtifactFileView,
}

impl View for BackupSnapshot {
    type V = BackupView;

    open spec fn view(&self) -> BackupView {
        BackupView {
            gallery: file_view(self.gallery),
            state: file_view(self.state),
            record: self.record@,
        }
    }
}

/// What the output directory holds: the pair at the places that the recovered
/// record names, the pair at the usual places, and the staging and backup
/// directories of the record. A pipeline record names the usual places.
#[derive(Debug, PartialEq, Eq)]
pub struct OutputSnapshot {
    /// The gallery at the path of the record.
    pub named_gallery: Option<GalleryFile>,
    /// The state at the path of the record.
    pub named_state: Option<Vec<u8>>,
    /// Whether the named gallery document conforms to the gallery schema.
    pub conforms: bool,
    /// What was found of the assets that the named gallery names.
    pub assets: Vec<AssetObservation>,
    /// The file `gallery.json`.
    pub gallery: Option<Vec<u8>>,
    /// The file `.publisher/state.json`.
    pub state: Option<Vec<u8>>,
    pub staging: StagingSnapshot,
    pub backup: BackupSnapshot,
}

/// The mathematical form of an output directory.
pub struct OutputView {
    pub named_gallery: Option<Seq<u8>>,
    pub named_state: Option<Seq<u8>>,
    pub conforms: bool,
    pub assets: Seq<AssetObservation>,
    pub gallery: Option<Seq<u8>>,
    pub state: Option<Seq<u8>>,
    pub staging: StagingView,
    pub backup: BackupView,
}

impl View for OutputSnapshot {
    type V = OutputView;

    open spec fn view(&self) -> OutputView {
        OutputView {
            named_gallery: gallery_view(self.named_gallery),
            named_state: file_view(self.named_state),
            conforms: self.conforms,
            assets: self.assets@,
            gallery: file_view(self.gallery),
            state: file_view(self.state),
            staging: self.staging@,
            backup: self.backup@,
        }
    }
}

// ---------------------------------------------------------------------------
// Checks
// ---------------------------------------------------------------------------
/// Why a publication cannot be recovered.
#[derive(Debug, Clone, Copy, PartialEq, Eq, Structural)]
pub enum RecoveryError {
    /// One active file and no journal.
    IncompleteInitial,
    /// Both active files and no journal.
    UntrustedActiveFiles,
    /// Two different records with one sequence number.
    AmbiguousSequence,
    /// A first publication after a committed one.
    OrphanedCandidate,
    /// No committed record before one that replaces a generation.
    NoCommittedEvidence,
    /// The replaced generation is not the last committed one.
    NotLatestPredecessor,
    MissingPreviousGalleryHash,
    MissingPreviousStateHash,
    /// The replaced hashes are not those of the last committed generation.
    InconsistentPreviousHashes,
    CommittedMismatch,
    GalleryNotJson,
    GalleryNotConforming,
    Assets(AssetError),
    StagingMissing,
    StagingIncomplete,
    StagedStateInvalid,
    StagedRecordInvalid,
    StagingInconsistent,
    BackupUnreadable,
    BackupInvalid,
    IncompleteEvidence,
    BackupGalleryMismatch,
    BackupStateMismatch,
    RolledBackHasActiveFiles,
    ActiveDiffersFromPrevious,
    InitialHasActiveFiles,
    /// A backup is due and an active file is missing.
    NoActivePair,
}

/// What is wrong with a gallery document and its assets.
pub open spec fn document_error(
    bytes: Seq<u8>,
    conforms: bool,
    assets: Seq<AssetObservation>,
) -> Option<RecoveryError> {
    match json_document(bytes) {
        None => Some(RecoveryError::GalleryNotJson),
        Some(document) => if !conforms {
            Some(RecoveryError::GalleryNotConforming)
        } else {
            match gallery_assets_error(document, assets) {
                Some(e) => Some(RecoveryError::Assets(e)),
                None => None,
            }
        },
    }
}

fn check_document(file: &GalleryFile, conforms: bool, assets: &Vec<AssetObservation>) -> (r: Result<
    (),
    RecoveryError,
>)
    ensures
        match document_error(file@, conforms, assets@) {
            Some(e) => r == Err::<(), RecoveryError>(e),
            None => r is Ok,
        },
{
    match file.document() {
        None => Err(RecoveryError::GalleryNotJson),
        Some(document) => {
            if !conforms {
                return Err(RecoveryError::GalleryNotConforming);
            }
            match verify_gallery_assets(document, assets) {
                Ok(()) => Ok(()),
                Err(e) => Err(RecoveryError::Assets(e)),
            }
        },
    }
}

/// What is wrong with the staged generation of a record.
pub open spec fn staging_error(staging: StagingView, record: JournalView) -> Option<RecoveryError> {
    if !staging.directory {
        Some(RecoveryError::StagingMissing)
    } else if staging.gallery is None || staging.state is None || staging.record is Absent {
        Some(RecoveryError::StagingIncomplete)
    } else if document_error(staging.gallery->0, staging.conforms, staging.assets) is Some {
        document_error(staging.gallery->0, staging.conforms, staging.assets)
    } else if !staging.state_readable {
        Some(RecoveryError::StagedStateInvalid)
    } else {
        match staging.record {
            ArtifactFileView::Read(a) => if !artifact_valid(a) {
                Some(RecoveryError::StagedRecordInvalid)
            } else if a.generation != record.generation || a.gallery_sha256
                != record.gallery_sha256 || a.state_sha256 != record.state_sha256
                || a.gallery_sha256 != hex_sha256(staging.gallery->0) || a.state_sha256
                != hex_sha256(staging.state->0) {
                Some(RecoveryError::StagingInconsistent)
            } else {
                None
            },
            _ => Some(RecoveryError::StagedRecordInvalid),
        }
    }
}

/// Checks the staged generation of a record.
pub fn validate_staging(staging: &StagingSnapshot, record: &JournalRecord) -> (r: Result<
    (),
    RecoveryError,
>)
    ensures
        match staging_error(staging@, record@) {
            Some(e) => r == Err::<(), RecoveryError>(e),
            None => r is Ok,
        },
{
    if !staging.directory {
        return Err(RecoveryError::StagingMissing);
    }
    let absent: bool = matches!(staging.record, ArtifactFile::Absent);
    match (&staging.gallery, &staging.state) {
        (Some(gallery), Some(state)) => {
            if absent {
                return Err(RecoveryError::StagingIncomplete);
            }
            match check_document(gallery, staging.conforms, &staging.assets) {
                Ok(()) => {},
                Err(e) => {
                    return Err(e);
                },
            }
            if !staging.state_readable {
                return Err(RecoveryError::StagedStateInvalid);
            }
            match &staging.record {
                ArtifactFile::Read(a) => {
                    if a.validate().is_err() {
                        return Err(RecoveryError::StagedRecordInvalid);
                    }
                    let gallery_hash: String = hex_digest(gallery.bytes().as_slice());
                    let state_hash: String = hex_digest(state.as_slice());
                    if !same_text(a.generation.as_str(), record.generation.as_str())
                        || !same_text(a.gallery_sha256.as_str(), record.gallery_sha256.as_str())
                        || !same_text(a.state_sha256.as_str(), record.state_sha256.as_str())
                        || !same_text(a.gallery_sha256.as_str(), gallery_hash.as_str())
                        || !same_text(a.state_sha256.as_str(), state_hash.as_str()) {
                        return Err(RecoveryError::StagingInconsistent);
                    }
                    Ok(())
                },
                _ => Err(RecoveryError::StagedRecordInvalid),
            }
        },
        _ => Err(RecoveryError::StagingIncomplete),
    }
}

/// What is wrong with a backup of a generation.
pub open spec fn backup_directory_error(backup: BackupView, generation: Seq<char>) -> Option<
    RecoveryError,
> {
    match backup.record {
        ArtifactFileView::Read(a) => if !artifact_valid(a) || a.generation != generation
            || digest_of(backup.gallery) != Some(a.gallery_sha256) || digest_of(backup.state)
            != Some(a.state_sha256) {
            Some(RecoveryError::BackupInvalid)
        } else {
            None
        },
        _ => Some(RecoveryError::BackupUnreadable),
    }
}

/// Checks a backup of a generation.
pub fn verify_backup_directory(backup: &BackupSnapshot, generation: &str) -> (r: Result<
    (),
    RecoveryError,
>)
    ensures
        match backup_directory_error(backup@, generation@) {
            Some(e) => r == Err::<(), RecoveryError>(e),
            None => r is Ok,
        },
{
    match &backup.record {
        ArtifactFile::Read(a) => {
            if a.validate().is_err() || !same_text(a.generation.as_str(), generation)
                || !has_digest(&backup.gallery, a.gallery_sha256.as_str()) || !has_digest(
                &backup.state,
                a.state_sha256.as_str(),
            ) {
                return Err(RecoveryError::BackupInvalid);
            }
            Ok(())
        },
        _ => Err(RecoveryError::BackupUnreadable),
    }
}

/// How the backup of a generation comes to be.
#[derive(Debug, PartialEq, Eq)]
pub enum BackupPlan {
    /// The directory is there, and its content is what is verified.
    Reuse,
    /// The active pair is copied there, with this record of it.
    Create(ArtifactRecord),
}

/// Decides how the backup of the active generation comes to be, given whether
/// its directory is there and the active pair.
pub fn plan_backup(
    directory: bool,
    generation: &str,
    gallery: &Option<Vec<u8>>,
    state: &Option<Vec<u8>>,
) -> (r: Result<BackupPlan, RecoveryError>)
    ensures
        match (directory, file_view(*gallery), file_view(*state)) {
            (true, _, _) => r matches Ok(BackupPlan::Reuse),
            (false, Some(g), Some(s)) => r matches Ok(BackupPlan::Create(record)) && record@
                == artifact_of(generation@, hex_sha256(g), hex_sha256(s)),
            _ => r matches Err(RecoveryError::NoActivePair),
        },
{
    if directory {
        return Ok(BackupPlan::Reuse);
    }
    match (gallery, state) {
        (Some(gallery), Some(state)) => Ok(
            BackupPlan::Create(
                ArtifactRecord::new(
                    generation.to_owned(),
                    hex_digest(gallery.as_slice()),
                    hex_digest(state.as_slice()),
                ),
            ),
        ),
        _ => Err(RecoveryError::NoActivePair),
    }
}

/// A backup of the active pair of a generation verifies as that generation's.
pub proof fn law_created_backup_verifies(generation: Seq<char>, gallery: Seq<u8>, state: Seq<u8>)
    requires
        is_generation_text(generation),
    ensures
        backup_directory_error(
            (BackupView {
                gallery: Some(gallery),
                state: Some(state),
                record: ArtifactFileView::Read(
                    artifact_of(generation, hex_sha256(gallery), hex_sha256(state)),
                ),
            }),
            generation,
        ) is None,
{
    law_digest_is_well_formed(gallery);
    law_digest_is_well_formed(state);
}

/// What is wrong with the backup of the generation that a record replaces. A
/// first publication needs none.
pub open spec fn backup_error(backup: BackupView, record: JournalView) -> Option<RecoveryError> {
    match (record.previous_generation, record.previous_gallery_sha256, record.previous_state_sha256) {
        (Some(generation), Some(gallery), Some(state)) => if backup_directory_error(
            backup,
            generation,
        ) is Some {
            backup_directory_error(backup, generation)
        } else if digest_of(backup.gallery) != Some(gallery) {
            Some(RecoveryError::BackupGalleryMismatch)
        } else if digest_of(backup.state) != Some(state) {
            Some(RecoveryError::BackupStateMismatch)
        } else {
            None
        },
        (None, None, None) => None,
        _ => Some(RecoveryError::IncompleteEvidence),
    }
}

/// Checks the backup of the generation that a record replaces.
pub fn verify_backup(backup: &BackupSnapshot, record: &JournalRecord) -> (r: Result<
    (),
    RecoveryError,
>)
    ensures
        match backup_error(backup@, record@) {
            Some(e) => r == Err::<(), RecoveryError>(e),
            None => r is Ok,
        },
{
    match (
        &record.previous_generation,
        &record.previous_gallery_sha256,
        &record.previous_state_sha256,
    ) {
        (Some(generation), Some(gallery), Some(state)) => {
            match verify_backup_directory(backup, generation.as_str()) {
                Ok(()) => {},
                Err(e) => {
                    return Err(e);
                },
            }
            if !has_digest(&backup.gallery, gallery.as_str()) {
                return Err(RecoveryError::BackupGalleryMismatch);
            }
            if !has_digest(&backup.state, state.as_str()) {
                return Err(RecoveryError::BackupStateMismatch);
            }
            Ok(())
        },
        (None, None, None) => Ok(()),
        _ => Err(RecoveryError::IncompleteEvidence),
    }
}

/// What is wrong with the active pair as the generation before a record.
pub open spec fn active_previous_error(
    gallery: Option<Seq<u8>>,
    state: Option<Seq<u8>>,
    record: JournalView,
) -> Option<RecoveryError> {
    match (record.previous_generation, record.previous_gallery_sha256, record.previous_state_sha256) {
        (Some(_), Some(gallery_hash), Some(state_hash)) => if digest_of(gallery) != Some(
            gallery_hash,
        ) || digest_of(state) != Some(state_hash) {
            Some(RecoveryError::ActiveDiffersFromPrevious)
        } else {
            None
        },
        (None, None, None) => if gallery is Some || state is Some {
            Some(RecoveryError::InitialHasActiveFiles)
        } else {
            None
        },
        _ => Some(RecoveryError::IncompleteEvidence),
    }
}

/// Checks that the active pair is the generation before a record.
pub fn verify_active_against_previous(
    gallery: &Option<Vec<u8>>,
    state: &Option<Vec<u8>>,
    record: &JournalRecord,
) -> (r: Result<(), RecoveryError>)
    ensures
        match active_previous_error(file_view(*gallery), file_view(*state), record@) {
            Some(e) => r == Err::<(), RecoveryError>(e),
            None => r is Ok,
        },
{
    match (
        &record.previous_generation,
        &record.previous_gallery_sha256,
        &record.previous_state_sha256,
    ) {
        (Some(_), Some(gallery_hash), Some(state_hash)) => {
            if !has_digest(gallery, gallery_hash.as_str()) || !has_digest(
                state,
                state_hash.as_str(),
            ) {
                return Err(RecoveryError::ActiveDiffersFromPrevious);
            }
            Ok(())
        },
        (None, None, None) => {
            if gallery.is_some() || state.is_some() {
                return Err(RecoveryError::InitialHasActiveFiles);
            }
            Ok(())
        },
        _ => Err(RecoveryError::IncompleteEvidence),
    }
}

// ---------------------------------------------------------------------------
// The chain of generations
// ---------------------------------------------------------------------------
/// The committed record with the highest sequence number below a bound; of
/// several, the last.
pub open spec fn latest_committed(candidates: Seq<JournalView>, bound: u64) -> Option<JournalView>
    decreases candidates.len(),
{
    if candidates.len() == 0 {
        None
    } else {
        let earlier = latest_committed(candidates.drop_last(), bound);
        let last = candidates.last();
        if last.journal_sequence < bound && last.phase == JournalPhase::Committed && (earlier is None
            || earlier->0.journal_sequence <= last.journal_sequence) {
            Some(last)
        } else {
            earlier
        }
    }
}

/// What is wrong with the place of a record after the committed ones: a record
/// replaces exactly the last committed generation, and a first publication
/// follows none.
pub open spec fn chain_error(record: JournalView, candidates: Seq<JournalView>) -> Option<
    RecoveryError,
> {
    match (record.previous_generation, latest_committed(candidates, record.journal_sequence)) {
        (None, Some(_)) => Some(RecoveryError::OrphanedCandidate),
        (None, None) => None,
        (Some(_), None) => Some(RecoveryError::NoCommittedEvidence),
        (Some(previous), Some(predecessor)) => if predecessor.generation != previous {
            Some(RecoveryError::NotLatestPredecessor)
        } else if record.previous_gallery_sha256 is None {
            Some(RecoveryError::MissingPreviousGalleryHash)
        } else if record.previous_state_sha256 is None {
            Some(RecoveryError::MissingPreviousStateHash)
        } else if predecessor.gallery_sha256 != record.previous_gallery_sha256->0
            || predecessor.state_sha256 != record.previous_state_sha256->0 {
            Some(RecoveryError::InconsistentPreviousHashes)
        } else {
            None
        },
    }
}

fn find_latest_committed(candidates: &[JournalRecord], bound: u64) -> (r: Option<usize>)
    ensures
        match r {
            Some(i) => i < candidates@.len() && latest_committed(
                records_view(candidates@),
                bound,
            ) == Some(candidates@[i as int]@),
            None => latest_committed(records_view(candidates@), bound) is None,
        },
{
    let ghost all = records_view(candidates@);
    let mut best: Option<usize> = None;
    let mut i: usize = 0;
    proof {
        assert(all.take(0) =~= Seq::<JournalView>::empty());
    }
    while i < candidates.len()
        invariant
            i <= candidates@.len(),
            all == records_view(candidates@),
            match best {
                Some(b) => b < i && latest_committed(all.take(i as int), bound) == Some(
                    candidates@[b as int]@,
                ),
                None => latest_committed(all.take(i as int), bound) is None,
            },
        decreases candidates@.len() - i,
    {
        proof {
            assert(all.take(i as int + 1).drop_last() =~= all.take(i as int));
            assert(all.take(i as int + 1).last() == candidates@[i as int]@);
        }
        if candidates[i].journal_sequence < bound && candidates[i].phase
            == JournalPhase::Committed {
            let later: bool = match best {
                Some(b) => candidates[b].journal_sequence <= candidates[i].journal_sequence,
                None => true,
            };
            if later {
                best = Some(i);
            }
        }
        i = i + 1;
    }
    proof {
        assert(all.take(candidates@.len() as int) =~= all);
    }
    best
}

/// Checks the place of a record after the committed ones.
pub fn validate_generation_chain(record: &JournalRecord, candidates: &[JournalRecord]) -> (r:
    Result<(), RecoveryError>)
    ensures
        match chain_error(record@, records_view(candidates@)) {
            Some(e) => r == Err::<(), RecoveryError>(e),
            None => r is Ok,
        },
{
    let latest: Option<usize> = find_latest_committed(candidates, record.journal_sequence);
    match (&record.previous_generation, latest) {
        (None, Some(_)) => Err(RecoveryError::OrphanedCandidate),
        (None, None) => Ok(()),
        (Some(_), None) => Err(RecoveryError::NoCommittedEvidence),
        (Some(previous), Some(i)) => {
            let predecessor: &JournalRecord = &candidates[i];
            if !same_text(predecessor.generation.as_str(), previous.as_str()) {
                return Err(RecoveryError::NotLatestPredecessor);
            }
            match (&record.previous_gallery_sha256, &record.previous_state_sha256) {
                (None, _) => Err(RecoveryError::MissingPreviousGalleryHash),
                (Some(_), None) => Err(RecoveryError::MissingPreviousStateHash),
                (Some(gallery), Some(state)) => {
                    if !same_text(predecessor.gallery_sha256.as_str(), gallery.as_str())
                        || !same_text(predecessor.state_sha256.as_str(), state.as_str()) {
                        return Err(RecoveryError::InconsistentPreviousHashes);
                    }
                    Ok(())
                },
            }
        },
    }
}

// ---------------------------------------------------------------------------
// Choosing the record
// ---------------------------------------------------------------------------
/// The valid records among those found.
pub open spec fn usable_records(found: Seq<JournalView>) -> Seq<JournalView> {
    found.filter(|v: JournalView| journal_error(v) is None)
}

/// Whether two different records have the same sequence number.
pub open spec fn is_ambiguous(records: Seq<JournalView>) -> bool {
    exists|i: int, j: int|
        0 <= i < j < records.len() && (#[trigger] records[i]).journal_sequence == (
        #[trigger] records[j]).journal_sequence && records[i] != records[j]
}

/// Whether a record is among others and none of them is later.
pub open spec fn is_newest(records: Seq<JournalView>, record: JournalView) -> bool {
    &&& records.contains(record)
    &&& forall|i: int|
        0 <= i < records.len() ==> (#[trigger] records[i]).journal_sequence
            <= record.journal_sequence
}

/// The latest of some records.
pub open spec fn newest_record(records: Seq<JournalView>) -> JournalView {
    choose|record: JournalView| is_newest(records, record)
}

proof fn lemma_newest_exists(records: Seq<JournalView>) -> (newest: JournalView)
    requires
        records.len() > 0,
    ensures
        is_newest(records, newest),
    decreases records.len(),
{
    if records.len() == 1 {
        assert(records.contains(records[0]));
        records[0]
    } else {
        let before = records.drop_last();
        let earlier = lemma_newest_exists(before);
        let i = choose|i: int| 0 <= i < before.len() && before[i] == earlier;
        assert(records[i] == earlier);
        assert(records.contains(records.last()));
        let newest = if earlier.journal_sequence <= records.last().journal_sequence {
            records.last()
        } else {
            earlier
        };
        assert forall|j: int| 0 <= j < records.len() implies (
        #[trigger] records[j]).journal_sequence <= newest.journal_sequence by {
            if j < before.len() {
                assert(before[j] == records[j]);
            }
        }
        newest
    }
}

/// Records that are not ambiguous have one latest record and no other.
pub proof fn law_newest_record_is_unique(records: Seq<JournalView>, record: JournalView)
    requires
        records.len() > 0,
        !is_ambiguous(records),
    ensures
        is_newest(records, newest_record(records)),
        is_newest(records, record) ==> record == newest_record(records),
{
    let _ = lemma_newest_exists(records);
    let newest = newest_record(records);
    if is_newest(records, record) {
        let i = choose|i: int| 0 <= i < records.len() && records[i] == record;
        let j = choose|j: int| 0 <= j < records.len() && records[j] == newest;
        assert(records[i].journal_sequence == records[j].journal_sequence);
        assert(i < j || j < i || i == j);
    }
}

/// The record to recover, and all valid records as evidence.
#[derive(Debug, PartialEq, Eq)]
pub struct SelectedRecord {
    pub record: JournalRecord,
    pub evidence: Vec<JournalRecord>,
}

fn ambiguous(records: &Vec<JournalRecord>) -> (r: bool)
    ensures
        r == is_ambiguous(records_view(records@)),
{
    let ghost all = records_view(records@);
    let mut i: usize = 0;
    while i < records.len()
        invariant
            i <= records@.len(),
            all == records_view(records@),
            forall|a: int, b: int|
                0 <= a < i && a < b < all.len() ==> !((#[trigger] all[a]).journal_sequence == (
                #[trigger] all[b]).journal_sequence && all[a] != all[b]),
        decreases records@.len() - i,
    {
        let mut j: usize = i + 1;
        while j < records.len()
            invariant
                i < j,
                i < records@.len(),
                j <= records@.len(),
                all == records_view(records@),
                forall|b: int|
                    i < b < j ==> !(all[i as int].journal_sequence == (
                    #[trigger] all[b]).journal_sequence && all[i as int] != all[b]),
            decreases records@.len() - j,
        {
            if records[i].journal_sequence == records[j].journal_sequence
                && !records[i].same_record(&records[j]) {
                proof {
                    assert(all[i as int] == records@[i as int]@);
                    assert(all[j as int] == records@[j as int]@);
                }
                return true;
            }
            proof {
                assert(all[i as int] == records@[i as int]@);
                assert(all[j as int] == records@[j as int]@);
            }
            j = j + 1;
        }
        i = i + 1;
    }
    false
}

/// The records that are valid, in their order.
fn usable(found: Vec<JournalRecord>) -> (r: Vec<JournalRecord>)
    ensures
        records_view(r@) == usable_records(records_view(found@)),
{
    let ghost all = records_view(found@);
    let mut r: Vec<JournalRecord> = Vec::new();
    proof {
        assert(all.take(0) =~= Seq::<JournalView>::empty());
        reveal(Seq::filter);
        assert(records_view(r@) =~= usable_records(all.take(0)));
    }
    for record in it: found
        invariant
            all == records_view(it.seq()),
            records_view(r@) == usable_records(all.take(it.index() as int)),
    {
        let ghost i = it.index() as int;
        let ghost before = r@;
        proof {
            assert(all.take(i + 1).drop_last() =~= all.take(i));
            assert(all.take(i + 1).last() == record@);
            reveal(Seq::filter);
        }
        if record.validate().is_ok() {
            let ghost v = record@;
            r.push(record);
            proof {
                assert(records_view(r@) =~= records_view(before).push(v));
            }
        }
    }
    proof {
        assert(all.take(all.len() as int) =~= all);
    }
    r
}

/// Chooses the record to recover among those found: the latest valid one. With
/// no valid record there is nothing to recover, and then no active file may
/// exist.
pub fn select_record(found: Vec<JournalRecord>, gallery_exists: bool, state_exists: bool) -> (r:
    Result<Option<SelectedRecord>, RecoveryError>)
    ensures
        ({
            let records = usable_records(records_view(found@));
            if records.len() == 0 {
                match (gallery_exists, state_exists) {
                    (false, false) => r matches Ok(None),
                    (true, true) => r matches Err(RecoveryError::UntrustedActiveFiles),
                    _ => r matches Err(RecoveryError::IncompleteInitial),
                }
            } else if is_ambiguous(records) {
                r matches Err(RecoveryError::AmbiguousSequence)
            } else {
                r matches Ok(Some(selected)) && selected.record@ == newest_record(records)
                    && is_newest(records, selected.record@) && records_view(selected.evidence@)
                    == records
            }
        }),
{
    let records: Vec<JournalRecord> = usable(found);
    if records.len() == 0 {
        return match (gallery_exists, state_exists) {
            (false, false) => Ok(None),
            (true, true) => Err(RecoveryError::UntrustedActiveFiles),
            _ => Err(RecoveryError::IncompleteInitial),
        };
    }
    if ambiguous(&records) {
        return Err(RecoveryError::AmbiguousSequence);
    }
    let ghost all = records_view(records@);
    let mut best: usize = 0;
    let mut i: usize = 1;
    while i < records.len()
        invariant
            1 <= i <= records@.len(),
            best < i,
            all == records_view(records@),
            forall|a: int|
                0 <= a < i ==> (#[trigger] all[a]).journal_sequence
                    <= all[best as int].journal_sequence,
        decreases records@.len() - i,
    {
        proof {
            assert(all[i as int] == records@[i as int]@);
            assert(all[best as int] == records@[best as int]@);
        }
        if records[i].journal_sequence > records[best].journal_sequence {
            best = i;
        }
        i = i + 1;
    }
    let record: JournalRecord = records[best].duplicate();
    proof {
        assert(all[best as int] == records@[best as int]@);
        assert(all.contains(record@));
        law_newest_record_is_unique(all, record@);
    }
    Ok(Some(SelectedRecord { record, evidence: records }))
}

// ---------------------------------------------------------------------------
// Deciding what to do
// ---------------------------------------------------------------------------
/// The plan that leaves everything as it is.
pub open spec fn keep(record: JournalView) -> PlanView {
    PlanView { steps: Seq::empty(), record }
}

/// How a record is rolled back: the pair in the backup is restored, the gallery
/// first, and the journal says so. A first publication has nothing to restore
/// and may have left no active file.
pub open spec fn rollback_plan(
    record: JournalView,
    output: OutputView,
    fault: Option<FaultPoint>,
) -> Result<PlanView, RecoveryError> {
    let rolled_back = in_phase(record, JournalPhase::RolledBack);
    if record.previous_generation is Some {
        match backup_error(output.backup, record) {
            Some(e) => Err(e),
            None => if fault == Some(FaultPoint::AfterRestoreGallery) || fault == Some(
                FaultPoint::BeforeRestoreState,
            ) {
                Ok(
                    PlanView {
                        steps: seq![
                            StepView::RestoreGallery(record.previous_gallery_sha256->0),
                            StepView::Fault(fault->0),
                        ],
                        record,
                    },
                )
            } else {
                Ok(
                    PlanView {
                        steps: seq![
                            StepView::RestoreGallery(record.previous_gallery_sha256->0),
                            StepView::RestoreState(record.previous_state_sha256->0),
                            StepView::WriteJournal(rolled_back),
                        ],
                        record: rolled_back,
                    },
                )
            },
        }
    } else if output.gallery is Some || output.state is Some {
        Err(RecoveryError::InitialHasActiveFiles)
    } else {
        Ok(abandoned_plan(record))
    }
}

/// How a first publication that installed nothing is rolled back: the journal
/// says so.
pub open spec fn abandoned_plan(record: JournalView) -> PlanView {
    let rolled_back = in_phase(record, JournalPhase::RolledBack);
    PlanView { steps: seq![StepView::WriteJournal(rolled_back)], record: rolled_back }
}

/// How a fully installed generation is promoted: the journal catches up.
pub open spec fn promotion_plan(record: JournalView) -> PlanView {
    if record.phase == JournalPhase::StateInstalled {
        let committed = in_phase(record, JournalPhase::Committed);
        PlanView { steps: seq![StepView::WriteJournal(committed)], record: committed }
    } else {
        let installed = in_phase(record, JournalPhase::StateInstalled);
        let committed = in_phase(installed, JournalPhase::Committed);
        PlanView {
            steps: seq![StepView::WriteJournal(installed), StepView::WriteJournal(committed)],
            record: committed,
        }
    }
}

/// How a first publication whose gallery is installed is completed.
pub open spec fn completion_plan(record: JournalView) -> PlanView {
    let installed = in_phase(record, JournalPhase::StateInstalled);
    let committed = in_phase(installed, JournalPhase::Committed);
    PlanView {
        steps: seq![
            StepView::InstallState(record.state_sha256),
            StepView::WriteJournal(installed),
            StepView::WriteJournal(committed),
        ],
        record: committed,
    }
}

/// Whether a record leaves room in the numbering for the records that recovery
/// may write after it: none after a settled one, one after a record that only
/// has to be committed, and two after any other.
pub open spec fn leaves_room(record: JournalView) -> bool {
    match record.phase {
        JournalPhase::Committed | JournalPhase::RolledBack => true,
        JournalPhase::StateInstalled => record.journal_sequence < u64::MAX,
        _ => record.journal_sequence < u64::MAX - 1,
    }
}

/// Whether recovery can number the records that it may write after this one.
pub fn can_be_followed(record: &JournalRecord) -> (r: bool)
    ensures
        r == leaves_room(record@),
{
    match record.phase {
        JournalPhase::Committed | JournalPhase::RolledBack => true,
        JournalPhase::StateInstalled => record.journal_sequence < u64::MAX,
        _ => record.journal_sequence < u64::MAX - 1,
    }
}

/// What recovery does with a record.
pub open spec fn recovery_plan(
    record: JournalView,
    candidates: Seq<JournalView>,
    output: OutputView,
    fault: Option<FaultPoint>,
) -> Result<PlanView, RecoveryError> {
    let active = classification(record, output.named_gallery, output.named_state);
    let installed = active.gallery == ActiveStatus::New && active.state == ActiveStatus::New;
    let first = record.previous_generation is None;
    if chain_error(record, candidates) is Some {
        Err(chain_error(record, candidates)->0)
    } else {
        match record.phase {
            JournalPhase::Committed => if !installed {
                Err(RecoveryError::CommittedMismatch)
            } else {
                match document_error(output.named_gallery->0, output.conforms, output.assets) {
                    Some(e) => Err(e),
                    None => Ok(keep(record)),
                }
            },
            JournalPhase::Prepared => if first && active.gallery == ActiveStatus::New
                && active.state == ActiveStatus::Missing {
                match staging_error(output.staging, record) {
                    Some(e) => Err(e),
                    None => Ok(completion_plan(record)),
                }
            } else if first && active.gallery == ActiveStatus::Missing && active.state
                == ActiveStatus::Missing {
                Ok(abandoned_plan(record))
            } else {
                rollback_plan(record, output, fault)
            },
            JournalPhase::BackupCreated
            | JournalPhase::GalleryInstalled
            | JournalPhase::StateInstalled => if installed {
                match staging_error(output.staging, record) {
                    Some(e) => Err(e),
                    None => match backup_error(output.backup, record) {
                        Some(e) if !first => Err(e),
                        _ => Ok(promotion_plan(record)),
                    },
                }
            } else {
                rollback_plan(record, output, fault)
            },
            JournalPhase::RolledBack => if first {
                if output.gallery is Some || output.state is Some {
                    Err(RecoveryError::RolledBackHasActiveFiles)
                } else {
                    Ok(keep(record))
                }
            } else {
                match backup_error(output.backup, record) {
                    Some(e) => Err(e),
                    None => match active_previous_error(output.gallery, output.state, record) {
                        Some(e) => Err(e),
                        None => Ok(keep(record)),
                    },
                }
            },
        }
    }
}

/// Whether an outcome is the one that is due.
pub open spec fn plan_outcome(
    due: Result<PlanView, RecoveryError>,
    r: Result<PublicationPlan, RecoveryError>,
) -> bool {
    match (due, r) {
        (Ok(plan), Ok(made)) => made@ == plan,
        (Err(e), Err(f)) => e == f,
        _ => false,
    }
}

fn kept(record: &JournalRecord) -> (r: PublicationPlan)
    ensures
        r@ == keep(record@),
{
    let r: PublicationPlan = PublicationPlan { steps: Vec::new(), record: record.duplicate() };
    proof {
        assert(steps_view(r.steps@) =~= Seq::<StepView>::empty());
    }
    r
}

/// Decides how a record is rolled back.
pub fn rollback_record(
    record: &JournalRecord,
    candidates: &[JournalRecord],
    output: &OutputSnapshot,
    fault: Option<FaultPoint>,
) -> (r: Result<PublicationPlan, RecoveryError>)
    requires
        record.journal_sequence < u64::MAX,
    ensures
        chain_error(record@, records_view(candidates@)) matches Some(e) ==> r matches Err(f) && e
            == f,
        chain_error(record@, records_view(candidates@)) is None ==> plan_outcome(
            rollback_plan(record@, output@, fault),
            r,
        ),
{
    match validate_generation_chain(record, candidates) {
        Ok(()) => {},
        Err(e) => {
            return Err(e);
        },
    }
    let mut steps: Vec<PublicationStep> = Vec::new();
    if record.previous_generation.is_some() {
        match verify_backup(&output.backup, record) {
            Ok(()) => {},
            Err(e) => {
                return Err(e);
            },
        }
        match (&record.previous_gallery_sha256, &record.previous_state_sha256) {
            (Some(gallery), Some(state)) => {
                push_step(&mut steps, PublicationStep::RestoreGallery(gallery.clone()));
                match fault {
                    Some(FaultPoint::AfterRestoreGallery) | Some(FaultPoint::BeforeRestoreState) => {
                        push_step(&mut steps, PublicationStep::Fault(fault.unwrap()));
                        proof {
                            assert(steps_view(steps@) =~= rollback_plan(
                                record@,
                                output@,
                                fault,
                            )->Ok_0.steps);
                        }
                        return Ok(PublicationPlan { steps, record: record.duplicate() });
                    },
                    _ => {},
                }
                push_step(&mut steps, PublicationStep::RestoreState(state.clone()));
            },
            _ => {
                return Err(RecoveryError::IncompleteEvidence);
            },
        }
    } else if output.gallery.is_some() || output.state.is_some() {
        return Err(RecoveryError::InitialHasActiveFiles);
    }
    let rolled_back: JournalRecord = record.with_phase(JournalPhase::RolledBack);
    push_step(&mut steps, PublicationStep::WriteJournal(rolled_back.duplicate()));
    proof {
        assert(steps_view(steps@) =~= rollback_plan(record@, output@, fault)->Ok_0.steps);
    }
    Ok(PublicationPlan { steps, record: rolled_back })
}

fn abandoned(record: &JournalRecord) -> (r: PublicationPlan)
    requires
        record.journal_sequence < u64::MAX,
    ensures
        r@ == abandoned_plan(record@),
{
    let mut steps: Vec<PublicationStep> = Vec::new();
    let rolled_back: JournalRecord = record.with_phase(JournalPhase::RolledBack);
    push_step(&mut steps, PublicationStep::WriteJournal(rolled_back.duplicate()));
    proof {
        assert(steps_view(steps@) =~= abandoned_plan(record@).steps);
    }
    PublicationPlan { steps, record: rolled_back }
}

fn promoted(record: &JournalRecord) -> (r: PublicationPlan)
    requires
        record.phase != JournalPhase::Committed && record.phase != JournalPhase::RolledBack,
        leaves_room(record@),
    ensures
        r@ == promotion_plan(record@),
{
    let mut steps: Vec<PublicationStep> = Vec::new();
    let installed: JournalRecord = if record.phase != JournalPhase::StateInstalled {
        let installed: JournalRecord = record.with_phase(JournalPhase::StateInstalled);
        push_step(&mut steps, PublicationStep::WriteJournal(installed.duplicate()));
        installed
    } else {
        record.duplicate()
    };
    let committed: JournalRecord = installed.with_phase(JournalPhase::Committed);
    push_step(&mut steps, PublicationStep::WriteJournal(committed.duplicate()));
    proof {
        assert(steps_view(steps@) =~= promotion_plan(record@).steps);
    }
    PublicationPlan { steps, record: committed }
}

fn completed(record: &JournalRecord) -> (r: PublicationPlan)
    requires
        record.journal_sequence < u64::MAX - 1,
    ensures
        r@ == completion_plan(record@),
{
    let mut steps: Vec<PublicationStep> = Vec::new();
    let installed: JournalRecord = record.with_phase(JournalPhase::StateInstalled);
    let committed: JournalRecord = installed.with_phase(JournalPhase::Committed);
    push_step(&mut steps, PublicationStep::InstallState(record.state_sha256.clone()));
    push_step(&mut steps, PublicationStep::WriteJournal(installed));
    push_step(&mut steps, PublicationStep::WriteJournal(committed.duplicate()));
    proof {
        assert(steps_view(steps@) =~= completion_plan(record@).steps);
    }
    PublicationPlan { steps, record: committed }
}

/// Decides what recovery does with a record, given all valid records and what
/// the output directory holds.
pub fn recover_record(
    record: &JournalRecord,
    candidates: &[JournalRecord],
    output: &OutputSnapshot,
    fault: Option<FaultPoint>,
) -> (r: Result<PublicationPlan, RecoveryError>)
    requires
        leaves_room(record@),
    ensures
        plan_outcome(
            recovery_plan(record@, records_view(candidates@), output@, fault),
            r,
        ),
{
    let gallery: Option<Vec<u8>> = match &output.named_gallery {
        Some(file) => Some(vstd::slice::slice_to_vec(file.bytes().as_slice())),
        None => None,
    };
    let active: ActiveClassification = classify_active(record, &gallery, &output.named_state);
    match validate_generation_chain(record, candidates) {
        Ok(()) => {},
        Err(e) => {
            return Err(e);
        },
    }
    let installed: bool = active.gallery == ActiveStatus::New && active.state == ActiveStatus::New;
    let first: bool = record.previous_generation.is_none();
    match record.phase {
        JournalPhase::Committed => {
            if !installed {
                return Err(RecoveryError::CommittedMismatch);
            }
            match &output.named_gallery {
                Some(file) => match check_document(file, output.conforms, &output.assets) {
                    Ok(()) => Ok(kept(record)),
                    Err(e) => Err(e),
                },
                None => Err(RecoveryError::CommittedMismatch),
            }
        },
        JournalPhase::Prepared => {
            if first && active.gallery == ActiveStatus::New && active.state
                == ActiveStatus::Missing {
                match validate_staging(&output.staging, record) {
                    Ok(()) => Ok(completed(record)),
                    Err(e) => Err(e),
                }
            } else if first && active.gallery == ActiveStatus::Missing && active.state
                == ActiveStatus::Missing {
                Ok(abandoned(record))
            } else {
                rollback_record(record, candidates, output, fault)
            }
        },
        JournalPhase::BackupCreated
        | JournalPhase::GalleryInstalled
        | JournalPhase::StateInstalled => {
            if installed {
                match validate_staging(&output.staging, record) {
                    Ok(()) => {},
                    Err(e) => {
                        return Err(e);
                    },
                }
                if !first {
                    match verify_backup(&output.backup, record) {
                        Ok(()) => {},
                        Err(e) => {
                            return Err(e);
                        },
                    }
                }
                Ok(promoted(record))
            } else {
                rollback_record(record, candidates, output, fault)
            }
        },
        JournalPhase::RolledBack => {
            if first {
                if output.gallery.is_some() || output.state.is_some() {
                    return Err(RecoveryError::RolledBackHasActiveFiles);
                }
                return Ok(kept(record));
            }
            match verify_backup(&output.backup, record) {
                Ok(()) => {},
                Err(e) => {
                    return Err(e);
                },
            }
            match verify_active_against_previous(&output.gallery, &output.state, record) {
                Ok(()) => Ok(kept(record)),
                Err(e) => Err(e),
            }
        },
    }
}

/// What recovery does, given all records found and what the output directory
/// holds: nothing without a valid record and an active file, and otherwise what
/// the latest valid record calls for.
pub open spec fn publication_recovery(
    found: Seq<JournalView>,
    output: OutputView,
    fault: Option<FaultPoint>,
) -> Result<Option<PlanView>, RecoveryError> {
    let records = usable_records(found);
    if records.len() == 0 {
        match (output.gallery is Some, output.state is Some) {
            (false, false) => Ok(None),
            (true, true) => Err(RecoveryError::UntrustedActiveFiles),
            _ => Err(RecoveryError::IncompleteInitial),
        }
    } else if is_ambiguous(records) {
        Err(RecoveryError::AmbiguousSequence)
    } else {
        match recovery_plan(newest_record(records), records, output, fault) {
            Ok(plan) => Ok(Some(plan)),
            Err(e) => Err(e),
        }
    }
}

/// Whether the record that recovery selects, where it selects one, leaves room
/// for those that may follow it.
pub open spec fn sequence_goes_on(found: Seq<JournalView>) -> bool {
    let records = usable_records(found);
    records.len() > 0 && !is_ambiguous(records) ==> leaves_room(newest_record(records))
}

/// Decides what recovery does, given all records found and what the output
/// directory holds, with the staging and backup directories of the latest valid
/// record. It can be made to fail on purpose.
pub fn recover_publication_with_fault(
    found: Vec<JournalRecord>,
    output: &OutputSnapshot,
    fault: Option<FaultPoint>,
) -> (r: Result<Option<PublicationPlan>, RecoveryError>)
    requires
        sequence_goes_on(records_view(found@)),
    ensures
        match (publication_recovery(records_view(found@), output@, fault), r) {
            (Ok(None), Ok(None)) => true,
            (Ok(Some(plan)), Ok(Some(made))) => made@ == plan,
            (Err(e), Err(f)) => e == f,
            _ => false,
        },
{
    match select_record(found, output.gallery.is_some(), output.state.is_some()) {
        Err(e) => Err(e),
        Ok(None) => Ok(None),
        Ok(Some(selected)) => {
            match recover_record(&selected.record, selected.evidence.as_slice(), output, fault) {
                Ok(plan) => Ok(Some(plan)),
                Err(e) => Err(e),
            }
        },
    }
}

/// Decides what recovery does, without a fault.
pub fn recover_publication(found: Vec<JournalRecord>, output: &OutputSnapshot) -> (r: Result<
    Option<PublicationPlan>,
    RecoveryError,
>)
    requires
        sequence_goes_on(records_view(found@)),
    ensures
        match (publication_recovery(records_view(found@), output@, None), r) {
            (Ok(None), Ok(None)) => true,
            (Ok(Some(plan)), Ok(Some(made))) => made@ == plan,
            (Err(e), Err(f)) => e == f,
            _ => false,
        },
{
    recover_publication_with_fault(found, output, None)
}

} // verus!
