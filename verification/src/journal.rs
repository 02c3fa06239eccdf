//! The publication journal: one record for each step of a local publication.

use crate::digest::{hex_digest, hex_sha256};
use crate::inventory::Duplicate;
use crate::json::{
    encode, json_encoding, members_view, object_of, optional_text_json, optional_text_value,
    push_member, reads_back, text_value, Json, JsonView,
};
use crate::sealing::{lemma_artifact_is_plain, lemma_journal_is_plain};
use crate::text::{
    chars_of, contains_dot_dot, copy_option, decimal, decimal_text, has_dot_dot, is_digit,
    is_sha256, is_sha256_text, joined, joined3, option_text, same_option, same_text,
};
use vstd::prelude::*;

verus! {

/// The only journal format that is read and written.
pub const JOURNAL_SCHEMA_VERSION: u32 = 1;

/// How far a publication has come.
#[derive(Debug, Clone, Copy, PartialEq, Eq, Structural)]
pub enum JournalPhase {
    Prepared,
    BackupCreated,
    GalleryInstalled,
    StateInstalled,
    Committed,
    RolledBack,
}

/// The name of a phase in documents.
pub open spec fn phase_text(phase: JournalPhase) -> Seq<char> {
    match phase {
        JournalPhase::Prepared => "PREPARED"@,
        JournalPhase::BackupCreated => "BACKUP_CREATED"@,
        JournalPhase::GalleryInstalled => "GALLERY_INSTALLED"@,
        JournalPhase::StateInstalled => "STATE_INSTALLED"@,
        JournalPhase::Committed => "COMMITTED"@,
        JournalPhase::RolledBack => "ROLLED_BACK"@,
    }
}

/// The name of a phase in documents.
pub fn phase_name(phase: JournalPhase) -> (r: &'static str)
    ensures
        r@ == phase_text(phase),
{
    match phase {
        JournalPhase::Prepared => "PREPARED",
        JournalPhase::BackupCreated => "BACKUP_CREATED",
        JournalPhase::GalleryInstalled => "GALLERY_INSTALLED",
        JournalPhase::StateInstalled => "STATE_INSTALLED",
        JournalPhase::Committed => "COMMITTED",
        JournalPhase::RolledBack => "ROLLED_BACK",
    }
}

/// One step of a local publication.
#[derive(Debug, PartialEq, Eq)]
pub struct JournalRecord {
    pub schema_version: u32,
    pub journal_sequence: u64,
    pub generation: String,
    pub previous_generation: Option<String>,
    pub phase: JournalPhase,
    pub gallery_sha256: String,
    pub state_sha256: String,
    pub gallery_path: String,
    pub state_path: String,
    pub staging_directory: String,
    pub backup_directory: String,
    pub previous_gallery_sha256: Option<String>,
    pub previous_state_sha256: Option<String>,
    pub record_sha256: String,
}

/// The mathematical form of a journal record.
pub struct JournalView {
    pub schema_version: u32,
    pub journal_sequence: u64,
    pub generation: Seq<char>,
    pub previous_generation: Option<Seq<char>>,
    pub phase: JournalPhase,
    pub gallery_sha256: Seq<char>,
    pub state_sha256: Seq<char>,
    pub gallery_path: Seq<char>,
    pub state_path: Seq<char>,
    pub staging_directory: Seq<char>,
    pub backup_directory: Seq<char>,
    pub previous_gallery_sha256: Option<Seq<char>>,
    pub previous_state_sha256: Option<Seq<char>>,
    pub record_sha256: Seq<char>,
}

impl View for JournalRecord {
    type V = JournalView;

    open spec fn view(&self) -> JournalView {
        JournalView {
            schema_version: self.schema_version,
            journal_sequence: self.journal_sequence,
            generation: self.generation@,
            previous_generation: option_text(self.previous_generation),
            phase: self.phase,
            gallery_sha256: self.gallery_sha256@,
            state_sha256: self.state_sha256@,
            gallery_path: self.gallery_path@,
            state_path: self.state_path@,
            staging_directory: self.staging_directory@,
            backup_directory: self.backup_directory@,
            previous_gallery_sha256: option_text(self.previous_gallery_sha256),
            previous_state_sha256: option_text(self.previous_state_sha256),
            record_sha256: self.record_sha256@,
        }
    }
}

impl Duplicate for JournalRecord {
    fn duplicate(&self) -> (r: Self) {
        JournalRecord {
            schema_version: self.schema_version,
            journal_sequence: self.journal_sequence,
            generation: self.generation.clone(),
            previous_generation: copy_option(&self.previous_generation),
            phase: self.phase,
            gallery_sha256: self.gallery_sha256.clone(),
            state_sha256: self.state_sha256.clone(),
            gallery_path: self.gallery_path.clone(),
            state_path: self.state_path.clone(),
            staging_directory: self.staging_directory.clone(),
            backup_directory: self.backup_directory.clone(),
            previous_gallery_sha256: copy_option(&self.previous_gallery_sha256),
            previous_state_sha256: copy_option(&self.previous_state_sha256),
            record_sha256: self.record_sha256.clone(),
        }
    }
}

impl Clone for JournalRecord {
    fn clone(&self) -> (r: Self)
        ensures
            r@ == self@,
    {
        self.duplicate()
    }
}

/// The records of a list.
pub open spec fn records_view(records: Seq<JournalRecord>) -> Seq<JournalView> {
    Seq::new(records.len(), |i: int| records[i]@)
}

// ---------------------------------------------------------------------------
// Canonical content
// ---------------------------------------------------------------------------
/// The canonical JSON of a record: every field but the digest, keys ascending.
pub open spec fn journal_json(v: JournalView) -> JsonView {
    JsonView::Object(
        seq![
            ("backupDirectory"@, JsonView::Text(v.backup_directory)),
            ("galleryPath"@, JsonView::Text(v.gallery_path)),
            ("gallerySha256"@, JsonView::Text(v.gallery_sha256)),
            ("generation"@, JsonView::Text(v.generation)),
            ("journalSequence"@, JsonView::Integer(v.journal_sequence)),
            ("phase"@, JsonView::Text(phase_text(v.phase))),
            ("previousGallerySha256"@, optional_text_json(v.previous_gallery_sha256)),
            ("previousGeneration"@, optional_text_json(v.previous_generation)),
            ("previousStateSha256"@, optional_text_json(v.previous_state_sha256)),
            ("schemaVersion"@, JsonView::Integer(v.schema_version as u64)),
            ("stagingDirectory"@, JsonView::Text(v.staging_directory)),
            ("statePath"@, JsonView::Text(v.state_path)),
            ("stateSha256"@, JsonView::Text(v.state_sha256)),
        ],
    )
}

/// The digest of a record's canonical JSON.
pub open spec fn journal_digest(v: JournalView) -> Seq<char> {
    hex_sha256(json_encoding(journal_json(v)))
}

/// The record with the digest of its content.
pub open spec fn sealed_record(v: JournalView) -> JournalView {
    JournalView { record_sha256: journal_digest(v), ..v }
}

/// The next record of the same publication, in the given phase.
pub open spec fn in_phase(v: JournalView, phase: JournalPhase) -> JournalView {
    sealed_record(
        JournalView { journal_sequence: (v.journal_sequence + 1) as u64, phase, ..v },
    )
}

// ---------------------------------------------------------------------------
// Validity
// ---------------------------------------------------------------------------
/// Why a record is refused.
#[derive(Debug, Clone, Copy, PartialEq, Eq, Structural)]
pub enum JournalError {
    UnsupportedSchemaVersion,
    MissingSequenceOrGeneration,
    InvalidPreviousGeneration,
    IncompletePrevious,
    UnsafePath,
    InvalidCandidateHash,
    InvalidPreviousGalleryHash,
    InvalidPreviousStateHash,
    DigestMismatch,
    InvalidArtifactRecord,
    DifferentCandidate,
    InvalidCandidate,
}

/// A generation name: `g-` and six decimal digits.
pub open spec fn is_generation_text(s: Seq<char>) -> bool {
    &&& s.len() == 8
    &&& s[0] == 'g'
    &&& s[1] == '-'
    &&& forall|i: int| 2 <= i < 8 ==> is_digit(#[trigger] s[i])
}

/// A path below the output directory: not absolute, without two full stops in a
/// row. Absolute is what is so on Unix, a path that starts with a slash. What only
/// Windows takes for absolute, such as a drive letter before a slash, is not told
/// apart: that depends on the machine, not on the record.
pub open spec fn is_safe_relative(s: Seq<char>) -> bool {
    !(s.len() > 0 && s[0] == '/') && !has_dot_dot(s)
}

/// Whether an optional digest is absent or well-formed.
pub open spec fn is_optional_sha256(t: Option<Seq<char>>) -> bool {
    t is Some ==> is_sha256_text(t->0)
}

/// The first thing wrong with a record.
pub open spec fn journal_error(v: JournalView) -> Option<JournalError> {
    let previous = v.previous_generation;
    if v.schema_version != JOURNAL_SCHEMA_VERSION {
        Some(JournalError::UnsupportedSchemaVersion)
    } else if v.journal_sequence == 0 || !is_generation_text(v.generation) {
        Some(JournalError::MissingSequenceOrGeneration)
    } else if previous is Some && (!is_generation_text(previous->0) || previous->0 == v.generation) {
        Some(JournalError::InvalidPreviousGeneration)
    } else if (previous is Some) != (v.previous_gallery_sha256 is Some) || (previous is Some) != (
    v.previous_state_sha256 is Some) {
        Some(JournalError::IncompletePrevious)
    } else if !is_safe_relative(v.gallery_path) || !is_safe_relative(v.state_path)
        || !is_safe_relative(v.staging_directory) || !is_safe_relative(v.backup_directory) {
        Some(JournalError::UnsafePath)
    } else if !is_sha256_text(v.gallery_sha256) || !is_sha256_text(v.state_sha256) {
        Some(JournalError::InvalidCandidateHash)
    } else if !is_optional_sha256(v.previous_gallery_sha256) {
        Some(JournalError::InvalidPreviousGalleryHash)
    } else if !is_optional_sha256(v.previous_state_sha256) {
        Some(JournalError::InvalidPreviousStateHash)
    } else if v.record_sha256 != journal_digest(v) {
        Some(JournalError::DigestMismatch)
    } else {
        None
    }
}

/// Whether the text is a generation name.
pub fn is_generation(s: &str) -> (r: bool)
    ensures
        r == is_generation_text(s@),
{
    let chars: Vec<char> = chars_of(s);
    if chars.len() != 8 || chars[0] != 'g' || chars[1] != '-' {
        return false;
    }
    let mut i: usize = 2;
    while i < 8
        invariant
            2 <= i <= 8,
            chars@ == s@,
            chars@.len() == 8,
            forall|j: int| 2 <= j < i ==> is_digit(#[trigger] chars@[j]),
        decreases 8 - i,
    {
        if !('0' <= chars[i] && chars[i] <= '9') {
            proof {
                assert(!is_digit(s@[i as int]));
            }
            return false;
        }
        i = i + 1;
    }
    true
}

fn safe_relative(s: &str) -> (r: bool)
    ensures
        r == is_safe_relative(s@),
{
    let chars: Vec<char> = chars_of(s);
    !(chars.len() > 0 && chars[0] == '/') && !contains_dot_dot(s)
}

fn optional_sha256(t: &Option<String>) -> (r: bool)
    ensures
        r == is_optional_sha256(option_text(*t)),
{
    match t {
        Some(s) => is_sha256(s.as_str()),
        None => true,
    }
}

impl JournalRecord {
    /// A sealed record of a publication to the usual places.
    pub fn new(
        sequence: u64,
        generation: String,
        previous_generation: Option<String>,
        phase: JournalPhase,
        gallery_sha256: String,
        state_sha256: String,
        staging_directory: String,
        backup_directory: String,
        previous_gallery_sha256: Option<String>,
        previous_state_sha256: Option<String>,
    ) -> (r: JournalRecord)
        ensures
            r@ == sealed_record(
                (JournalView {
                    schema_version: JOURNAL_SCHEMA_VERSION,
                    journal_sequence: sequence,
                    generation: generation@,
                    previous_generation: option_text(previous_generation),
                    phase,
                    gallery_sha256: gallery_sha256@,
                    state_sha256: state_sha256@,
                    gallery_path: "gallery.json"@,
                    state_path: ".publisher/state.json"@,
                    staging_directory: staging_directory@,
                    backup_directory: backup_directory@,
                    previous_gallery_sha256: option_text(previous_gallery_sha256),
                    previous_state_sha256: option_text(previous_state_sha256),
                    record_sha256: Seq::empty(),
                }),
            ),
            reads_back(journal_json(r@)),
    {
        let mut record: JournalRecord = JournalRecord {
            schema_version: JOURNAL_SCHEMA_VERSION,
            journal_sequence: sequence,
            generation,
            previous_generation,
            phase,
            gallery_sha256,
            state_sha256,
            gallery_path: "gallery.json".to_owned(),
            state_path: ".publisher/state.json".to_owned(),
            staging_directory,
            backup_directory,
            previous_gallery_sha256,
            previous_state_sha256,
            record_sha256: String::new(),
        };
        record.record_sha256 = record.compute_record_sha256();
        record
    }

    /// The next record of the same publication, in the given phase.
    pub fn with_phase(&self, phase: JournalPhase) -> (r: JournalRecord)
        requires
            self.journal_sequence < u64::MAX,
        ensures
            r@ == in_phase(self@, phase),
            reads_back(journal_json(r@)),
    {
        let mut next: JournalRecord = self.duplicate();
        next.journal_sequence = self.journal_sequence + 1;
        next.phase = phase;
        next.record_sha256 = next.compute_record_sha256();
        next
    }

    /// The digest of the record's canonical JSON.
    pub fn compute_record_sha256(&self) -> (r: String)
        ensures
            r@ == journal_digest(self@),
            is_sha256_text(r@),
            reads_back(journal_json(self@)),
    {
        let mut members: Vec<(String, Json)> = Vec::new();
        push_member(&mut members, "backupDirectory", text_value(self.backup_directory.as_str()));
        push_member(&mut members, "galleryPath", text_value(self.gallery_path.as_str()));
        push_member(&mut members, "gallerySha256", text_value(self.gallery_sha256.as_str()));
        push_member(&mut members, "generation", text_value(self.generation.as_str()));
        push_member(&mut members, "journalSequence", Json::Integer(self.journal_sequence));
        push_member(&mut members, "phase", text_value(phase_name(self.phase)));
        push_member(
            &mut members,
            "previousGallerySha256",
            optional_text_value(&self.previous_gallery_sha256),
        );
        push_member(
            &mut members,
            "previousGeneration",
            optional_text_value(&self.previous_generation),
        );
        push_member(
            &mut members,
            "previousStateSha256",
            optional_text_value(&self.previous_state_sha256),
        );
        push_member(&mut members, "schemaVersion", Json::Integer(self.schema_version as u64));
        push_member(&mut members, "stagingDirectory", text_value(self.staging_directory.as_str()));
        push_member(&mut members, "statePath", text_value(self.state_path.as_str()));
        push_member(&mut members, "stateSha256", text_value(self.state_sha256.as_str()));
        proof {
            assert(members_view(members@) =~= journal_json(self@)->Object_0);
            lemma_journal_is_plain(self@);
        }
        let document: String = encode(&object_of(members));
        hex_digest(document.as_str().as_bytes())
    }

    /// Checks every field and the digest.
    pub fn validate(&self) -> (r: Result<(), JournalError>)
        ensures
            match journal_error(self@) {
                Some(e) => r == Err::<(), JournalError>(e),
                None => r is Ok,
            },
            r is Ok ==> reads_back(journal_json(self@)),
    {
        if self.schema_version != JOURNAL_SCHEMA_VERSION {
            return Err(JournalError::UnsupportedSchemaVersion);
        }
        if self.journal_sequence == 0 || !is_generation(self.generation.as_str()) {
            return Err(JournalError::MissingSequenceOrGeneration);
        }
        match &self.previous_generation {
            Some(previous) => {
                if !is_generation(previous.as_str()) || same_text(
                    previous.as_str(),
                    self.generation.as_str(),
                ) {
                    return Err(JournalError::InvalidPreviousGeneration);
                }
            },
            None => {},
        }
        let replaces: bool = self.previous_generation.is_some();
        if replaces != self.previous_gallery_sha256.is_some() || replaces
            != self.previous_state_sha256.is_some() {
            return Err(JournalError::IncompletePrevious);
        }
        if !safe_relative(self.gallery_path.as_str()) || !safe_relative(self.state_path.as_str())
            || !safe_relative(self.staging_directory.as_str()) || !safe_relative(
            self.backup_directory.as_str(),
        ) {
            return Err(JournalError::UnsafePath);
        }
        if !is_sha256(self.gallery_sha256.as_str()) || !is_sha256(self.state_sha256.as_str()) {
            return Err(JournalError::InvalidCandidateHash);
        }
        if !optional_sha256(&self.previous_gallery_sha256) {
            return Err(JournalError::InvalidPreviousGalleryHash);
        }
        if !optional_sha256(&self.previous_state_sha256) {
            return Err(JournalError::InvalidPreviousStateHash);
        }
        let digest: String = self.compute_record_sha256();
        if !same_text(self.record_sha256.as_str(), digest.as_str()) {
            return Err(JournalError::DigestMismatch);
        }
        Ok(())
    }

    /// Whether two records say the same.
    pub fn same_record(&self, other: &JournalRecord) -> (r: bool)
        ensures
            r == (self@ == other@),
    {
        self.schema_version == other.schema_version && self.journal_sequence
            == other.journal_sequence && same_text(
            self.generation.as_str(),
            other.generation.as_str(),
        ) && same_option(&self.previous_generation, &other.previous_generation) && self.phase
            == other.phase && same_text(
            self.gallery_sha256.as_str(),
            other.gallery_sha256.as_str(),
        ) && same_text(self.state_sha256.as_str(), other.state_sha256.as_str()) && same_text(
            self.gallery_path.as_str(),
            other.gallery_path.as_str(),
        ) && same_text(self.state_path.as_str(), other.state_path.as_str()) && same_text(
            self.staging_directory.as_str(),
            other.staging_directory.as_str(),
        ) && same_text(self.backup_directory.as_str(), other.backup_directory.as_str())
            && same_option(&self.previous_gallery_sha256, &other.previous_gallery_sha256)
            && same_option(&self.previous_state_sha256, &other.previous_state_sha256) && same_text(
            self.record_sha256.as_str(),
            other.record_sha256.as_str(),
        )
    }
}

/// The record of a staged or backed-up pair of files.
#[derive(Debug, PartialEq, Eq)]
pub struct ArtifactRecord {
    pub generation: String,
    pub gallery_sha256: String,
    pub state_sha256: String,
    pub record_sha256: String,
}

/// The mathematical form of an artifact record.
pub struct ArtifactView {
    pub generation: Seq<char>,
    pub gallery_sha256: Seq<char>,
    pub state_sha256: Seq<char>,
    pub record_sha256: Seq<char>,
}

impl View for ArtifactRecord {
    type V = ArtifactView;

    open spec fn view(&self) -> ArtifactView {
        ArtifactView {
            generation: self.generation@,
            gallery_sha256: self.gallery_sha256@,
            state_sha256: self.state_sha256@,
            record_sha256: self.record_sha256@,
        }
    }
}

/// The canonical JSON of an artifact record: every field but the digest.
pub open spec fn artifact_json(v: ArtifactView) -> JsonView {
    JsonView::Object(
        seq![
            ("gallerySha256"@, JsonView::Text(v.gallery_sha256)),
            ("generation"@, JsonView::Text(v.generation)),
            ("stateSha256"@, JsonView::Text(v.state_sha256)),
        ],
    )
}

/// The digest of an artifact record's canonical JSON.
pub open spec fn artifact_digest(v: ArtifactView) -> Seq<char> {
    hex_sha256(json_encoding(artifact_json(v)))
}

/// An artifact record whose fields are well-formed and whose digest is that of
/// its content.
pub open spec fn artifact_valid(v: ArtifactView) -> bool {
    &&& is_generation_text(v.generation)
    &&& is_sha256_text(v.gallery_sha256)
    &&& is_sha256_text(v.state_sha256)
    &&& v.record_sha256 == artifact_digest(v)
}

/// The sealed artifact record of a pair.
pub open spec fn artifact_of(
    generation: Seq<char>,
    gallery_sha256: Seq<char>,
    state_sha256: Seq<char>,
) -> ArtifactView {
    let v = ArtifactView { generation, gallery_sha256, state_sha256, record_sha256: Seq::empty() };
    ArtifactView { record_sha256: artifact_digest(v), ..v }
}

impl ArtifactRecord {
    /// The sealed record of a pair.
    pub fn new(generation: String, gallery_sha256: String, state_sha256: String) -> (r:
        ArtifactRecord)
        ensures
            r@ == artifact_of(generation@, gallery_sha256@, state_sha256@),
            reads_back(artifact_json(r@)),
    {
        let mut record: ArtifactRecord = ArtifactRecord {
            generation,
            gallery_sha256,
            state_sha256,
            record_sha256: String::new(),
        };
        record.record_sha256 = record.compute_record_sha256();
        record
    }

    fn compute_record_sha256(&self) -> (r: String)
        ensures
            r@ == artifact_digest(self@),
            reads_back(artifact_json(self@)),
    {
        let mut members: Vec<(String, Json)> = Vec::new();
        push_member(&mut members, "gallerySha256", text_value(self.gallery_sha256.as_str()));
        push_member(&mut members, "generation", text_value(self.generation.as_str()));
        push_member(&mut members, "stateSha256", text_value(self.state_sha256.as_str()));
        proof {
            assert(members_view(members@) =~= artifact_json(self@)->Object_0);
            lemma_artifact_is_plain(self@);
        }
        let document: String = encode(&object_of(members));
        hex_digest(document.as_str().as_bytes())
    }

    /// Checks every field and the digest.
    pub fn validate(&self) -> (r: Result<(), JournalError>)
        ensures
            artifact_valid(self@) ==> r is Ok,
            !artifact_valid(self@) ==> r == Err::<(), JournalError>(
                JournalError::InvalidArtifactRecord,
            ),
            reads_back(artifact_json(self@)),
    {
        let digest: String = self.compute_record_sha256();
        if is_generation(self.generation.as_str()) && is_sha256(self.gallery_sha256.as_str())
            && is_sha256(self.state_sha256.as_str()) && same_text(
            self.record_sha256.as_str(),
            digest.as_str(),
        ) {
            Ok(())
        } else {
            Err(JournalError::InvalidArtifactRecord)
        }
    }
}

// ---------------------------------------------------------------------------
// Active files
// ---------------------------------------------------------------------------
/// Which generation an active file belongs to.
#[derive(Debug, Clone, Copy, PartialEq, Eq, Structural)]
pub enum ActiveStatus {
    Old,
    New,
    Missing,
    Corrupted,
    Unknown,
}

/// Which generation each of the two active files belongs to.
#[derive(Debug, Clone, Copy, PartialEq, Eq, Structural)]
pub struct ActiveClassification {
    pub gallery: ActiveStatus,
    pub state: ActiveStatus,
}

/// The content of a file, or none where the file does not exist.
pub open spec fn file_view(content: Option<Vec<u8>>) -> Option<Seq<u8>> {
    match content {
        Some(bytes) => Some(bytes@),
        None => None,
    }
}

/// The generation of a file by its digest: the new one first, then the old one.
pub open spec fn active_status(
    content: Option<Seq<u8>>,
    new_hash: Seq<char>,
    old_hash: Option<Seq<char>>,
) -> ActiveStatus {
    match content {
        None => ActiveStatus::Missing,
        Some(bytes) => if hex_sha256(bytes) == new_hash {
            ActiveStatus::New
        } else if old_hash == Some(hex_sha256(bytes)) {
            ActiveStatus::Old
        } else {
            ActiveStatus::Corrupted
        },
    }
}

/// The generations of the two active files.
pub open spec fn classification(
    record: JournalView,
    gallery: Option<Seq<u8>>,
    state: Option<Seq<u8>>,
) -> ActiveClassification {
    ActiveClassification {
        gallery: active_status(gallery, record.gallery_sha256, record.previous_gallery_sha256),
        state: active_status(state, record.state_sha256, record.previous_state_sha256),
    }
}

fn classify_one(content: &Option<Vec<u8>>, new_hash: &str, old_hash: &Option<String>) -> (r:
    ActiveStatus)
    ensures
        r == active_status(file_view(*content), new_hash@, option_text(*old_hash)),
{
    match content {
        None => ActiveStatus::Missing,
        Some(bytes) => {
            let hash: String = hex_digest(bytes.as_slice());
            if same_text(hash.as_str(), new_hash) {
                return ActiveStatus::New;
            }
            match old_hash {
                Some(old) => {
                    if same_text(hash.as_str(), old.as_str()) {
                        return ActiveStatus::Old;
                    }
                },
                None => {},
            }
            ActiveStatus::Corrupted
        },
    }
}

/// Which generation each of the two active files belongs to.
pub fn classify_active(
    record: &JournalRecord,
    gallery: &Option<Vec<u8>>,
    state: &Option<Vec<u8>>,
) -> (r: ActiveClassification)
    ensures
        r == classification(record@, file_view(*gallery), file_view(*state)),
{
    ActiveClassification {
        gallery: classify_one(
            gallery,
            record.gallery_sha256.as_str(),
            &record.previous_gallery_sha256,
        ),
        state: classify_one(state, record.state_sha256.as_str(), &record.previous_state_sha256),
    }
}

// ---------------------------------------------------------------------------
// Writing a record
// ---------------------------------------------------------------------------
/// A journal file as it was found.
#[derive(Debug, PartialEq, Eq)]
pub enum JournalFile {
    Absent,
    /// It could not be read, or its record is not valid.
    Invalid,
    Valid(JournalRecord),
}

/// The mathematical form of a journal file.
pub enum JournalFileView {
    Absent,
    Invalid,
    Valid(JournalView),
}

impl View for JournalFile {
    type V = JournalFileView;

    open spec fn view(&self) -> JournalFileView {
        match *self {
            JournalFile::Absent => JournalFileView::Absent,
            JournalFile::Invalid => JournalFileView::Invalid,
            JournalFile::Valid(record) => JournalFileView::Valid(record@),
        }
    }
}

/// What happens to the candidate file.
#[derive(Debug, Clone, Copy, PartialEq, Eq, Structural)]
pub enum CandidateDecision {
    /// It is written.
    Write,
    /// The one there says the same and is used.
    Reuse,
    /// The one there is left alone and the update ends.
    Refuse(JournalError),
}

/// What is to be done to make a record the current one.
#[derive(Debug, PartialEq, Eq)]
pub struct JournalUpdate {
    /// The name under which the current journal is kept in the history first.
    pub archive: Option<String>,
    /// What then happens to the candidate file.
    pub candidate: CandidateDecision,
}

/// A number in decimal with leading zeros up to a width.
pub open spec fn padded_text(n: nat, width: nat) -> Seq<char> {
    let digits = decimal_text(n);
    Seq::new(
        if digits.len() < width {
            (width - digits.len()) as nat
        } else {
            0
        },
        |i: int| '0',
    ) + digits
}

/// The name of a record in the history.
pub open spec fn history_name_text(sequence: u64) -> Seq<char> {
    "journal-"@ + padded_text(sequence as nat, 20) + ".json"@
}

/// A number in decimal with leading zeros up to a width.
pub fn padded(n: u64, width: usize) -> (r: String)
    ensures
        r@ == padded_text(n as nat, width as nat),
{
    let digits: String = decimal(n);
    let count: usize = chars_of(digits.as_str()).len();
    let mut zeros: String = String::new();
    let mut i: usize = count;
    while i < width
        invariant
            count <= i,
            i <= width || i == count,
            count == digits@.len(),
            zeros@ == Seq::new((i - count) as nat, |j: int| '0'),
        decreases width - i,
    {
        zeros.push('0');
        i = i + 1;
        proof {
            assert(zeros@ =~= Seq::new((i - count) as nat, |j: int| '0'));
        }
    }
    proof {
        assert(zeros@ =~= Seq::new(
            if digits@.len() < width {
                (width - digits@.len()) as nat
            } else {
                0
            },
            |j: int| '0',
        ));
    }
    joined(zeros.as_str(), digits.as_str())
}

/// The name of a record in the history.
pub fn history_name(sequence: u64) -> (r: String)
    ensures
        r@ == history_name_text(sequence),
{
    let number: String = padded(sequence, 20);
    joined3("journal-", number.as_str(), ".json")
}

/// What makes a record the current one, given the current journal and the
/// candidate file: the current record is archived first unless it already is; a
/// candidate that says the same is used again; any other candidate is left
/// alone and the update refused.
pub open spec fn journal_update_of(
    record: JournalView,
    current: JournalFileView,
    archived: bool,
    candidate: JournalFileView,
) -> Result<(Option<Seq<char>>, CandidateDecision), JournalError> {
    match journal_error(record) {
        Some(e) => Err(e),
        None => Ok(
            (
                match current {
                    JournalFileView::Valid(old) if !archived => Some(
                        history_name_text(old.journal_sequence),
                    ),
                    _ => None,
                },
                match candidate {
                    JournalFileView::Absent => CandidateDecision::Write,
                    JournalFileView::Invalid => CandidateDecision::Refuse(
                        JournalError::InvalidCandidate,
                    ),
                    JournalFileView::Valid(other) => if other == record {
                        CandidateDecision::Reuse
                    } else {
                        CandidateDecision::Refuse(JournalError::DifferentCandidate)
                    },
                },
            ),
        ),
    }
}

/// Decides how to make a record the current one. `archived` says whether the
/// history already holds a file of the current record's name.
pub fn update_journal(
    record: &JournalRecord,
    current: &JournalFile,
    archived: bool,
    candidate: &JournalFile,
) -> (r: Result<JournalUpdate, JournalError>)
    ensures
        match (journal_update_of(record@, current@, archived, candidate@), r) {
            (Ok((archive, decision)), Ok(update)) => option_text(update.archive) == archive
                && update.candidate == decision,
            (Err(e), Err(f)) => e == f,
            _ => false,
        },
{
    match record.validate() {
        Err(e) => {
            return Err(e);
        },
        Ok(()) => {},
    }
    let decision: CandidateDecision = match candidate {
        JournalFile::Absent => CandidateDecision::Write,
        JournalFile::Invalid => CandidateDecision::Refuse(JournalError::InvalidCandidate),
        JournalFile::Valid(other) => {
            if other.same_record(record) {
                CandidateDecision::Reuse
            } else {
                CandidateDecision::Refuse(JournalError::DifferentCandidate)
            }
        },
    };
    let archive: Option<String> = match current {
        JournalFile::Valid(old) => {
            if archived {
                None
            } else {
                Some(history_name(old.journal_sequence))
            }
        },
        _ => None,
    };
    Ok(JournalUpdate { archive, candidate: decision })
}

// ---------------------------------------------------------------------------
// Laws
// ---------------------------------------------------------------------------
/// A sealed record carries the digest of its own content, which does not depend
/// on the digest it carries.
pub proof fn law_record_digest_is_not_self_referential(v: JournalView, other: Seq<char>)
    ensures
        journal_digest(sealed_record(v)) == sealed_record(v).record_sha256,
        journal_digest(JournalView { record_sha256: other, ..v }) == journal_digest(v),
{
    assert(journal_json(sealed_record(v)) == journal_json(v));
    assert(journal_json(JournalView { record_sha256: other, ..v }) == journal_json(v));
}

/// The next record of a valid record is valid and one step further, and differs
/// from it in nothing but sequence, phase and digest.
pub proof fn law_next_phase_is_valid(v: JournalView, phase: JournalPhase)
    requires
        journal_error(v) is None,
        v.journal_sequence < u64::MAX,
    ensures
        journal_error(in_phase(v, phase)) is None,
        in_phase(v, phase).journal_sequence == v.journal_sequence + 1,
        in_phase(v, phase).phase == phase,
        in_phase(v, phase) == (JournalView {
            journal_sequence: in_phase(v, phase).journal_sequence,
            phase,
            record_sha256: in_phase(v, phase).record_sha256,
            ..v
        }),
{
    law_record_digest_is_not_self_referential(
        JournalView { journal_sequence: (v.journal_sequence + 1) as u64, phase, ..v },
        Seq::empty(),
    );
}

/// An existing candidate with the same record is used again, and one with
/// another record is never written over.
pub proof fn law_existing_candidate_is_never_overwritten(
    v: JournalView,
    current: JournalFileView,
    archived: bool,
    candidate: JournalFileView,
)
    requires
        journal_error(v) is None,
        candidate !is Absent,
    ensures
        journal_update_of(v, current, archived, candidate) matches Ok((_, decision)) && decision
            != CandidateDecision::Write && (decision == CandidateDecision::Reuse <==> candidate
            == JournalFileView::Valid(v)),
{
}

} // verus!
