//! Deterministic, provider-neutral reconciliation planning.
//!
//! This module only describes desired work. It never invokes providers or
//! performs remote I/O.

use crate::bundle::{files_view, ApplicationBundle, ApplicationBundleFile, BundleView};
use crate::config::{
    configuration_fingerprint_text, publication_configuration_fingerprint, ProjectPublicationConfig,
};
use crate::digest::{hex_digest, hex_sha256};
use crate::inventory::{
    ascending_entries, entries_map, has_key, is_listed, key_position, keys_ascend,
    lemma_ascending_entries, lemma_empty_listed, lemma_key_position, lemma_listed,
    lemma_listed_entries, Duplicate, Inventory,
};
use crate::journal::{
    file_view, journal_error, JournalError, JournalPhase, JournalRecord, JournalView,
};
use crate::ledger::{
    copy_vercel, ledger_error, ledger_valid, option_vercel, GitHubEntryView, GitHubInventoryEntry,
    IntegrationLedger, LedgerError, LedgerView, OperationState, R2EntryView, R2InventoryEntry,
    VercelPublication, VercelView,
};
use crate::paths::{is_portable_path, ObjectKey, PublicationPath, RepositoryPath};
use crate::steps::{digest_of, has_digest};
use crate::text::{
    copy_option, is_blank, is_blank_text, is_sha256, is_sha256_text, option_text, same_text,
    text_lt,
};
use vstd::prelude::*;

verus! {

/// Why a desired publication, a part of it or a plan for it is refused.
#[derive(Debug, Clone, Copy, PartialEq, Eq, Structural)]
pub enum PlannerError {
    /// The journal of the publication is not valid.
    InvalidJournal(JournalError),
    MissingGeneration,
    InvalidStateHash,
    InvalidManifestHash,
    NotCommitted,
    HashesDifferFromJournal,
    InvalidObjectHash,
    InvalidFileHash,
    DuplicateStorageKey,
    DuplicateRepositoryPath,
    InvalidConfigurationFingerprint,
    InvalidBundleFingerprint,
    InvalidKnownKey,
    InvalidKnownPath,
}

// ---------------------------------------------------------------------------
// Local publication
// ---------------------------------------------------------------------------
/// Verified local publication metadata produced by the pipeline.
#[derive(Debug, PartialEq, Eq)]
pub struct LocalPublication {
    pub generation: String,
    pub state_hash: String,
    pub manifest_hash: String,
}

/// The mathematical form of a local publication.
pub struct LocalView {
    pub generation: Seq<char>,
    pub state_hash: Seq<char>,
    pub manifest_hash: Seq<char>,
}

impl View for LocalPublication {
    type V = LocalView;

    open spec fn view(&self) -> LocalView {
        LocalView {
            generation: self.generation@,
            state_hash: self.state_hash@,
            manifest_hash: self.manifest_hash@,
        }
    }
}

impl Duplicate for LocalPublication {
    fn duplicate(&self) -> (r: Self) {
        LocalPublication {
            generation: self.generation.clone(),
            state_hash: self.state_hash.clone(),
            manifest_hash: self.manifest_hash.clone(),
        }
    }
}

/// What is wrong with a local publication.
pub open spec fn local_error(v: LocalView) -> Option<PlannerError> {
    if is_blank_text(v.generation) {
        Some(PlannerError::MissingGeneration)
    } else if !is_sha256_text(v.state_hash) {
        Some(PlannerError::InvalidStateHash)
    } else if !is_sha256_text(v.manifest_hash) {
        Some(PlannerError::InvalidManifestHash)
    } else {
        None
    }
}

/// What is wrong with a journal, or with the active pair as the one that it
/// committed.
pub open spec fn committed_pair_error(
    journal: JournalView,
    gallery: Option<Seq<u8>>,
    state: Option<Seq<u8>>,
) -> Option<PlannerError> {
    if journal_error(journal) is Some {
        Some(PlannerError::InvalidJournal(journal_error(journal)->0))
    } else if journal.phase != JournalPhase::Committed {
        Some(PlannerError::NotCommitted)
    } else if digest_of(gallery) != Some(journal.gallery_sha256) || digest_of(state) != Some(
        journal.state_sha256,
    ) {
        Some(PlannerError::HashesDifferFromJournal)
    } else {
        None
    }
}

impl LocalPublication {
    fn validate(&self) -> (r: Result<(), PlannerError>)
        ensures
            match local_error(self@) {
                Some(e) => r == Err::<(), PlannerError>(e),
                None => r is Ok,
            },
    {
        if is_blank(self.generation.as_str()) {
            return Err(PlannerError::MissingGeneration);
        }
        if !is_sha256(self.state_hash.as_str()) {
            return Err(PlannerError::InvalidStateHash);
        }
        if !is_sha256(self.manifest_hash.as_str()) {
            return Err(PlannerError::InvalidManifestHash);
        }
        Ok(())
    }

    /// The local publication with these values.
    pub fn new(generation: String, state_hash: String, manifest_hash: String) -> (r: Result<
        LocalPublication,
        PlannerError,
    >)
        ensures
            ({
                let v = LocalView {
                    generation: generation@,
                    state_hash: state_hash@,
                    manifest_hash: manifest_hash@,
                };
                match (local_error(v), r) {
                    (Some(e), Err(f)) => e == f,
                    (None, Ok(local)) => local@ == v,
                    _ => false,
                }
            }),
    {
        let publication: LocalPublication = LocalPublication {
            generation,
            state_hash,
            manifest_hash,
        };
        match publication.validate() {
            Ok(()) => Ok(publication),
            Err(e) => Err(e),
        }
    }

    /// The local publication that a journal committed, where the journal is
    /// valid and both active files still are the ones it names. It does not run
    /// recovery or publish files.
    pub fn from_output(
        journal: &JournalRecord,
        gallery: &Option<Vec<u8>>,
        state: &Option<Vec<u8>>,
    ) -> (r: Result<LocalPublication, PlannerError>)
        ensures
            ({
                let v = LocalView {
                    generation: journal@.generation,
                    state_hash: journal@.state_sha256,
                    manifest_hash: journal@.gallery_sha256,
                };
                match committed_pair_error(journal@, file_view(*gallery), file_view(*state)) {
                    Some(e) => r == Err::<LocalPublication, PlannerError>(e),
                    None => match (local_error(v), r) {
                        (Some(e), Err(f)) => e == f,
                        (None, Ok(local)) => local@ == v,
                        _ => false,
                    },
                }
            }),
            r matches Ok(local) ==> local@.generation == journal@.generation && digest_of(
                file_view(*gallery),
            ) == Some(local@.manifest_hash) && digest_of(file_view(*state)) == Some(
                local@.state_hash,
            ),
    {
        match journal.validate() {
            Ok(()) => {},
            Err(e) => {
                return Err(PlannerError::InvalidJournal(e));
            },
        }
        if journal.phase != JournalPhase::Committed {
            return Err(PlannerError::NotCommitted);
        }
        if !has_digest(gallery, journal.gallery_sha256.as_str()) || !has_digest(
            state,
            journal.state_sha256.as_str(),
        ) {
            return Err(PlannerError::HashesDifferFromJournal);
        }
        LocalPublication::new(
            journal.generation.clone(),
            journal.state_sha256.clone(),
            journal.gallery_sha256.clone(),
        )
    }
}

// ---------------------------------------------------------------------------
// Desired state
// ---------------------------------------------------------------------------
/// A storage object that the executor must make present remotely.
///
/// `source_path` binds the remote key to the exact publication-relative JPEG
/// that supplies the bytes, so the executor never searches for, infers, or
/// reconstructs a local path.
#[derive(Debug, PartialEq, Eq)]
pub struct DesiredStorageObject {
    pub key: ObjectKey,
    pub source_path: PublicationPath,
    pub sha256: String,
    pub size_bytes: u64,
    pub content_type: Option<String>,
}

/// The mathematical form of a desired object.
pub struct DesiredObjectView {
    pub key: Seq<char>,
    pub source_path: Seq<char>,
    pub sha256: Seq<char>,
    pub size_bytes: u64,
    pub content_type: Option<Seq<char>>,
}

impl View for DesiredStorageObject {
    type V = DesiredObjectView;

    open spec fn view(&self) -> DesiredObjectView {
        DesiredObjectView {
            key: self.key@,
            source_path: self.source_path@,
            sha256: self.sha256@,
            size_bytes: self.size_bytes,
            content_type: option_text(self.content_type),
        }
    }
}

impl Duplicate for DesiredStorageObject {
    fn duplicate(&self) -> (r: Self) {
        DesiredStorageObject {
            key: self.key.duplicate(),
            source_path: self.source_path.duplicate(),
            sha256: self.sha256.clone(),
            size_bytes: self.size_bytes,
            content_type: copy_option(&self.content_type),
        }
    }
}

impl DesiredStorageObject {
    /// The desired object with these values.
    pub fn new(
        key: ObjectKey,
        source_path: PublicationPath,
        sha256: String,
        size_bytes: u64,
        content_type: Option<String>,
    ) -> (r: Result<DesiredStorageObject, PlannerError>)
        ensures
            match r {
                Ok(object) => is_sha256_text(sha256@) && object@ == (DesiredObjectView {
                    key: key@,
                    source_path: source_path@,
                    sha256: sha256@,
                    size_bytes,
                    content_type: option_text(content_type),
                }),
                Err(e) => !is_sha256_text(sha256@) && e == PlannerError::InvalidObjectHash,
            },
    {
        if !is_sha256(sha256.as_str()) {
            return Err(PlannerError::InvalidObjectHash);
        }
        Ok(DesiredStorageObject { key, source_path, sha256, size_bytes, content_type })
    }
}

/// Where the bytes of a desired repository file come from when executed.
///
/// The plan stays fully self-describing: repository files either come from
/// the final application bundle or from a publication-relative physical file
/// validated at planning time and again at execution time.
#[derive(Debug, PartialEq, Eq)]
pub enum RepositoryFileSource {
    /// Bytes come from the [`ApplicationBundle`] member with the same path.
    BundleMember,
    /// Bytes come from the file at this path below the output directory.
    PublicationFile { source_path: PublicationPath },
}

/// The mathematical form of a source.
pub enum SourceView {
    BundleMember,
    PublicationFile(Seq<char>),
}

impl View for RepositoryFileSource {
    type V = SourceView;

    open spec fn view(&self) -> SourceView {
        match *self {
            RepositoryFileSource::BundleMember => SourceView::BundleMember,
            RepositoryFileSource::PublicationFile { source_path } => SourceView::PublicationFile(
                source_path@,
            ),
        }
    }
}

impl Duplicate for RepositoryFileSource {
    fn duplicate(&self) -> (r: Self) {
        match self {
            RepositoryFileSource::BundleMember => RepositoryFileSource::BundleMember,
            RepositoryFileSource::PublicationFile { source_path } => {
                RepositoryFileSource::PublicationFile { source_path: source_path.duplicate() }
            },
        }
    }
}

/// A repository file that the executor must make present remotely.
#[derive(Debug, PartialEq, Eq)]
pub struct DesiredRepositoryFile {
    pub path: RepositoryPath,
    pub sha256: String,
    pub size_bytes: u64,
    pub source: RepositoryFileSource,
}

/// The mathematical form of a desired file.
pub struct DesiredFileView {
    pub path: Seq<char>,
    pub sha256: Seq<char>,
    pub size_bytes: u64,
    pub source: SourceView,
}

impl View for DesiredRepositoryFile {
    type V = DesiredFileView;

    open spec fn view(&self) -> DesiredFileView {
        DesiredFileView {
            path: self.path@,
            sha256: self.sha256@,
            size_bytes: self.size_bytes,
            source: self.source@,
        }
    }
}

impl Duplicate for DesiredRepositoryFile {
    fn duplicate(&self) -> (r: Self) {
        DesiredRepositoryFile {
            path: self.path.duplicate(),
            sha256: self.sha256.clone(),
            size_bytes: self.size_bytes,
            source: self.source.duplicate(),
        }
    }
}

impl DesiredRepositoryFile {
    /// The desired file with these values.
    pub fn new(
        path: RepositoryPath,
        sha256: String,
        size_bytes: u64,
        source: RepositoryFileSource,
    ) -> (r: Result<DesiredRepositoryFile, PlannerError>)
        ensures
            match r {
                Ok(file) => is_sha256_text(sha256@) && file@ == (DesiredFileView {
                    path: path@,
                    sha256: sha256@,
                    size_bytes,
                    source: source@,
                }),
                Err(e) => !is_sha256_text(sha256@) && e == PlannerError::InvalidFileHash,
            },
    {
        if !is_sha256(sha256.as_str()) {
            return Err(PlannerError::InvalidFileHash);
        }
        Ok(DesiredRepositoryFile { path, sha256, size_bytes, source })
    }
}

/// Full provider-neutral desired state for a single local publication.
#[derive(Debug, PartialEq, Eq)]
pub struct DesiredPublication {
    pub configuration_fingerprint: String,
    pub local: LocalPublication,
    pub bundle_fingerprint: String,
    storage: Inventory<DesiredStorageObject>,
    repository: Inventory<DesiredRepositoryFile>,
}

/// The mathematical form of a desired publication.
pub struct DesiredView {
    pub configuration_fingerprint: Seq<char>,
    pub local: LocalView,
    pub bundle_fingerprint: Seq<char>,
    pub storage: Map<Seq<char>, DesiredObjectView>,
    pub repository: Map<Seq<char>, DesiredFileView>,
}

impl View for DesiredPublication {
    type V = DesiredView;

    closed spec fn view(&self) -> DesiredView {
        DesiredView {
            configuration_fingerprint: self.configuration_fingerprint@,
            local: self.local@,
            bundle_fingerprint: self.bundle_fingerprint@,
            storage: self.storage@,
            repository: self.repository@,
        }
    }
}

/// What is wrong with a desired publication.
pub open spec fn desired_error(v: DesiredView) -> Option<PlannerError> {
    if !is_sha256_text(v.configuration_fingerprint) {
        Some(PlannerError::InvalidConfigurationFingerprint)
    } else if !is_sha256_text(v.bundle_fingerprint) {
        Some(PlannerError::InvalidBundleFingerprint)
    } else {
        local_error(v.local)
    }
}

/// The desired file for a file of the bundle.
pub open spec fn bundle_member(path: Seq<char>, content: Seq<u8>) -> DesiredFileView {
    DesiredFileView {
        path,
        sha256: hex_sha256(content),
        size_bytes: content.len() as u64,
        source: SourceView::BundleMember,
    }
}

/// The desired files for the files of a bundle.
pub open spec fn bundle_members(files: Seq<(Seq<char>, Seq<u8>)>) -> Map<
    Seq<char>,
    DesiredFileView,
> {
    entries_map(files).map_entries(|path: Seq<char>, content: Seq<u8>| bundle_member(path, content))
}

/// The desired publication of a bundle alone.
pub open spec fn desired_of(
    configuration_fingerprint: Seq<char>,
    local: LocalView,
    bundle: BundleView,
) -> DesiredView {
    DesiredView {
        configuration_fingerprint,
        local,
        bundle_fingerprint: bundle.fingerprint,
        storage: Map::empty(),
        repository: bundle_members(bundle.files),
    }
}

/// Whether a desired publication lists its objects and files under their own
/// keys and paths.
#[verifier::opaque]
pub open spec fn well_keyed(desired: DesiredView) -> bool {
    &&& is_listed(desired.storage)
    &&& is_listed(desired.repository)
    &&& forall|k: Seq<char>| #[trigger]
        desired.storage.dom().contains(k) ==> desired.storage[k].key == k
    &&& forall|k: Seq<char>| #[trigger]
        desired.repository.dom().contains(k) ==> desired.repository[k].path == k
}

/// A publication of a bundle lists the bundle's files under their paths.
pub proof fn law_new_publication_is_well_keyed(
    configuration_fingerprint: Seq<char>,
    local: LocalView,
    bundle: BundleView,
)
    requires
        keys_ascend(bundle.files),
    ensures
        well_keyed(desired_of(configuration_fingerprint, local, bundle)),
{
    reveal(well_keyed);
    let files = bundle.files;
    let members = Seq::new(
        files.len(),
        |i: int| (files[i].0, bundle_member(files[i].0, files[i].1)),
    );
    assert(keys_ascend(members)) by {
        assert forall|i: int, j: int| 0 <= i < j < members.len() implies text_lt(
            #[trigger] members[i].0,
            #[trigger] members[j].0,
        ) by {
            assert(text_lt(files[i].0, files[j].0));
        }
    }
    assert forall|k: Seq<char>| #[trigger] has_key(members, k) == has_key(files, k) && (has_key(
        files,
        k,
    ) ==> entries_map(members)[k] == bundle_member(k, entries_map(files)[k])) by {
        if has_key(files, k) {
            let i = key_position(files, k);
            assert(members[i].0 == k);
            lemma_key_position(files, i);
            lemma_key_position(members, i);
        }
        if has_key(members, k) {
            let i = key_position(members, k);
            assert(files[i].0 == k);
        }
    }
    assert(entries_map(members) =~= bundle_members(files));
    lemma_ascending_entries(members);
    lemma_empty_listed::<DesiredObjectView>();
}

proof fn lemma_object_keeps_well_keyed(desired: DesiredView, object: DesiredObjectView)
    requires
        well_keyed(desired),
    ensures
        well_keyed(
            (DesiredView { storage: desired.storage.insert(object.key, object), ..desired }),
        ),
{
    reveal(well_keyed);
    lemma_listed(desired.storage, object.key, object);
}

proof fn lemma_file_keeps_well_keyed(desired: DesiredView, file: DesiredFileView)
    requires
        well_keyed(desired),
    ensures
        well_keyed(
            (DesiredView { repository: desired.repository.insert(file.path, file), ..desired }),
        ),
{
    reveal(well_keyed);
    lemma_listed(desired.repository, file.path, file);
}

impl DesiredPublication {
    /// Initializes desired repository files from the application bundle. The
    /// storage objects and the previews are inserted afterwards.
    pub fn new(
        configuration: &ProjectPublicationConfig,
        local: LocalPublication,
        bundle: &ApplicationBundle,
    ) -> (r: Result<DesiredPublication, PlannerError>)
        ensures
            match (local_error(local@), r) {
                (Some(e), Err(f)) => e == f,
                (None, Ok(desired)) => desired@ == desired_of(
                    configuration_fingerprint_text(*configuration),
                    local@,
                    bundle@,
                ) && desired_error(desired@) is None && well_keyed(desired@),
                _ => false,
            },
    {
        let configuration_fingerprint: String = publication_configuration_fingerprint(
            configuration,
        );
        let files: &[ApplicationBundleFile] = bundle.files();
        let ghost all = bundle@.files;
        let mut repository: Inventory<DesiredRepositoryFile> = Inventory::new();
        let mut i: usize = 0;
        proof {
            assert(repository@ =~= bundle_members(all.take(0)));
        }
        while i < files.len()
            invariant
                i <= files@.len(),
                all == files_view(files@),
                keys_ascend(all),
                repository@ == bundle_members(all.take(i as int)),
            decreases files@.len() - i,
        {
            let content: &[u8] = files[i].content();
            let file: DesiredRepositoryFile = DesiredRepositoryFile {
                path: files[i].path().duplicate(),
                sha256: hex_digest(content),
                size_bytes: content.len() as u64,
                source: RepositoryFileSource::BundleMember,
            };
            let key: String = files[i].path().as_str().to_owned();
            proof {
                assert(all[i as int] == files@[i as int]@);
                lemma_bundle_members_step(all, i as int);
            }
            repository.insert(key, file);
            i = i + 1;
        }
        proof {
            assert(all.take(all.len() as int) =~= all);
            law_new_publication_is_well_keyed(
                configuration_fingerprint@,
                local@,
                bundle@,
            );
        }
        let publication: DesiredPublication = DesiredPublication {
            configuration_fingerprint,
            local,
            bundle_fingerprint: bundle.fingerprint().to_owned(),
            storage: Inventory::new(),
            repository,
        };
        match publication.validate() {
            Ok(()) => Ok(publication),
            Err(e) => Err(e),
        }
    }

    /// Adds a storage object under its key.
    pub fn insert_storage_object(&mut self, object: DesiredStorageObject) -> (r: Result<
        (),
        PlannerError,
    >)
        ensures
            old(self)@.storage.dom().contains(object@.key) ==> r == Err::<(), PlannerError>(
                PlannerError::DuplicateStorageKey,
            ) && final(self)@ == old(self)@,
            !old(self)@.storage.dom().contains(object@.key) ==> r is Ok && final(self)@ == (
            DesiredView {
                storage: old(self)@.storage.insert(object@.key, object@),
                ..old(self)@
            }),
            well_keyed(old(self)@) ==> well_keyed(final(self)@),
    {
        proof {
            if well_keyed(self@) {
                lemma_object_keeps_well_keyed(self@, object@);
            }
        }
        if self.storage.contains_key(object.key.as_str()) {
            return Err(PlannerError::DuplicateStorageKey);
        }
        let key: String = object.key.as_str().to_owned();
        self.storage.insert(key, object);
        Ok(())
    }

    /// Adds a repository file under its path.
    pub fn insert_repository_file(&mut self, file: DesiredRepositoryFile) -> (r: Result<
        (),
        PlannerError,
    >)
        ensures
            old(self)@.repository.dom().contains(file@.path) ==> r == Err::<(), PlannerError>(
                PlannerError::DuplicateRepositoryPath,
            ) && final(self)@ == old(self)@,
            !old(self)@.repository.dom().contains(file@.path) ==> r is Ok && final(self)@ == (
            DesiredView {
                repository: old(self)@.repository.insert(file@.path, file@),
                ..old(self)@
            }),
            well_keyed(old(self)@) ==> well_keyed(final(self)@),
    {
        proof {
            if well_keyed(self@) {
                lemma_file_keeps_well_keyed(self@, file@);
            }
        }
        if self.repository.contains_key(file.path.as_str()) {
            return Err(PlannerError::DuplicateRepositoryPath);
        }
        let path: String = file.path.as_str().to_owned();
        self.repository.insert(path, file);
        Ok(())
    }

    /// The desired storage objects, keys ascending.
    pub fn storage_objects(&self) -> (r: Vec<&DesiredStorageObject>)
        ensures
            r@.len() == ascending_entries(self@.storage).len(),
            forall|i: int|
                0 <= i < r@.len() ==> (#[trigger] r@[i])@ == ascending_entries(self@.storage)[i].1,
    {
        let n: usize = self.storage.len();
        let mut r: Vec<&DesiredStorageObject> = Vec::new();
        let mut i: usize = 0;
        while i < n
            invariant
                i <= n,
                i == r@.len(),
                n == ascending_entries(self.storage@).len(),
                forall|j: int|
                    0 <= j < i ==> (#[trigger] r@[j])@ == ascending_entries(self.storage@)[j].1,
            decreases n - i,
        {
            r.push(self.storage.value_at(i));
            i = i + 1;
        }
        r
    }

    /// The desired repository files, paths ascending.
    pub fn repository_files(&self) -> (r: Vec<&DesiredRepositoryFile>)
        ensures
            r@.len() == ascending_entries(self@.repository).len(),
            forall|i: int|
                0 <= i < r@.len() ==> (#[trigger] r@[i])@ == ascending_entries(
                    self@.repository,
                )[i].1,
    {
        let n: usize = self.repository.len();
        let mut r: Vec<&DesiredRepositoryFile> = Vec::new();
        let mut i: usize = 0;
        while i < n
            invariant
                i <= n,
                i == r@.len(),
                n == ascending_entries(self.repository@).len(),
                forall|j: int|
                    0 <= j < i ==> (#[trigger] r@[j])@ == ascending_entries(self.repository@)[j].1,
            decreases n - i,
        {
            r.push(self.repository.value_at(i));
            i = i + 1;
        }
        r
    }

    /// Checks the fingerprints and the local publication.
    pub fn validate(&self) -> (r: Result<(), PlannerError>)
        ensures
            match desired_error(self@) {
                Some(e) => r == Err::<(), PlannerError>(e),
                None => r is Ok,
            },
    {
        if !is_sha256(self.configuration_fingerprint.as_str()) {
            return Err(PlannerError::InvalidConfigurationFingerprint);
        }
        if !is_sha256(self.bundle_fingerprint.as_str()) {
            return Err(PlannerError::InvalidBundleFingerprint);
        }
        self.local.validate()
    }

    /// The fingerprint of the configuration that the publication belongs to.
    pub fn configuration_fingerprint(&self) -> (r: &str)
        ensures
            r@ == self@.configuration_fingerprint,
    {
        self.configuration_fingerprint.as_str()
    }

    /// The local publication that is desired.
    pub fn local(&self) -> (r: &LocalPublication)
        ensures
            r@ == self@.local,
    {
        &self.local
    }
}

/// One more file of an ascending list adds one more desired file.
proof fn lemma_bundle_members_step(all: Seq<(Seq<char>, Seq<u8>)>, i: int)
    requires
        keys_ascend(all),
        0 <= i < all.len(),
    ensures
        bundle_members(all.take(i + 1)) == bundle_members(all.take(i)).insert(
            all[i].0,
            bundle_member(all[i].0, all[i].1),
        ),
{
    let a = all.take(i);
    let b = all.take(i + 1);
    let k = all[i].0;
    let m = bundle_members(a).insert(k, bundle_member(k, all[i].1));
    assert forall|x: int, y: int| 0 <= x < y < a.len() implies text_lt(
        #[trigger] a[x].0,
        #[trigger] a[y].0,
    ) by {
        assert(a[x] == all[x] && a[y] == all[y]);
    }
    assert forall|x: int, y: int| 0 <= x < y < b.len() implies text_lt(
        #[trigger] b[x].0,
        #[trigger] b[y].0,
    ) by {
        assert(b[x] == all[x] && b[y] == all[y]);
    }
    assert(b[i] == all[i]);
    lemma_key_position(b, i);
    assert forall|x: Seq<char>| has_key(b, x) <==> (has_key(a, x) || x == k) by {
        if has_key(a, x) {
            let p = key_position(a, x);
            assert(b[p].0 == x);
        }
        if has_key(b, x) && x != k {
            let p = key_position(b, x);
            assert(p != i);
            assert(a[p].0 == x);
        }
    }
    assert forall|x: Seq<char>| has_key(b, x) implies bundle_members(b)[x] == m[x] by {
        let p = key_position(b, x);
        lemma_key_position(b, p);
        if x != k {
            assert(p != i);
            assert(a[p] == b[p]);
            lemma_key_position(a, p);
        }
    }
    assert(bundle_members(b) =~= m);
}

// ---------------------------------------------------------------------------
// Known state
// ---------------------------------------------------------------------------
/// Last state confirmed, pending, or unknown by previous remote publication work.
#[derive(Debug, PartialEq, Eq)]
pub struct KnownRemoteState {
    pub configuration_fingerprint: String,
    storage: Inventory<R2InventoryEntry>,
    repository: Inventory<GitHubInventoryEntry>,
    pub hosting: Option<VercelPublication>,
}

/// The mathematical form of the known state.
pub struct KnownView {
    pub configuration_fingerprint: Seq<char>,
    pub storage: Map<Seq<char>, R2EntryView>,
    pub repository: Map<Seq<char>, GitHubEntryView>,
    pub hosting: Option<VercelView>,
}

impl View for KnownRemoteState {
    type V = KnownView;

    closed spec fn view(&self) -> KnownView {
        KnownView {
            configuration_fingerprint: self.configuration_fingerprint@,
            storage: self.storage@,
            repository: self.repository@,
            hosting: option_vercel(self.hosting),
        }
    }
}

/// What a ledger says is known.
pub open spec fn known_of(v: LedgerView) -> KnownView {
    KnownView {
        configuration_fingerprint: v.configuration_fingerprint,
        storage: v.r2_inventory,
        repository: v.github_inventory,
        hosting: v.vercel,
    }
}

/// Whether what is known can be listed.
#[verifier::opaque]
pub open spec fn well_listed(known: KnownView) -> bool {
    is_listed(known.storage) && is_listed(known.repository)
}

impl KnownRemoteState {
    /// What a valid ledger says is known.
    pub fn from_ledger(ledger: &IntegrationLedger) -> (r: Result<KnownRemoteState, LedgerError>)
        ensures
            match (ledger_error(ledger@), r) {
                (Some(e), Err(f)) => e == f@,
                (None, Ok(known)) => known@ == known_of(ledger@) && ledger_valid(ledger@)
                    && well_listed(known@),
                _ => false,
            },
    {
        proof {
            reveal(well_listed);
        }
        match ledger.validate() {
            Ok(()) => {},
            Err(e) => {
                return Err(e);
            },
        }
        Ok(
            KnownRemoteState {
                configuration_fingerprint: ledger.configuration_fingerprint.clone(),
                storage: ledger.r2_inventory.duplicate(),
                repository: ledger.github_inventory.duplicate(),
                hosting: copy_vercel(&ledger.vercel),
            },
        )
    }

    /// The known storage objects, keys ascending.
    pub fn storage_objects(&self) -> (r: Vec<(&str, &R2InventoryEntry)>)
        ensures
            r@.len() == ascending_entries(self@.storage).len(),
            forall|i: int|
                0 <= i < r@.len() ==> (#[trigger] r@[i]).0@ == ascending_entries(
                    self@.storage,
                )[i].0 && r@[i].1@ == ascending_entries(self@.storage)[i].1,
    {
        let n: usize = self.storage.len();
        let mut r: Vec<(&str, &R2InventoryEntry)> = Vec::new();
        let mut i: usize = 0;
        while i < n
            invariant
                i <= n,
                i == r@.len(),
                n == ascending_entries(self.storage@).len(),
                forall|j: int|
                    0 <= j < i ==> (#[trigger] r@[j]).0@ == ascending_entries(self.storage@)[j].0
                        && r@[j].1@ == ascending_entries(self.storage@)[j].1,
            decreases n - i,
        {
            r.push((self.storage.key_at(i).as_str(), self.storage.value_at(i)));
            i = i + 1;
        }
        r
    }

    /// The known repository files, paths ascending.
    pub fn repository_files(&self) -> (r: Vec<(&str, &GitHubInventoryEntry)>)
        ensures
            r@.len() == ascending_entries(self@.repository).len(),
            forall|i: int|
                0 <= i < r@.len() ==> (#[trigger] r@[i]).0@ == ascending_entries(
                    self@.repository,
                )[i].0 && r@[i].1@ == ascending_entries(self@.repository)[i].1,
    {
        let n: usize = self.repository.len();
        let mut r: Vec<(&str, &GitHubInventoryEntry)> = Vec::new();
        let mut i: usize = 0;
        while i < n
            invariant
                i <= n,
                i == r@.len(),
                n == ascending_entries(self.repository@).len(),
                forall|j: int|
                    0 <= j < i ==> (#[trigger] r@[j]).0@ == ascending_entries(
                        self.repository@,
                    )[j].0 && r@[j].1@ == ascending_entries(self.repository@)[j].1,
            decreases n - i,
        {
            r.push((self.repository.key_at(i).as_str(), self.repository.value_at(i)));
            i = i + 1;
        }
        r
    }
}

// ---------------------------------------------------------------------------
// Plans
// ---------------------------------------------------------------------------
/// One piece of remote work.
#[derive(Debug, PartialEq, Eq)]
pub enum IntegrationOperation {
    PutStorage(DesiredStorageObject),
    DeleteStorage { key: ObjectKey },
    WriteRepository(DesiredRepositoryFile),
    DeleteRepository { path: RepositoryPath },
    PublishHosting { bundle_fingerprint: String },
}

/// The mathematical form of an operation.
pub enum OperationView {
    PutStorage(DesiredObjectView),
    DeleteStorage(Seq<char>),
    WriteRepository(DesiredFileView),
    DeleteRepository(Seq<char>),
    PublishHosting(Seq<char>),
}

impl View for IntegrationOperation {
    type V = OperationView;

    open spec fn view(&self) -> OperationView {
        match *self {
            IntegrationOperation::PutStorage(object) => OperationView::PutStorage(object@),
            IntegrationOperation::DeleteStorage { key } => OperationView::DeleteStorage(key@),
            IntegrationOperation::WriteRepository(file) => OperationView::WriteRepository(file@),
            IntegrationOperation::DeleteRepository { path } => OperationView::DeleteRepository(
                path@,
            ),
            IntegrationOperation::PublishHosting { bundle_fingerprint } =>
                OperationView::PublishHosting(bundle_fingerprint@),
        }
    }
}

/// Something that must be settled before anything is published.
#[derive(Debug, PartialEq, Eq)]
pub enum ReconciliationRequirement {
    ConfigurationChanged,
    StoragePending { key: ObjectKey },
    StorageUnknown { key: ObjectKey },
    RepositoryPending { path: RepositoryPath },
    RepositoryUnknown { path: RepositoryPath },
    HostingPending { bundle_fingerprint: String },
    HostingUnknown { bundle_fingerprint: String },
}

/// The mathematical form of a requirement.
pub enum RequirementView {
    ConfigurationChanged,
    StoragePending(Seq<char>),
    StorageUnknown(Seq<char>),
    RepositoryPending(Seq<char>),
    RepositoryUnknown(Seq<char>),
    HostingPending(Seq<char>),
    HostingUnknown(Seq<char>),
}

impl View for ReconciliationRequirement {
    type V = RequirementView;

    open spec fn view(&self) -> RequirementView {
        match *self {
            ReconciliationRequirement::ConfigurationChanged =>
                RequirementView::ConfigurationChanged,
            ReconciliationRequirement::StoragePending { key } => RequirementView::StoragePending(
                key@,
            ),
            ReconciliationRequirement::StorageUnknown { key } => RequirementView::StorageUnknown(
                key@,
            ),
            ReconciliationRequirement::RepositoryPending { path } =>
                RequirementView::RepositoryPending(path@),
            ReconciliationRequirement::RepositoryUnknown { path } =>
                RequirementView::RepositoryUnknown(path@),
            ReconciliationRequirement::HostingPending { bundle_fingerprint } =>
                RequirementView::HostingPending(bundle_fingerprint@),
            ReconciliationRequirement::HostingUnknown { bundle_fingerprint } =>
                RequirementView::HostingUnknown(bundle_fingerprint@),
        }
    }
}

impl Duplicate for IntegrationOperation {
    fn duplicate(&self) -> (r: Self) {
        match self {
            IntegrationOperation::PutStorage(object) => IntegrationOperation::PutStorage(
                object.duplicate(),
            ),
            IntegrationOperation::DeleteStorage { key } => IntegrationOperation::DeleteStorage {
                key: key.duplicate(),
            },
            IntegrationOperation::WriteRepository(file) => IntegrationOperation::WriteRepository(
                file.duplicate(),
            ),
            IntegrationOperation::DeleteRepository { path } => {
                IntegrationOperation::DeleteRepository { path: path.duplicate() }
            },
            IntegrationOperation::PublishHosting { bundle_fingerprint } => {
                IntegrationOperation::PublishHosting {
                    bundle_fingerprint: bundle_fingerprint.clone(),
                }
            },
        }
    }
}

impl Duplicate for ReconciliationRequirement {
    fn duplicate(&self) -> (r: Self) {
        match self {
            ReconciliationRequirement::ConfigurationChanged => {
                ReconciliationRequirement::ConfigurationChanged
            },
            ReconciliationRequirement::StoragePending { key } => {
                ReconciliationRequirement::StoragePending { key: key.duplicate() }
            },
            ReconciliationRequirement::StorageUnknown { key } => {
                ReconciliationRequirement::StorageUnknown { key: key.duplicate() }
            },
            ReconciliationRequirement::RepositoryPending { path } => {
                ReconciliationRequirement::RepositoryPending { path: path.duplicate() }
            },
            ReconciliationRequirement::RepositoryUnknown { path } => {
                ReconciliationRequirement::RepositoryUnknown { path: path.duplicate() }
            },
            ReconciliationRequirement::HostingPending { bundle_fingerprint } => {
                ReconciliationRequirement::HostingPending {
                    bundle_fingerprint: bundle_fingerprint.clone(),
                }
            },
            ReconciliationRequirement::HostingUnknown { bundle_fingerprint } => {
                ReconciliationRequirement::HostingUnknown {
                    bundle_fingerprint: bundle_fingerprint.clone(),
                }
            },
        }
    }
}

/// A copy of a list of requirements.
pub fn copy_requirements(requirements: &Vec<ReconciliationRequirement>) -> (r: Vec<
    ReconciliationRequirement,
>)
    ensures
        requirements_view(r@) == requirements_view(requirements@),
{
    let ghost all = requirements_view(requirements@);
    let mut r: Vec<ReconciliationRequirement> = Vec::new();
    let mut i: usize = 0;
    proof {
        assert(requirements_view(r@) =~= all.take(0));
    }
    while i < requirements.len()
        invariant
            i <= requirements@.len(),
            all == requirements_view(requirements@),
            requirements_view(r@) == all.take(i as int),
        decreases requirements@.len() - i,
    {
        push_requirement(&mut r, requirements[i].duplicate());
        i = i + 1;
        proof {
            assert(all.take(i as int) =~= all.take(i - 1) + seq![all[i - 1]]);
        }
    }
    proof {
        assert(all.take(all.len() as int) =~= all);
    }
    r
}

/// The operations of a list.
pub open spec fn operations_view(s: Seq<IntegrationOperation>) -> Seq<OperationView> {
    Seq::new(s.len(), |i: int| s[i]@)
}

/// The requirements of a list.
pub open spec fn requirements_view(s: Seq<ReconciliationRequirement>) -> Seq<RequirementView> {
    Seq::new(s.len(), |i: int| s[i]@)
}

/// An ordered, side-effect-free plan. Repository operations are deliberately
/// individual entries so that an executor can batch all writes and deletes
/// into a single commit.
#[derive(Debug, PartialEq, Eq)]
pub struct IntegrationPlan {
    pub operations: Vec<IntegrationOperation>,
    pub reconciliation_requirements: Vec<ReconciliationRequirement>,
}

/// The mathematical form of a plan.
pub struct IntegrationPlanView {
    pub operations: Seq<OperationView>,
    pub requirements: Seq<RequirementView>,
}

impl View for IntegrationPlan {
    type V = IntegrationPlanView;

    open spec fn view(&self) -> IntegrationPlanView {
        IntegrationPlanView {
            operations: operations_view(self.operations@),
            requirements: requirements_view(self.reconciliation_requirements@),
        }
    }
}

impl IntegrationPlan {
    /// Whether there is nothing to do and nothing to settle.
    pub fn is_empty(&self) -> (r: bool)
        ensures
            r == (self@.operations.len() == 0 && self@.requirements.len() == 0),
    {
        self.operations.len() == 0 && self.reconciliation_requirements.len() == 0
    }
}

/// What a desired thing needs, given what is known of it.
#[derive(Debug, Clone, Copy, PartialEq, Eq, Structural)]
pub enum Need {
    /// It is confirmed as desired.
    Nothing,
    /// It is absent, or confirmed with other content.
    Publish,
    /// An operation on it was started and not settled.
    SettlePending,
    /// The outcome of an operation on it is unknown.
    SettleUnknown,
}

/// What a thing with the desired digest needs, given the known status and digest.
pub open spec fn need_of(known: Option<(OperationState, Seq<char>)>, sha256: Seq<char>) -> Need {
    match known {
        None => Need::Publish,
        Some((status, known_sha256)) => match status {
            OperationState::Confirmed => if known_sha256 == sha256 {
                Need::Nothing
            } else {
                Need::Publish
            },
            OperationState::Pending => Need::SettlePending,
            OperationState::Unknown => Need::SettleUnknown,
        },
    }
}

/// What is known of a storage key.
pub open spec fn known_object(known: KnownView, key: Seq<char>) -> Option<
    (OperationState, Seq<char>),
> {
    if known.storage.dom().contains(key) {
        Some((known.storage[key].status, known.storage[key].sha256))
    } else {
        None
    }
}

/// What is known of a repository path.
pub open spec fn known_file(known: KnownView, path: Seq<char>) -> Option<
    (OperationState, Seq<char>),
> {
    if known.repository.dom().contains(path) {
        Some((known.repository[path].status, known.repository[path].sha256))
    } else {
        None
    }
}

/// What is known of the hosted deployment.
pub open spec fn known_hosting(known: KnownView) -> Option<(OperationState, Seq<char>)> {
    match known.hosting {
        Some(p) => Some((p.status, p.bundle_fingerprint)),
        None => None,
    }
}

/// The upload of a desired object that needs one.
pub open spec fn put_operation(known: KnownView) -> spec_fn(
    (Seq<char>, DesiredObjectView),
) -> Option<OperationView> {
    |e: (Seq<char>, DesiredObjectView)|
        if need_of(known_object(known, e.0), e.1.sha256) == Need::Publish {
            Some(OperationView::PutStorage(e.1))
        } else {
            None
        }
}

/// What must be settled of a desired object.
pub open spec fn object_requirement(known: KnownView) -> spec_fn(
    (Seq<char>, DesiredObjectView),
) -> Option<RequirementView> {
    |e: (Seq<char>, DesiredObjectView)|
        match need_of(known_object(known, e.0), e.1.sha256) {
            Need::SettlePending => Some(RequirementView::StoragePending(e.1.key)),
            Need::SettleUnknown => Some(RequirementView::StorageUnknown(e.1.key)),
            _ => None,
        }
}

/// The removal of a confirmed object that is not desired.
pub open spec fn delete_operation(desired: DesiredView) -> spec_fn(
    (Seq<char>, R2EntryView),
) -> Option<OperationView> {
    |e: (Seq<char>, R2EntryView)|
        if !desired.storage.dom().contains(e.0) && e.1.status == OperationState::Confirmed {
            Some(OperationView::DeleteStorage(e.0))
        } else {
            None
        }
}

/// What must be settled of an object that is not desired.
pub open spec fn stale_object_requirement(desired: DesiredView) -> spec_fn(
    (Seq<char>, R2EntryView),
) -> Option<RequirementView> {
    |e: (Seq<char>, R2EntryView)|
        if desired.storage.dom().contains(e.0) {
            None
        } else {
            match e.1.status {
                OperationState::Confirmed => None,
                OperationState::Pending => Some(RequirementView::StoragePending(e.0)),
                OperationState::Unknown => Some(RequirementView::StorageUnknown(e.0)),
            }
        }
}

/// The write of a desired file that needs one.
pub open spec fn write_operation(known: KnownView) -> spec_fn(
    (Seq<char>, DesiredFileView),
) -> Option<OperationView> {
    |e: (Seq<char>, DesiredFileView)|
        if need_of(known_file(known, e.0), e.1.sha256) == Need::Publish {
            Some(OperationView::WriteRepository(e.1))
        } else {
            None
        }
}

/// What must be settled of a desired file.
pub open spec fn file_requirement(known: KnownView) -> spec_fn(
    (Seq<char>, DesiredFileView),
) -> Option<RequirementView> {
    |e: (Seq<char>, DesiredFileView)|
        match need_of(known_file(known, e.0), e.1.sha256) {
            Need::SettlePending => Some(RequirementView::RepositoryPending(e.1.path)),
            Need::SettleUnknown => Some(RequirementView::RepositoryUnknown(e.1.path)),
            _ => None,
        }
}

/// The removal of a confirmed file that is not desired.
pub open spec fn remove_operation(desired: DesiredView) -> spec_fn(
    (Seq<char>, GitHubEntryView),
) -> Option<OperationView> {
    |e: (Seq<char>, GitHubEntryView)|
        if !desired.repository.dom().contains(e.0) && e.1.status == OperationState::Confirmed {
            Some(OperationView::DeleteRepository(e.0))
        } else {
            None
        }
}

/// What must be settled of a file that is not desired.
pub open spec fn stale_file_requirement(desired: DesiredView) -> spec_fn(
    (Seq<char>, GitHubEntryView),
) -> Option<RequirementView> {
    |e: (Seq<char>, GitHubEntryView)|
        if desired.repository.dom().contains(e.0) {
            None
        } else {
            match e.1.status {
                OperationState::Confirmed => None,
                OperationState::Pending => Some(RequirementView::RepositoryPending(e.0)),
                OperationState::Unknown => Some(RequirementView::RepositoryUnknown(e.0)),
            }
        }
}

/// Storage work: uploads of desired objects, then removals, keys ascending.
#[verifier::opaque]
pub open spec fn storage_operations(desired: DesiredView, known: KnownView) -> Seq<OperationView> {
    ascending_entries(desired.storage).filter_map(put_operation(known)) + ascending_entries(
        known.storage,
    ).filter_map(delete_operation(desired))
}

/// What must be settled in storage.
#[verifier::opaque]
pub open spec fn storage_requirements(desired: DesiredView, known: KnownView) -> Seq<
    RequirementView,
> {
    ascending_entries(desired.storage).filter_map(object_requirement(known)) + ascending_entries(
        known.storage,
    ).filter_map(stale_object_requirement(desired))
}

/// Repository work: writes of desired files, then removals, paths ascending.
#[verifier::opaque]
pub open spec fn repository_operations(desired: DesiredView, known: KnownView) -> Seq<
    OperationView,
> {
    ascending_entries(desired.repository).filter_map(write_operation(known)) + ascending_entries(
        known.repository,
    ).filter_map(remove_operation(desired))
}

/// What must be settled in the repository.
#[verifier::opaque]
pub open spec fn repository_requirements(desired: DesiredView, known: KnownView) -> Seq<
    RequirementView,
> {
    ascending_entries(desired.repository).filter_map(file_requirement(known)) + ascending_entries(
        known.repository,
    ).filter_map(stale_file_requirement(desired))
}

/// Hosting work: one publication where the deployed bundle is not the desired one.
pub open spec fn hosting_operations(desired: DesiredView, known: KnownView) -> Seq<OperationView> {
    if need_of(known_hosting(known), desired.bundle_fingerprint) == Need::Publish {
        seq![OperationView::PublishHosting(desired.bundle_fingerprint)]
    } else {
        Seq::empty()
    }
}

/// What must be settled in hosting.
pub open spec fn hosting_requirements(desired: DesiredView, known: KnownView) -> Seq<
    RequirementView,
> {
    match need_of(known_hosting(known), desired.bundle_fingerprint) {
        Need::SettlePending => seq![
            RequirementView::HostingPending(known.hosting->0.bundle_fingerprint),
        ],
        Need::SettleUnknown => seq![
            RequirementView::HostingUnknown(known.hosting->0.bundle_fingerprint),
        ],
        _ => Seq::empty(),
    }
}

/// Whether a known key that is not desired cannot be a storage key.
pub open spec fn has_invalid_known_key(desired: DesiredView, known: KnownView) -> bool {
    exists|k: Seq<char>| #[trigger]
        known.storage.dom().contains(k) && !desired.storage.dom().contains(k) && !is_portable_path(k)
}

/// Whether a known path that is not desired cannot be a repository path.
pub open spec fn has_invalid_known_path(desired: DesiredView, known: KnownView) -> bool {
    exists|k: Seq<char>| #[trigger]
        known.repository.dom().contains(k) && !desired.repository.dom().contains(k)
            && !is_portable_path(k)
}

/// The plan that brings what is known to what is desired: storage, then
/// repository, then hosting. A changed configuration is settled first.
pub open spec fn plan_of(desired: DesiredView, known: KnownView) -> Result<
    IntegrationPlanView,
    PlannerError,
> {
    if desired_error(desired) is Some {
        Err(desired_error(desired)->0)
    } else if desired.configuration_fingerprint != known.configuration_fingerprint {
        Ok(
            IntegrationPlanView {
                operations: Seq::empty(),
                requirements: seq![RequirementView::ConfigurationChanged],
            },
        )
    } else if has_invalid_known_key(desired, known) {
        Err(PlannerError::InvalidKnownKey)
    } else if has_invalid_known_path(desired, known) {
        Err(PlannerError::InvalidKnownPath)
    } else {
        Ok(
            IntegrationPlanView {
                operations: storage_operations(desired, known) + repository_operations(
                    desired,
                    known,
                ) + hosting_operations(desired, known),
                requirements: storage_requirements(desired, known) + repository_requirements(
                    desired,
                    known,
                ) + hosting_requirements(desired, known),
            },
        )
    }
}

fn push_operation(operations: &mut Vec<IntegrationOperation>, operation: IntegrationOperation)
    ensures
        operations_view(final(operations)@) == operations_view(old(operations)@) + seq![operation@],
{
    let ghost before = operations@;
    operations.push(operation);
    proof {
        assert(operations_view(operations@) =~= operations_view(before) + seq![operation@]);
    }
}

fn push_requirement(
    requirements: &mut Vec<ReconciliationRequirement>,
    requirement: ReconciliationRequirement,
)
    ensures
        requirements_view(final(requirements)@) == requirements_view(old(requirements)@) + seq![
            requirement@,
        ],
{
    let ghost before = requirements@;
    requirements.push(requirement);
    proof {
        assert(requirements_view(requirements@) =~= requirements_view(before) + seq![requirement@]);
    }
}

fn need(known: Option<(OperationState, &String)>, sha256: &str) -> (r: Need)
    ensures
        r == need_of(
            match known {
                Some((status, known_sha256)) => Some((status, known_sha256@)),
                None => None,
            },
            sha256@,
        ),
{
    match known {
        None => Need::Publish,
        Some((status, known_sha256)) => match status {
            OperationState::Confirmed => {
                if same_text(known_sha256.as_str(), sha256) {
                    Need::Nothing
                } else {
                    Need::Publish
                }
            },
            OperationState::Pending => Need::SettlePending,
            OperationState::Unknown => Need::SettleUnknown,
        },
    }
}

fn plan_storage(
    desired: &DesiredPublication,
    known: &KnownRemoteState,
    operations: &mut Vec<IntegrationOperation>,
    requirements: &mut Vec<ReconciliationRequirement>,
) -> (r: Result<(), PlannerError>)
    ensures
        has_invalid_known_key(desired@, known@) ==> r == Err::<(), PlannerError>(
            PlannerError::InvalidKnownKey,
        ),
        !has_invalid_known_key(desired@, known@) ==> r is Ok && operations_view(final(operations)@)
            == operations_view(old(operations)@) + storage_operations(desired@, known@)
            && requirements_view(final(requirements)@) == requirements_view(old(requirements)@)
            + storage_requirements(desired@, known@),
{
    let ghost ops = operations_view(operations@);
    let ghost reqs = requirements_view(requirements@);
    let ghost wanted = ascending_entries(desired@.storage);
    let ghost present = ascending_entries(known@.storage);
    let ghost put = put_operation(known@);
    let ghost settle = object_requirement(known@);
    let ghost delete = delete_operation(desired@);
    let ghost stale = stale_object_requirement(desired@);
    let n: usize = desired.storage.len();
    let m: usize = known.storage.len();
    let mut i: usize = 0;
    proof {
        assert(ops + wanted.take(0).filter_map(put) =~= ops);
        assert(reqs + wanted.take(0).filter_map(settle) =~= reqs);
    }
    while i < n
        invariant
            i <= n,
            n == wanted.len(),
            wanted == ascending_entries(desired.storage@),
            put == put_operation(known@),
            settle == object_requirement(known@),
            operations_view(operations@) == ops + wanted.take(i as int).filter_map(put),
            requirements_view(requirements@) == reqs + wanted.take(i as int).filter_map(settle),
        decreases n - i,
    {
        let key: &String = desired.storage.key_at(i);
        let object: &DesiredStorageObject = desired.storage.value_at(i);
        let ghost e = wanted[i as int];
        let found: Option<(OperationState, &String)> = match known.storage.get(key.as_str()) {
            Some(entry) => Some((entry.status, &entry.sha256)),
            None => None,
        };
        proof {
            wanted.lemma_filter_map_take_succ(put, i as int);
            wanted.lemma_filter_map_take_succ(settle, i as int);
        }
        let ghost ops_before = operations_view(operations@);
        let ghost reqs_before = requirements_view(requirements@);
        match need(found, object.sha256.as_str()) {
            Need::Nothing => {},
            Need::Publish => push_operation(
                operations,
                IntegrationOperation::PutStorage(object.duplicate()),
            ),
            Need::SettlePending => push_requirement(
                requirements,
                ReconciliationRequirement::StoragePending { key: object.key.duplicate() },
            ),
            Need::SettleUnknown => push_requirement(
                requirements,
                ReconciliationRequirement::StorageUnknown { key: object.key.duplicate() },
            ),
        }
        i = i + 1;
        proof {
            assert(operations_view(operations@) =~= ops + wanted.take(i as int).filter_map(put));
            assert(requirements_view(requirements@) =~= reqs + wanted.take(i as int).filter_map(
                settle,
            ));
        }
    }
    let ghost puts = wanted.filter_map(put);
    let ghost settles = wanted.filter_map(settle);
    proof {
        assert(wanted.take(n as int) =~= wanted);
        lemma_listed_entries(known@.storage);
        assert(ops + puts + present.take(0).filter_map(delete) =~= ops + puts);
        assert(reqs + settles + present.take(0).filter_map(stale) =~= reqs + settles);
    }
    let mut j: usize = 0;
    while j < m
        invariant
            j <= m,
            m == present.len(),
            is_listed(known.storage@),
            present == ascending_entries(known.storage@),
            delete == delete_operation(desired@),
            stale == stale_object_requirement(desired@),
            operations_view(operations@) == ops + puts + present.take(j as int).filter_map(delete),
            requirements_view(requirements@) == reqs + settles + present.take(j as int).filter_map(
                stale,
            ),
            forall|x: int|
                0 <= x < j ==> desired@.storage.dom().contains((#[trigger] present[x]).0)
                    || is_portable_path(present[x].0),
        decreases m - j,
    {
        let text: &String = known.storage.key_at(j);
        let entry: &R2InventoryEntry = known.storage.value_at(j);
        proof {
            present.lemma_filter_map_take_succ(delete, j as int);
            present.lemma_filter_map_take_succ(stale, j as int);
            lemma_listed_entries(known@.storage);
        }
        if !desired.storage.contains_key(text.as_str()) {
            let key: ObjectKey = match ObjectKey::new(text.as_str()) {
                Ok(key) => key,
                Err(_) => {
                    proof {
                        assert(known@.storage.dom().contains(present[j as int].0));
                    }
                    return Err(PlannerError::InvalidKnownKey);
                },
            };
            match entry.status {
                OperationState::Confirmed => push_operation(
                    operations,
                    IntegrationOperation::DeleteStorage { key },
                ),
                OperationState::Pending => push_requirement(
                    requirements,
                    ReconciliationRequirement::StoragePending { key },
                ),
                OperationState::Unknown => push_requirement(
                    requirements,
                    ReconciliationRequirement::StorageUnknown { key },
                ),
            }
        }
        j = j + 1;
        proof {
            assert(operations_view(operations@) =~= ops + puts + present.take(j as int).filter_map(
                delete,
            ));
            assert(requirements_view(requirements@) =~= reqs + settles + present.take(
                j as int,
            ).filter_map(stale));
        }
    }
    proof {
        assert(present.take(m as int) =~= present);
        lemma_listed_entries(known@.storage);
        assert(!has_invalid_known_key(desired@, known@)) by {
            if has_invalid_known_key(desired@, known@) {
                let k = choose|k: Seq<char>| #[trigger]
                    known@.storage.dom().contains(k) && !desired@.storage.dom().contains(k)
                        && !is_portable_path(k);
                let x = choose|x: int|
                    0 <= x < present.len() && #[trigger] present[x] == (k, known@.storage[k]);
                assert(present[x].0 == k);
            }
        }
        reveal(storage_operations);
        reveal(storage_requirements);
        assert(operations_view(operations@) =~= ops + storage_operations(desired@, known@));
        assert(requirements_view(requirements@) =~= reqs + storage_requirements(desired@, known@));
    }
    Ok(())
}

fn plan_repository(
    desired: &DesiredPublication,
    known: &KnownRemoteState,
    operations: &mut Vec<IntegrationOperation>,
    requirements: &mut Vec<ReconciliationRequirement>,
) -> (r: Result<(), PlannerError>)
    ensures
        has_invalid_known_path(desired@, known@) ==> r == Err::<(), PlannerError>(
            PlannerError::InvalidKnownPath,
        ),
        !has_invalid_known_path(desired@, known@) ==> r is Ok && operations_view(
            final(operations)@,
        ) == operations_view(old(operations)@) + repository_operations(desired@, known@)
            && requirements_view(final(requirements)@) == requirements_view(old(requirements)@)
            + repository_requirements(desired@, known@),
{
    let ghost ops = operations_view(operations@);
    let ghost reqs = requirements_view(requirements@);
    let ghost wanted = ascending_entries(desired@.repository);
    let ghost present = ascending_entries(known@.repository);
    let ghost write = write_operation(known@);
    let ghost settle = file_requirement(known@);
    let ghost remove = remove_operation(desired@);
    let ghost stale = stale_file_requirement(desired@);
    let n: usize = desired.repository.len();
    let m: usize = known.repository.len();
    let mut i: usize = 0;
    proof {
        assert(ops + wanted.take(0).filter_map(write) =~= ops);
        assert(reqs + wanted.take(0).filter_map(settle) =~= reqs);
    }
    while i < n
        invariant
            i <= n,
            n == wanted.len(),
            wanted == ascending_entries(desired.repository@),
            write == write_operation(known@),
            settle == file_requirement(known@),
            operations_view(operations@) == ops + wanted.take(i as int).filter_map(write),
            requirements_view(requirements@) == reqs + wanted.take(i as int).filter_map(settle),
        decreases n - i,
    {
        let path: &String = desired.repository.key_at(i);
        let file: &DesiredRepositoryFile = desired.repository.value_at(i);
        let ghost e = wanted[i as int];
        let found: Option<(OperationState, &String)> = match known.repository.get(path.as_str()) {
            Some(entry) => Some((entry.status, &entry.sha256)),
            None => None,
        };
        proof {
            wanted.lemma_filter_map_take_succ(write, i as int);
            wanted.lemma_filter_map_take_succ(settle, i as int);
        }
        match need(found, file.sha256.as_str()) {
            Need::Nothing => {},
            Need::Publish => push_operation(
                operations,
                IntegrationOperation::WriteRepository(file.duplicate()),
            ),
            Need::SettlePending => push_requirement(
                requirements,
                ReconciliationRequirement::RepositoryPending { path: file.path.duplicate() },
            ),
            Need::SettleUnknown => push_requirement(
                requirements,
                ReconciliationRequirement::RepositoryUnknown { path: file.path.duplicate() },
            ),
        }
        i = i + 1;
        proof {
            assert(operations_view(operations@) =~= ops + wanted.take(i as int).filter_map(write));
            assert(requirements_view(requirements@) =~= reqs + wanted.take(i as int).filter_map(
                settle,
            ));
        }
    }
    let ghost writes = wanted.filter_map(write);
    let ghost settles = wanted.filter_map(settle);
    proof {
        assert(wanted.take(n as int) =~= wanted);
        lemma_listed_entries(known@.repository);
        assert(ops + writes + present.take(0).filter_map(remove) =~= ops + writes);
        assert(reqs + settles + present.take(0).filter_map(stale) =~= reqs + settles);
    }
    let mut j: usize = 0;
    while j < m
        invariant
            j <= m,
            m == present.len(),
            is_listed(known.repository@),
            present == ascending_entries(known.repository@),
            remove == remove_operation(desired@),
            stale == stale_file_requirement(desired@),
            operations_view(operations@) == ops + writes + present.take(j as int).filter_map(
                remove,
            ),
            requirements_view(requirements@) == reqs + settles + present.take(j as int).filter_map(
                stale,
            ),
            forall|x: int|
                0 <= x < j ==> desired@.repository.dom().contains((#[trigger] present[x]).0)
                    || is_portable_path(present[x].0),
        decreases m - j,
    {
        let text: &String = known.repository.key_at(j);
        let entry: &GitHubInventoryEntry = known.repository.value_at(j);
        proof {
            present.lemma_filter_map_take_succ(remove, j as int);
            present.lemma_filter_map_take_succ(stale, j as int);
            lemma_listed_entries(known@.repository);
        }
        if !desired.repository.contains_key(text.as_str()) {
            let path: RepositoryPath = match RepositoryPath::new(text.as_str()) {
                Ok(path) => path,
                Err(_) => {
                    proof {
                        assert(known@.repository.dom().contains(present[j as int].0));
                    }
                    return Err(PlannerError::InvalidKnownPath);
                },
            };
            match entry.status {
                OperationState::Confirmed => push_operation(
                    operations,
                    IntegrationOperation::DeleteRepository { path },
                ),
                OperationState::Pending => push_requirement(
                    requirements,
                    ReconciliationRequirement::RepositoryPending { path },
                ),
                OperationState::Unknown => push_requirement(
                    requirements,
                    ReconciliationRequirement::RepositoryUnknown { path },
                ),
            }
        }
        j = j + 1;
        proof {
            assert(operations_view(operations@) =~= ops + writes + present.take(
                j as int,
            ).filter_map(remove));
            assert(requirements_view(requirements@) =~= reqs + settles + present.take(
                j as int,
            ).filter_map(stale));
        }
    }
    proof {
        assert(present.take(m as int) =~= present);
        lemma_listed_entries(known@.repository);
        assert(!has_invalid_known_path(desired@, known@)) by {
            if has_invalid_known_path(desired@, known@) {
                let k = choose|k: Seq<char>| #[trigger]
                    known@.repository.dom().contains(k) && !desired@.repository.dom().contains(k)
                        && !is_portable_path(k);
                let x = choose|x: int|
                    0 <= x < present.len() && #[trigger] present[x] == (k, known@.repository[k]);
                assert(present[x].0 == k);
            }
        }
        reveal(repository_operations);
        reveal(repository_requirements);
        assert(operations_view(operations@) =~= ops + repository_operations(desired@, known@));
        assert(requirements_view(requirements@) =~= reqs + repository_requirements(
            desired@,
            known@,
        ));
    }
    Ok(())
}

fn plan_hosting(
    desired: &DesiredPublication,
    known: &KnownRemoteState,
    operations: &mut Vec<IntegrationOperation>,
    requirements: &mut Vec<ReconciliationRequirement>,
)
    ensures
        operations_view(final(operations)@) == operations_view(old(operations)@)
            + hosting_operations(desired@, known@),
        requirements_view(final(requirements)@) == requirements_view(old(requirements)@)
            + hosting_requirements(desired@, known@),
{
    let found: Option<(OperationState, &String)> = match &known.hosting {
        Some(p) => Some((p.status, &p.bundle_fingerprint)),
        None => None,
    };
    let ghost ops = operations_view(operations@);
    let ghost reqs = requirements_view(requirements@);
    match need(found, desired.bundle_fingerprint.as_str()) {
        Need::Nothing => {},
        Need::Publish => {
            push_operation(
                operations,
                IntegrationOperation::PublishHosting {
                    bundle_fingerprint: desired.bundle_fingerprint.clone(),
                },
            );
        },
        Need::SettlePending => {
            if let Some((_, fingerprint)) = found {
                push_requirement(
                    requirements,
                    ReconciliationRequirement::HostingPending {
                        bundle_fingerprint: fingerprint.clone(),
                    },
                );
            }
        },
        Need::SettleUnknown => {
            if let Some((_, fingerprint)) = found {
                push_requirement(
                    requirements,
                    ReconciliationRequirement::HostingUnknown {
                        bundle_fingerprint: fingerprint.clone(),
                    },
                );
            }
        },
    }
    proof {
        assert(operations_view(operations@) =~= ops + hosting_operations(desired@, known@));
        assert(requirements_view(requirements@) =~= reqs + hosting_requirements(desired@, known@));
    }
}

/// Computes an idempotent plan without provider calls or remote I/O.
pub fn plan_reconciliation(desired: &DesiredPublication, known: &KnownRemoteState) -> (r: Result<
    IntegrationPlan,
    PlannerError,
>)
    ensures
        match (plan_of(desired@, known@), r) {
            (Ok(v), Ok(plan)) => plan@ == v,
            (Err(e), Err(f)) => e == f,
            _ => false,
        },
{
    match desired.validate() {
        Ok(()) => {},
        Err(e) => {
            return Err(e);
        },
    }
    let mut operations: Vec<IntegrationOperation> = Vec::new();
    let mut requirements: Vec<ReconciliationRequirement> = Vec::new();
    proof {
        assert(operations_view(operations@) =~= Seq::<OperationView>::empty());
        assert(requirements_view(requirements@) =~= Seq::<RequirementView>::empty());
    }
    if !same_text(
        desired.configuration_fingerprint.as_str(),
        known.configuration_fingerprint.as_str(),
    ) {
        push_requirement(&mut requirements, ReconciliationRequirement::ConfigurationChanged);
        proof {
            assert(requirements_view(requirements@) =~= seq![RequirementView::ConfigurationChanged]);
        }
        return Ok(IntegrationPlan { operations, reconciliation_requirements: requirements });
    }
    match plan_storage(desired, known, &mut operations, &mut requirements) {
        Ok(()) => {},
        Err(e) => {
            return Err(e);
        },
    }
    match plan_repository(desired, known, &mut operations, &mut requirements) {
        Ok(()) => {},
        Err(e) => {
            return Err(e);
        },
    }
    plan_hosting(desired, known, &mut operations, &mut requirements);
    proof {
        let v = plan_of(desired@, known@)->Ok_0;
        assert(operations_view(operations@) =~= v.operations);
        assert(requirements_view(requirements@) =~= v.requirements);
    }
    Ok(IntegrationPlan { operations, reconciliation_requirements: requirements })
}

} // verus!
