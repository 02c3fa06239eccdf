//! The durable record of what is known to be published remotely.

use crate::digest::{hex_digest, hex_sha256};
use crate::inventory::{
    ascending_entries, is_listed, lemma_empty_listed, lemma_listed, lemma_listed_entries, Duplicate,
    Inventory,
};
use crate::json::{
    encode, json_encoding, members_view, object_of, optional_text_json, optional_text_value,
    push_member, reads_back, text_value, Json, JsonView,
};
use crate::paths::{is_portable_path, portable_path, ObjectKey, RepositoryPath};
use crate::provider::{StorageObject, StorageObjectView};
use crate::sealing::lemma_ledger_is_plain;
use crate::text::{
    copy_option, is_blank, is_blank_text, is_sha256, is_sha256_text, joined, option_text, same_text,
};
use vstd::prelude::*;

verus! {

/// The only ledger format that is read and written.
pub const INTEGRATION_LEDGER_SCHEMA_VERSION: u32 = 1;

/// How certain the remote effect of an operation is.
#[derive(Debug, Clone, Copy, PartialEq, Eq, Structural)]
pub enum OperationState {
    Pending,
    Confirmed,
    Unknown,
}

/// The name of a state in documents and messages.
pub open spec fn status_text(status: OperationState) -> Seq<char> {
    match status {
        OperationState::Pending => "pending"@,
        OperationState::Confirmed => "confirmed"@,
        OperationState::Unknown => "unknown"@,
    }
}

/// The name of a state in documents and messages.
pub fn status_name(status: OperationState) -> (r: &'static str)
    ensures
        r@ == status_text(status),
{
    match status {
        OperationState::Pending => "pending",
        OperationState::Confirmed => "confirmed",
        OperationState::Unknown => "unknown",
    }
}

/// What is known of one object in storage.
#[derive(Debug, PartialEq, Eq)]
pub struct R2InventoryEntry {
    pub sha256: String,
    pub size_bytes: u64,
    pub content_type: Option<String>,
    pub status: OperationState,
}

/// The mathematical form of a storage entry.
pub struct R2EntryView {
    pub sha256: Seq<char>,
    pub size_bytes: u64,
    pub content_type: Option<Seq<char>>,
    pub status: OperationState,
}

impl View for R2InventoryEntry {
    type V = R2EntryView;

    open spec fn view(&self) -> R2EntryView {
        R2EntryView {
            sha256: self.sha256@,
            size_bytes: self.size_bytes,
            content_type: option_text(self.content_type),
            status: self.status,
        }
    }
}

impl Duplicate for R2InventoryEntry {
    fn duplicate(&self) -> (r: Self) {
        R2InventoryEntry {
            sha256: self.sha256.clone(),
            size_bytes: self.size_bytes,
            content_type: copy_option(&self.content_type),
            status: self.status,
        }
    }
}

/// What is known of one file in the repository.
#[derive(Debug, PartialEq, Eq)]
pub struct GitHubInventoryEntry {
    pub sha256: String,
    pub revision: String,
    pub status: OperationState,
}

/// The mathematical form of a repository entry.
pub struct GitHubEntryView {
    pub sha256: Seq<char>,
    pub revision: Seq<char>,
    pub status: OperationState,
}

impl View for GitHubInventoryEntry {
    type V = GitHubEntryView;

    open spec fn view(&self) -> GitHubEntryView {
        GitHubEntryView { sha256: self.sha256@, revision: self.revision@, status: self.status }
    }
}

impl Duplicate for GitHubInventoryEntry {
    fn duplicate(&self) -> (r: Self) {
        GitHubInventoryEntry {
            sha256: self.sha256.clone(),
            revision: self.revision.clone(),
            status: self.status,
        }
    }
}

/// What is known of the hosted deployment.
#[derive(Debug, PartialEq, Eq)]
pub struct VercelPublication {
    pub bundle_fingerprint: String,
    pub status: OperationState,
    pub deployment_id: Option<String>,
    pub url: Option<String>,
}

/// The mathematical form of a hosting entry.
pub struct VercelView {
    pub bundle_fingerprint: Seq<char>,
    pub status: OperationState,
    pub deployment_id: Option<Seq<char>>,
    pub url: Option<Seq<char>>,
}

impl View for VercelPublication {
    type V = VercelView;

    open spec fn view(&self) -> VercelView {
        VercelView {
            bundle_fingerprint: self.bundle_fingerprint@,
            status: self.status,
            deployment_id: option_text(self.deployment_id),
            url: option_text(self.url),
        }
    }
}

impl Duplicate for VercelPublication {
    fn duplicate(&self) -> (r: Self) {
        VercelPublication {
            bundle_fingerprint: self.bundle_fingerprint.clone(),
            status: self.status,
            deployment_id: copy_option(&self.deployment_id),
            url: copy_option(&self.url),
        }
    }
}

/// The mathematical form of an optional hosting entry.
pub open spec fn option_vercel(v: Option<VercelPublication>) -> Option<VercelView> {
    match v {
        Some(p) => Some(p@),
        None => None,
    }
}

/// A copy of an optional hosting entry.
pub fn copy_vercel(v: &Option<VercelPublication>) -> (r: Option<VercelPublication>)
    ensures
        option_vercel(r) == option_vercel(*v),
{
    match v {
        Some(p) => Some(p.duplicate()),
        None => None,
    }
}

/// The durable record of what is known to be published remotely.
#[derive(Debug, PartialEq, Eq)]
pub struct IntegrationLedger {
    pub schema_version: u32,
    pub configuration_fingerprint: String,
    pub local_generation: String,
    pub state_hash: String,
    pub manifest_hash: String,
    pub r2_inventory: Inventory<R2InventoryEntry>,
    pub github_inventory: Inventory<GitHubInventoryEntry>,
    pub vercel: Option<VercelPublication>,
    /// SHA-256 of canonical JSON for every field above. This detects accidental
    /// corruption; it is not a keyed authentication tag.
    pub record_sha256: String,
}

/// The mathematical form of a ledger.
pub struct LedgerView {
    pub schema_version: u32,
    pub configuration_fingerprint: Seq<char>,
    pub local_generation: Seq<char>,
    pub state_hash: Seq<char>,
    pub manifest_hash: Seq<char>,
    pub r2_inventory: Map<Seq<char>, R2EntryView>,
    pub github_inventory: Map<Seq<char>, GitHubEntryView>,
    pub vercel: Option<VercelView>,
    pub record_sha256: Seq<char>,
}

impl View for IntegrationLedger {
    type V = LedgerView;

    open spec fn view(&self) -> LedgerView {
        LedgerView {
            schema_version: self.schema_version,
            configuration_fingerprint: self.configuration_fingerprint@,
            local_generation: self.local_generation@,
            state_hash: self.state_hash@,
            manifest_hash: self.manifest_hash@,
            r2_inventory: self.r2_inventory@,
            github_inventory: self.github_inventory@,
            vercel: option_vercel(self.vercel),
            record_sha256: self.record_sha256@,
        }
    }
}

impl Duplicate for IntegrationLedger {
    fn duplicate(&self) -> (r: Self) {
        IntegrationLedger {
            schema_version: self.schema_version,
            configuration_fingerprint: self.configuration_fingerprint.clone(),
            local_generation: self.local_generation.clone(),
            state_hash: self.state_hash.clone(),
            manifest_hash: self.manifest_hash.clone(),
            r2_inventory: self.r2_inventory.duplicate(),
            github_inventory: self.github_inventory.duplicate(),
            vercel: copy_vercel(&self.vercel),
            record_sha256: self.record_sha256.clone(),
        }
    }
}

impl Clone for IntegrationLedger {
    fn clone(&self) -> (r: Self)
        ensures
            r@ == self@,
    {
        self.duplicate()
    }
}

// ---------------------------------------------------------------------------
// Canonical content
// ---------------------------------------------------------------------------
/// The JSON form of a storage entry.
pub open spec fn r2_entry_json(e: R2EntryView) -> JsonView {
    JsonView::Object(
        seq![
            ("contentType"@, optional_text_json(e.content_type)),
            ("sha256"@, JsonView::Text(e.sha256)),
            ("sizeBytes"@, JsonView::Integer(e.size_bytes)),
            ("status"@, JsonView::Text(status_text(e.status))),
        ],
    )
}

/// The JSON form of a repository entry.
pub open spec fn github_entry_json(e: GitHubEntryView) -> JsonView {
    JsonView::Object(
        seq![
            ("revision"@, JsonView::Text(e.revision)),
            ("sha256"@, JsonView::Text(e.sha256)),
            ("status"@, JsonView::Text(status_text(e.status))),
        ],
    )
}

/// The JSON form of the hosting entry: `null` where there is none.
pub open spec fn vercel_json(v: Option<VercelView>) -> JsonView {
    match v {
        None => JsonView::Null,
        Some(p) => JsonView::Object(
            seq![
                ("bundleFingerprint"@, JsonView::Text(p.bundle_fingerprint)),
                ("deploymentId"@, optional_text_json(p.deployment_id)),
                ("status"@, JsonView::Text(status_text(p.status))),
                ("url"@, optional_text_json(p.url)),
            ],
        ),
    }
}

/// The JSON form of the storage inventory, keys ascending.
pub open spec fn r2_inventory_json(m: Map<Seq<char>, R2EntryView>) -> JsonView {
    JsonView::Object(
        ascending_entries(m).map_values(|e: (Seq<char>, R2EntryView)| (e.0, r2_entry_json(e.1))),
    )
}

/// The JSON form of the repository inventory, keys ascending.
pub open spec fn github_inventory_json(m: Map<Seq<char>, GitHubEntryView>) -> JsonView {
    JsonView::Object(
        ascending_entries(m).map_values(
            |e: (Seq<char>, GitHubEntryView)| (e.0, github_entry_json(e.1)),
        ),
    )
}

/// The canonical JSON of a ledger: every field but the digest, keys ascending.
pub open spec fn ledger_json(v: LedgerView) -> JsonView {
    JsonView::Object(
        seq![
            ("configurationFingerprint"@, JsonView::Text(v.configuration_fingerprint)),
            ("githubInventory"@, github_inventory_json(v.github_inventory)),
            ("localGeneration"@, JsonView::Text(v.local_generation)),
            ("manifestHash"@, JsonView::Text(v.manifest_hash)),
            ("r2Inventory"@, r2_inventory_json(v.r2_inventory)),
            ("schemaVersion"@, JsonView::Integer(v.schema_version as u64)),
            ("stateHash"@, JsonView::Text(v.state_hash)),
            ("vercel"@, vercel_json(v.vercel)),
        ],
    )
}

/// The digest of a ledger's canonical JSON.
pub open spec fn ledger_digest(v: LedgerView) -> Seq<char> {
    hex_sha256(json_encoding(ledger_json(v)))
}

fn r2_entry_value(e: &R2InventoryEntry) -> (r: Json)
    ensures
        r@ == r2_entry_json(e@),
{
    let mut members: Vec<(String, Json)> = Vec::new();
    push_member(&mut members, "contentType", optional_text_value(&e.content_type));
    push_member(&mut members, "sha256", text_value(e.sha256.as_str()));
    push_member(&mut members, "sizeBytes", Json::Integer(e.size_bytes));
    push_member(&mut members, "status", text_value(status_name(e.status)));
    proof {
        assert(members_view(members@) =~= r2_entry_json(e@)->Object_0);
    }
    object_of(members)
}

fn github_entry_value(e: &GitHubInventoryEntry) -> (r: Json)
    ensures
        r@ == github_entry_json(e@),
{
    let mut members: Vec<(String, Json)> = Vec::new();
    push_member(&mut members, "revision", text_value(e.revision.as_str()));
    push_member(&mut members, "sha256", text_value(e.sha256.as_str()));
    push_member(&mut members, "status", text_value(status_name(e.status)));
    proof {
        assert(members_view(members@) =~= github_entry_json(e@)->Object_0);
    }
    object_of(members)
}

fn vercel_value(v: &Option<VercelPublication>) -> (r: Json)
    ensures
        r@ == vercel_json(option_vercel(*v)),
{
    match v {
        None => Json::Null,
        Some(p) => {
            let mut members: Vec<(String, Json)> = Vec::new();
            push_member(
                &mut members,
                "bundleFingerprint",
                text_value(p.bundle_fingerprint.as_str()),
            );
            push_member(&mut members, "deploymentId", optional_text_value(&p.deployment_id));
            push_member(&mut members, "status", text_value(status_name(p.status)));
            push_member(&mut members, "url", optional_text_value(&p.url));
            proof {
                assert(members_view(members@) =~= vercel_json(Some(p@))->Object_0);
            }
            object_of(members)
        },
    }
}

fn r2_inventory_value(inventory: &Inventory<R2InventoryEntry>) -> (r: Json)
    ensures
        is_listed(inventory@),
        r@ == r2_inventory_json(inventory@),
{
    let n: usize = inventory.len();
    let ghost all = r2_inventory_json(inventory@)->Object_0;
    let mut members: Vec<(String, Json)> = Vec::new();
    let mut i: usize = 0;
    while i < n
        invariant
            i <= n,
            n == ascending_entries(inventory@).len(),
            all == r2_inventory_json(inventory@)->Object_0,
            members_view(members@) == all.take(i as int),
        decreases n - i,
    {
        push_member(&mut members, inventory.key_at(i).as_str(), r2_entry_value(inventory.value_at(i)));
        i = i + 1;
        proof {
            assert(all.take(i as int) =~= all.take(i - 1).push(all[i - 1]));
        }
    }
    proof {
        assert(all.take(n as int) =~= all);
    }
    object_of(members)
}

fn github_inventory_value(inventory: &Inventory<GitHubInventoryEntry>) -> (r: Json)
    ensures
        is_listed(inventory@),
        r@ == github_inventory_json(inventory@),
{
    let n: usize = inventory.len();
    let ghost all = github_inventory_json(inventory@)->Object_0;
    let mut members: Vec<(String, Json)> = Vec::new();
    let mut i: usize = 0;
    while i < n
        invariant
            i <= n,
            n == ascending_entries(inventory@).len(),
            all == github_inventory_json(inventory@)->Object_0,
            members_view(members@) == all.take(i as int),
        decreases n - i,
    {
        push_member(
            &mut members,
            inventory.key_at(i).as_str(),
            github_entry_value(inventory.value_at(i)),
        );
        i = i + 1;
        proof {
            assert(all.take(i as int) =~= all.take(i - 1).push(all[i - 1]));
        }
    }
    proof {
        assert(all.take(n as int) =~= all);
    }
    object_of(members)
}

// ---------------------------------------------------------------------------
// Validity
// ---------------------------------------------------------------------------
/// Why a ledger, or a change to it, is refused.
#[derive(Debug, PartialEq, Eq)]
pub enum LedgerError {
    UnsupportedSchemaVersion,
    InvalidConfigurationFingerprint,
    InvalidStateHash,
    InvalidManifestHash,
    MissingGeneration,
    InvalidStorageKey,
    InvalidStorageDigest,
    InvalidRepositoryPath,
    InvalidRepositoryDigest,
    MissingRevision,
    InvalidBundleFingerprint,
    IncompleteDeployment,
    DigestMismatch,
    KeyMismatch,
    UnrecordedStorageKey(String),
    UnrecordedRepositoryPath(String),
    UnrecordedDeployment,
}

/// The mathematical form of a ledger error.
pub enum LedgerErrorView {
    UnsupportedSchemaVersion,
    InvalidConfigurationFingerprint,
    InvalidStateHash,
    InvalidManifestHash,
    MissingGeneration,
    InvalidStorageKey,
    InvalidStorageDigest,
    InvalidRepositoryPath,
    InvalidRepositoryDigest,
    MissingRevision,
    InvalidBundleFingerprint,
    IncompleteDeployment,
    DigestMismatch,
    KeyMismatch,
    UnrecordedStorageKey(Seq<char>),
    UnrecordedRepositoryPath(Seq<char>),
    UnrecordedDeployment,
}

impl View for LedgerError {
    type V = LedgerErrorView;

    open spec fn view(&self) -> LedgerErrorView {
        match *self {
            LedgerError::UnsupportedSchemaVersion => LedgerErrorView::UnsupportedSchemaVersion,
            LedgerError::InvalidConfigurationFingerprint => LedgerErrorView::InvalidConfigurationFingerprint,
            LedgerError::InvalidStateHash => LedgerErrorView::InvalidStateHash,
            LedgerError::InvalidManifestHash => LedgerErrorView::InvalidManifestHash,
            LedgerError::MissingGeneration => LedgerErrorView::MissingGeneration,
            LedgerError::InvalidStorageKey => LedgerErrorView::InvalidStorageKey,
            LedgerError::InvalidStorageDigest => LedgerErrorView::InvalidStorageDigest,
            LedgerError::InvalidRepositoryPath => LedgerErrorView::InvalidRepositoryPath,
            LedgerError::InvalidRepositoryDigest => LedgerErrorView::InvalidRepositoryDigest,
            LedgerError::MissingRevision => LedgerErrorView::MissingRevision,
            LedgerError::InvalidBundleFingerprint => LedgerErrorView::InvalidBundleFingerprint,
            LedgerError::IncompleteDeployment => LedgerErrorView::IncompleteDeployment,
            LedgerError::DigestMismatch => LedgerErrorView::DigestMismatch,
            LedgerError::KeyMismatch => LedgerErrorView::KeyMismatch,
            LedgerError::UnrecordedStorageKey(name) => LedgerErrorView::UnrecordedStorageKey(name@),
            LedgerError::UnrecordedRepositoryPath(name) => LedgerErrorView::UnrecordedRepositoryPath(name@),
            LedgerError::UnrecordedDeployment => LedgerErrorView::UnrecordedDeployment,
        }
    }
}

/// What is wrong with a ledger, in words.
pub open spec fn ledger_error_text(e: LedgerErrorView) -> Seq<char> {
    match e {
        LedgerErrorView::UnsupportedSchemaVersion =>
            "unsupported integration ledger schema version"@,
        LedgerErrorView::InvalidConfigurationFingerprint =>
            "configurationFingerprint must be a SHA-256 hex digest"@,
        LedgerErrorView::InvalidStateHash =>
            "stateHash must be a SHA-256 hex digest"@,
        LedgerErrorView::InvalidManifestHash =>
            "manifestHash must be a SHA-256 hex digest"@,
        LedgerErrorView::MissingGeneration =>
            "integration ledger localGeneration is required"@,
        LedgerErrorView::InvalidStorageKey =>
            "R2 inventory key is not a valid object key"@,
        LedgerErrorView::InvalidStorageDigest =>
            "R2 object sha256 must be a SHA-256 hex digest"@,
        LedgerErrorView::InvalidRepositoryPath =>
            "GitHub inventory path is not a valid repository path"@,
        LedgerErrorView::InvalidRepositoryDigest =>
            "GitHub file sha256 must be a SHA-256 hex digest"@,
        LedgerErrorView::MissingRevision =>
            "GitHub inventory revision is required"@,
        LedgerErrorView::InvalidBundleFingerprint =>
            "Vercel bundle fingerprint must be a SHA-256 hex digest"@,
        LedgerErrorView::IncompleteDeployment =>
            "confirmed Vercel publication requires deploymentId and url"@,
        LedgerErrorView::DigestMismatch =>
            "integration ledger recordSha256 does not match canonical content"@,
        LedgerErrorView::KeyMismatch =>
            "R2 inventory object key does not match its map key"@,
        LedgerErrorView::UnrecordedStorageKey(key) => "R2 inventory does not contain key: "@ + key,
        LedgerErrorView::UnrecordedRepositoryPath(path) =>
            "GitHub inventory does not contain path: "@ + path,
        LedgerErrorView::UnrecordedDeployment =>
            "ledger does not contain a Vercel publication"@,
    }
}

impl LedgerError {
    /// What is wrong, in words.
    pub fn message(&self) -> (r: String)
        ensures
            r@ == ledger_error_text(self@),
    {
        match self {
            LedgerError::UnsupportedSchemaVersion => {
                "unsupported integration ledger schema version".to_owned()
            },
            LedgerError::InvalidConfigurationFingerprint => {
                "configurationFingerprint must be a SHA-256 hex digest".to_owned()
            },
            LedgerError::InvalidStateHash => {
                "stateHash must be a SHA-256 hex digest".to_owned()
            },
            LedgerError::InvalidManifestHash => {
                "manifestHash must be a SHA-256 hex digest".to_owned()
            },
            LedgerError::MissingGeneration => {
                "integration ledger localGeneration is required".to_owned()
            },
            LedgerError::InvalidStorageKey => {
                "R2 inventory key is not a valid object key".to_owned()
            },
            LedgerError::InvalidStorageDigest => {
                "R2 object sha256 must be a SHA-256 hex digest".to_owned()
            },
            LedgerError::InvalidRepositoryPath => {
                "GitHub inventory path is not a valid repository path".to_owned()
            },
            LedgerError::InvalidRepositoryDigest => {
                "GitHub file sha256 must be a SHA-256 hex digest".to_owned()
            },
            LedgerError::MissingRevision => {
                "GitHub inventory revision is required".to_owned()
            },
            LedgerError::InvalidBundleFingerprint => {
                "Vercel bundle fingerprint must be a SHA-256 hex digest".to_owned()
            },
            LedgerError::IncompleteDeployment => {
                "confirmed Vercel publication requires deploymentId and url".to_owned()
            },
            LedgerError::DigestMismatch => {
                "integration ledger recordSha256 does not match canonical content".to_owned()
            },
            LedgerError::KeyMismatch => {
                "R2 inventory object key does not match its map key".to_owned()
            },
            LedgerError::UnrecordedStorageKey(key) => joined(
                "R2 inventory does not contain key: ",
                key.as_str(),
            ),
            LedgerError::UnrecordedRepositoryPath(path) => joined(
                "GitHub inventory does not contain path: ",
                path.as_str(),
            ),
            LedgerError::UnrecordedDeployment => {
                "ledger does not contain a Vercel publication".to_owned()
            },
        }
    }
}

/// Why a ledger transition failed.
#[derive(Debug, PartialEq, Eq)]
pub enum LedgerFailure {
    /// The ledger refused the change.
    Refused(LedgerError),
    /// The changed ledger could not be written; the text says why.
    NotPersisted(String),
}

/// The mathematical form of a ledger failure.
pub enum LedgerFailureView {
    Refused(LedgerErrorView),
    NotPersisted(Seq<char>),
}

impl View for LedgerFailure {
    type V = LedgerFailureView;

    open spec fn view(&self) -> LedgerFailureView {
        match *self {
            LedgerFailure::Refused(e) => LedgerFailureView::Refused(e@),
            LedgerFailure::NotPersisted(text) => LedgerFailureView::NotPersisted(text@),
        }
    }
}

/// The failure in words.
pub open spec fn ledger_failure_text(failure: LedgerFailureView) -> Seq<char> {
    "failed to persist the integration ledger: "@ + match failure {
        LedgerFailureView::Refused(e) => ledger_error_text(e),
        LedgerFailureView::NotPersisted(text) => text,
    }
}

impl LedgerFailure {
    /// The failure in words.
    pub fn message(&self) -> (r: String)
        ensures
            r@ == ledger_failure_text(self@),
    {
        match self {
            LedgerFailure::Refused(e) => joined(
                "failed to persist the integration ledger: ",
                e.message().as_str(),
            ),
            LedgerFailure::NotPersisted(text) => joined(
                "failed to persist the integration ledger: ",
                text.as_str(),
            ),
        }
    }
}

/// The mathematical form of an optional ledger.
pub open spec fn optional_ledger(ledger: Option<IntegrationLedger>) -> Option<LedgerView> {
    match ledger {
        Some(l) => Some(l@),
        None => None,
    }
}

/// What is wrong with a storage entry.
pub open spec fn r2_entry_error(key: Seq<char>, e: R2EntryView) -> Option<LedgerErrorView> {
    if !is_portable_path(key) {
        Some(LedgerErrorView::InvalidStorageKey)
    } else if !is_sha256_text(e.sha256) {
        Some(LedgerErrorView::InvalidStorageDigest)
    } else {
        None
    }
}

/// What is wrong with a repository entry.
pub open spec fn github_entry_error(path: Seq<char>, e: GitHubEntryView) -> Option<LedgerErrorView> {
    if !is_portable_path(path) {
        Some(LedgerErrorView::InvalidRepositoryPath)
    } else if !is_sha256_text(e.sha256) {
        Some(LedgerErrorView::InvalidRepositoryDigest)
    } else if is_blank_text(e.revision) {
        Some(LedgerErrorView::MissingRevision)
    } else {
        None
    }
}

/// Whether an optional text is missing or blank.
pub open spec fn is_missing(t: Option<Seq<char>>) -> bool {
    match t {
        Some(s) => is_blank_text(s),
        None => true,
    }
}

/// What is wrong with the hosting entry: a confirmed one names its deployment.
pub open spec fn vercel_error(v: Option<VercelView>) -> Option<LedgerErrorView> {
    match v {
        None => None,
        Some(p) => if !is_sha256_text(p.bundle_fingerprint) {
            Some(LedgerErrorView::InvalidBundleFingerprint)
        } else if p.status == OperationState::Confirmed && (is_missing(p.deployment_id)
            || is_missing(p.url)) {
            Some(LedgerErrorView::IncompleteDeployment)
        } else {
            None
        },
    }
}

/// The first thing wrong with a list of storage entries.
pub open spec fn first_r2_error(s: Seq<(Seq<char>, R2EntryView)>) -> Option<LedgerErrorView>
    decreases s.len(),
{
    if s.len() == 0 {
        None
    } else {
        match r2_entry_error(s[0].0, s[0].1) {
            Some(e) => Some(e),
            None => first_r2_error(s.drop_first()),
        }
    }
}

/// The first thing wrong with a list of repository entries.
pub open spec fn first_github_error(s: Seq<(Seq<char>, GitHubEntryView)>) -> Option<LedgerErrorView>
    decreases s.len(),
{
    if s.len() == 0 {
        None
    } else {
        match github_entry_error(s[0].0, s[0].1) {
            Some(e) => Some(e),
            None => first_github_error(s.drop_first()),
        }
    }
}

/// What is wrong with the identity of the publication in the ledger.
pub open spec fn header_error(v: LedgerView) -> Option<LedgerErrorView> {
    if v.schema_version != INTEGRATION_LEDGER_SCHEMA_VERSION {
        Some(LedgerErrorView::UnsupportedSchemaVersion)
    } else if !is_sha256_text(v.configuration_fingerprint) {
        Some(LedgerErrorView::InvalidConfigurationFingerprint)
    } else if !is_sha256_text(v.state_hash) {
        Some(LedgerErrorView::InvalidStateHash)
    } else if !is_sha256_text(v.manifest_hash) {
        Some(LedgerErrorView::InvalidManifestHash)
    } else if is_blank_text(v.local_generation) {
        Some(LedgerErrorView::MissingGeneration)
    } else {
        None
    }
}

/// The first thing wrong with a ledger, in the order of its fields.
pub open spec fn ledger_error(v: LedgerView) -> Option<LedgerErrorView> {
    if header_error(v) is Some {
        header_error(v)
    } else if first_r2_error(ascending_entries(v.r2_inventory)) is Some {
        first_r2_error(ascending_entries(v.r2_inventory))
    } else if first_github_error(ascending_entries(v.github_inventory)) is Some {
        first_github_error(ascending_entries(v.github_inventory))
    } else if vercel_error(v.vercel) is Some {
        vercel_error(v.vercel)
    } else if v.record_sha256 != ledger_digest(v) {
        Some(LedgerErrorView::DigestMismatch)
    } else {
        None
    }
}

/// A ledger with nothing wrong: every entry is well-formed and the digest is
/// that of the content.
pub open spec fn ledger_valid(v: LedgerView) -> bool {
    &&& is_listed(v.r2_inventory)
    &&& is_listed(v.github_inventory)
    &&& header_error(v) is None
    &&& forall|k: Seq<char>| #[trigger]
        v.r2_inventory.dom().contains(k) ==> r2_entry_error(k, v.r2_inventory[k]) is None
    &&& forall|k: Seq<char>| #[trigger]
        v.github_inventory.dom().contains(k) ==> github_entry_error(k, v.github_inventory[k]) is None
    &&& vercel_error(v.vercel) is None
    &&& v.record_sha256 == ledger_digest(v)
}

proof fn lemma_first_r2_error(s: Seq<(Seq<char>, R2EntryView)>)
    ensures
        first_r2_error(s) is None <==> forall|i: int|
            0 <= i < s.len() ==> r2_entry_error((#[trigger] s[i]).0, s[i].1) is None,
    decreases s.len(),
{
    if s.len() > 0 {
        let t = s.drop_first();
        lemma_first_r2_error(t);
        if first_r2_error(s) is None {
            assert forall|i: int| 0 <= i < s.len() implies r2_entry_error(
                (#[trigger] s[i]).0,
                s[i].1,
            ) is None by {
                if i > 0 {
                    assert(s[i] == t[i - 1]);
                }
            }
        } else if r2_entry_error(s[0].0, s[0].1) is None {
            let i = choose|i: int|
                0 <= i < t.len() && r2_entry_error((#[trigger] t[i]).0, t[i].1) is Some;
            assert(s[i + 1] == t[i]);
        }
    }
}

proof fn lemma_first_github_error(s: Seq<(Seq<char>, GitHubEntryView)>)
    ensures
        first_github_error(s) is None <==> forall|i: int|
            0 <= i < s.len() ==> github_entry_error((#[trigger] s[i]).0, s[i].1) is None,
    decreases s.len(),
{
    if s.len() > 0 {
        let t = s.drop_first();
        lemma_first_github_error(t);
        if first_github_error(s) is None {
            assert forall|i: int| 0 <= i < s.len() implies github_entry_error(
                (#[trigger] s[i]).0,
                s[i].1,
            ) is None by {
                if i > 0 {
                    assert(s[i] == t[i - 1]);
                }
            }
        } else if github_entry_error(s[0].0, s[0].1) is None {
            let i = choose|i: int|
                0 <= i < t.len() && github_entry_error((#[trigger] t[i]).0, t[i].1) is Some;
            assert(s[i + 1] == t[i]);
        }
    }
}

/// A ledger is valid exactly when no error is found in it.
pub proof fn law_valid_iff_no_error(v: LedgerView)
    requires
        is_listed(v.r2_inventory),
        is_listed(v.github_inventory),
    ensures
        ledger_valid(v) <==> ledger_error(v) is None,
{
    let a = ascending_entries(v.r2_inventory);
    let b = ascending_entries(v.github_inventory);
    lemma_first_r2_error(a);
    lemma_first_github_error(b);
    lemma_listed_entries(v.r2_inventory);
    lemma_listed_entries(v.github_inventory);
    if ledger_error(v) is None {
        assert forall|k: Seq<char>| #[trigger] v.r2_inventory.dom().contains(k) implies r2_entry_error(
            k,
            v.r2_inventory[k],
        ) is None by {
            let i = choose|i: int| 0 <= i < a.len() && #[trigger] a[i] == (k, v.r2_inventory[k]);
            assert(r2_entry_error(a[i].0, a[i].1) is None);
        }
        assert forall|k: Seq<char>| #[trigger]
            v.github_inventory.dom().contains(k) implies github_entry_error(
            k,
            v.github_inventory[k],
        ) is None by {
            let i = choose|i: int|
                0 <= i < b.len() && #[trigger] b[i] == (k, v.github_inventory[k]);
            assert(github_entry_error(b[i].0, b[i].1) is None);
        }
    }
}

// ---------------------------------------------------------------------------
// Changes
// ---------------------------------------------------------------------------
/// The ledger with the digest of its content.
pub open spec fn resealed(v: LedgerView) -> LedgerView {
    LedgerView { record_sha256: ledger_digest(v), ..v }
}

/// The ledger with a storage entry put in.
pub open spec fn with_r2(v: LedgerView, key: Seq<char>, e: R2EntryView) -> LedgerView {
    resealed(LedgerView { r2_inventory: v.r2_inventory.insert(key, e), ..v })
}

/// The ledger with a storage entry taken out.
pub open spec fn without_r2(v: LedgerView, key: Seq<char>) -> LedgerView {
    resealed(LedgerView { r2_inventory: v.r2_inventory.remove(key), ..v })
}

/// The ledger with a repository entry put in.
pub open spec fn with_github(v: LedgerView, path: Seq<char>, e: GitHubEntryView) -> LedgerView {
    resealed(LedgerView { github_inventory: v.github_inventory.insert(path, e), ..v })
}

/// The ledger with a repository entry taken out.
pub open spec fn without_github(v: LedgerView, path: Seq<char>) -> LedgerView {
    resealed(LedgerView { github_inventory: v.github_inventory.remove(path), ..v })
}

/// The ledger with another hosting entry.
pub open spec fn with_vercel(v: LedgerView, p: Option<VercelView>) -> LedgerView {
    resealed(LedgerView { vercel: p, ..v })
}

/// The ledger under the identity of another publication.
pub open spec fn with_header(
    v: LedgerView,
    configuration_fingerprint: Seq<char>,
    local_generation: Seq<char>,
    state_hash: Seq<char>,
    manifest_hash: Seq<char>,
) -> LedgerView {
    resealed(
        LedgerView { configuration_fingerprint, local_generation, state_hash, manifest_hash, ..v },
    )
}

/// The storage entry for an object.
pub open spec fn r2_entry_of(object: StorageObjectView, status: OperationState) -> R2EntryView {
    R2EntryView {
        sha256: object.sha256,
        size_bytes: object.size_bytes,
        content_type: object.content_type,
        status,
    }
}

/// How a change ends: it is taken where its result is valid, and refused
/// otherwise with the ledger as it was.
pub open spec fn change_outcome(
    before: LedgerView,
    next: LedgerView,
    after: LedgerView,
    result: Result<(), LedgerError>,
) -> bool {
    match ledger_error(next) {
        Some(e) => result matches Err(f) && f@ == e && after == before,
        None => result is Ok && after == next,
    }
}

/// The result of a change: the changed ledger where it is valid.
pub open spec fn attempted(next: LedgerView) -> Result<LedgerView, LedgerErrorView> {
    match ledger_error(next) {
        Some(e) => Err(e),
        None => Ok(next),
    }
}

/// The result of recording an object.
pub open spec fn r2_recorded(
    v: LedgerView,
    key: Seq<char>,
    object: StorageObjectView,
    status: OperationState,
) -> Result<LedgerView, LedgerErrorView> {
    if object.key != key {
        Err(LedgerErrorView::KeyMismatch)
    } else {
        attempted(with_r2(v, key, r2_entry_of(object, status)))
    }
}

/// The result of removing an object.
pub open spec fn r2_removed(v: LedgerView, key: Seq<char>) -> Result<LedgerView, LedgerErrorView> {
    if !v.r2_inventory.dom().contains(key) {
        Err(LedgerErrorView::UnrecordedStorageKey(key))
    } else {
        attempted(without_r2(v, key))
    }
}

/// The result of recording a repository file.
pub open spec fn github_recorded(v: LedgerView, path: Seq<char>, e: GitHubEntryView) -> Result<
    LedgerView,
    LedgerErrorView,
> {
    attempted(with_github(v, path, e))
}

/// The result of removing a repository file.
pub open spec fn github_removed(v: LedgerView, path: Seq<char>) -> Result<LedgerView, LedgerErrorView> {
    if !v.github_inventory.dom().contains(path) {
        Err(LedgerErrorView::UnrecordedRepositoryPath(path))
    } else {
        attempted(without_github(v, path))
    }
}

/// The ledger once a hosting entry is recorded.
pub open spec fn vercel_recorded(v: LedgerView, p: VercelView) -> Result<LedgerView, LedgerErrorView> {
    attempted(with_vercel(v, Some(p)))
}

/// The ledger once the hosting entry is removed.
pub open spec fn vercel_removed(v: LedgerView) -> Result<LedgerView, LedgerErrorView> {
    if v.vercel is None {
        Err(LedgerErrorView::UnrecordedDeployment)
    } else {
        attempted(with_vercel(v, None))
    }
}

impl IntegrationLedger {
    fn compute_record_sha256(&self) -> (r: String)
        ensures
            r@ == ledger_digest(self@),
            is_listed(self@.r2_inventory),
            is_listed(self@.github_inventory),
            reads_back(ledger_json(self@)),
    {
        let mut members: Vec<(String, Json)> = Vec::new();
        push_member(
            &mut members,
            "configurationFingerprint",
            text_value(self.configuration_fingerprint.as_str()),
        );
        push_member(
            &mut members,
            "githubInventory",
            github_inventory_value(&self.github_inventory),
        );
        push_member(&mut members, "localGeneration", text_value(self.local_generation.as_str()));
        push_member(&mut members, "manifestHash", text_value(self.manifest_hash.as_str()));
        push_member(&mut members, "r2Inventory", r2_inventory_value(&self.r2_inventory));
        push_member(&mut members, "schemaVersion", Json::Integer(self.schema_version as u64));
        push_member(&mut members, "stateHash", text_value(self.state_hash.as_str()));
        push_member(&mut members, "vercel", vercel_value(&self.vercel));
        proof {
            assert(members_view(members@) =~= ledger_json(self@)->Object_0);
            lemma_ledger_is_plain(self@);
        }
        let document: String = encode(&object_of(members));
        hex_digest(document.as_str().as_bytes())
    }

    fn validate_header(&self) -> (r: Result<(), LedgerError>)
        ensures
            match header_error(self@) {
                Some(e) => r matches Err(f) && f@ == e,
                None => r is Ok,
            },
    {
        if self.schema_version != INTEGRATION_LEDGER_SCHEMA_VERSION {
            return Err(LedgerError::UnsupportedSchemaVersion);
        }
        if !is_sha256(self.configuration_fingerprint.as_str()) {
            return Err(LedgerError::InvalidConfigurationFingerprint);
        }
        if !is_sha256(self.state_hash.as_str()) {
            return Err(LedgerError::InvalidStateHash);
        }
        if !is_sha256(self.manifest_hash.as_str()) {
            return Err(LedgerError::InvalidManifestHash);
        }
        if is_blank(self.local_generation.as_str()) {
            return Err(LedgerError::MissingGeneration);
        }
        Ok(())
    }

    fn validate_storage(&self) -> (r: Result<(), LedgerError>)
        ensures
            is_listed(self@.r2_inventory),
            match first_r2_error(ascending_entries(self@.r2_inventory)) {
                Some(e) => r matches Err(f) && f@ == e,
                None => r is Ok,
            },
    {
        let n: usize = self.r2_inventory.len();
        let ghost s = ascending_entries(self@.r2_inventory);
        let mut i: usize = 0;
        proof {
            assert(s.skip(0) =~= s);
        }
        while i < n
            invariant
                i <= n,
                is_listed(self.r2_inventory@),
                s == ascending_entries(self.r2_inventory@),
                n == s.len(),
                first_r2_error(s) == first_r2_error(s.skip(i as int)),
            decreases n - i,
        {
            proof {
                assert(s.skip(i as int)[0] == s[i as int]);
                assert(s.skip(i as int).drop_first() =~= s.skip(i as int + 1));
            }
            if !portable_path(self.r2_inventory.key_at(i).as_str()) {
                return Err(LedgerError::InvalidStorageKey);
            }
            if !is_sha256(self.r2_inventory.value_at(i).sha256.as_str()) {
                return Err(LedgerError::InvalidStorageDigest);
            }
            i = i + 1;
        }
        Ok(())
    }

    fn validate_repository(&self) -> (r: Result<(), LedgerError>)
        ensures
            is_listed(self@.github_inventory),
            match first_github_error(ascending_entries(self@.github_inventory)) {
                Some(e) => r matches Err(f) && f@ == e,
                None => r is Ok,
            },
    {
        let n: usize = self.github_inventory.len();
        let ghost s = ascending_entries(self@.github_inventory);
        let mut i: usize = 0;
        proof {
            assert(s.skip(0) =~= s);
        }
        while i < n
            invariant
                i <= n,
                is_listed(self.github_inventory@),
                s == ascending_entries(self.github_inventory@),
                n == s.len(),
                first_github_error(s) == first_github_error(s.skip(i as int)),
            decreases n - i,
        {
            proof {
                assert(s.skip(i as int)[0] == s[i as int]);
                assert(s.skip(i as int).drop_first() =~= s.skip(i as int + 1));
            }
            if !portable_path(self.github_inventory.key_at(i).as_str()) {
                return Err(LedgerError::InvalidRepositoryPath);
            }
            if !is_sha256(self.github_inventory.value_at(i).sha256.as_str()) {
                return Err(LedgerError::InvalidRepositoryDigest);
            }
            if is_blank(self.github_inventory.value_at(i).revision.as_str()) {
                return Err(LedgerError::MissingRevision);
            }
            i = i + 1;
        }
        Ok(())
    }

    fn validate_hosting(&self) -> (r: Result<(), LedgerError>)
        ensures
            match vercel_error(self@.vercel) {
                Some(e) => r matches Err(f) && f@ == e,
                None => r is Ok,
            },
    {
        match &self.vercel {
            None => Ok(()),
            Some(p) => {
                if !is_sha256(p.bundle_fingerprint.as_str()) {
                    return Err(LedgerError::InvalidBundleFingerprint);
                }
                if p.status == OperationState::Confirmed && (missing(&p.deployment_id) || missing(
                    &p.url,
                )) {
                    return Err(LedgerError::IncompleteDeployment);
                }
                Ok(())
            },
        }
    }

    /// Checks every field and entry, and the digest.
    pub fn validate(&self) -> (r: Result<(), LedgerError>)
        ensures
            r is Ok <==> ledger_valid(self@),
            match ledger_error(self@) {
                Some(e) => r matches Err(f) && f@ == e,
                None => r is Ok,
            },
            r is Ok ==> reads_back(ledger_json(self@)),
    {
        let header: Result<(), LedgerError> = self.validate_header();
        let storage: Result<(), LedgerError> = self.validate_storage();
        let repository: Result<(), LedgerError> = self.validate_repository();
        let hosting: Result<(), LedgerError> = self.validate_hosting();
        proof {
            law_valid_iff_no_error(self@);
        }
        if header.is_err() {
            return header;
        }
        if storage.is_err() {
            return storage;
        }
        if repository.is_err() {
            return repository;
        }
        if hosting.is_err() {
            return hosting;
        }
        let digest: String = self.compute_record_sha256();
        if !same_text(self.record_sha256.as_str(), digest.as_str()) {
            return Err(LedgerError::DigestMismatch);
        }
        Ok(())
    }

    /// Recomputes the digest, then checks the whole ledger.
    fn refresh_integrity(&mut self) -> (r: Result<(), LedgerError>)
        ensures
            final(self)@ == resealed(old(self)@),
            match ledger_error(resealed(old(self)@)) {
                Some(e) => r matches Err(f) && f@ == e,
                None => r is Ok,
            },
    {
        self.record_sha256 = self.compute_record_sha256();
        self.validate()
    }

    /// Takes a changed copy where it is valid.
    fn take(&mut self, changed: IntegrationLedger) -> (r: Result<(), LedgerError>)
        ensures
            change_outcome(old(self)@, resealed(changed@), final(self)@, r),
    {
        let mut next: IntegrationLedger = changed;
        let outcome: Result<(), LedgerError> = next.refresh_integrity();
        if outcome.is_ok() {
            *self = next;
        }
        outcome
    }

    /// A ledger of a publication of which nothing is known remotely.
    pub fn new(
        configuration_fingerprint: String,
        local_generation: String,
        state_hash: String,
        manifest_hash: String,
    ) -> (r: Result<IntegrationLedger, LedgerError>)
        ensures
            ({
                let v = new_ledger(
                    configuration_fingerprint@,
                    local_generation@,
                    state_hash@,
                    manifest_hash@,
                );
                match (header_error(v), r) {
                    (Some(e), Err(f)) => e == f@,
                    (None, Ok(ledger)) => ledger@ == v && ledger_valid(v),
                    _ => false,
                }
            }),
    {
        let ghost v = new_ledger(
            configuration_fingerprint@,
            local_generation@,
            state_hash@,
            manifest_hash@,
        );
        let mut ledger: IntegrationLedger = IntegrationLedger {
            schema_version: INTEGRATION_LEDGER_SCHEMA_VERSION,
            configuration_fingerprint,
            local_generation,
            state_hash,
            manifest_hash,
            r2_inventory: Inventory::new(),
            github_inventory: Inventory::new(),
            vercel: None,
            record_sha256: String::new(),
        };
        let outcome: Result<(), LedgerError> = ledger.refresh_integrity();
        proof {
            assert(ledger@ == v);
            lemma_empty_listed::<R2EntryView>();
            lemma_empty_listed::<GitHubEntryView>();
            law_valid_iff_no_error(v);
        }
        match outcome {
            Ok(()) => Ok(ledger),
            Err(e) => Err(e),
        }
    }

    /// Records an object under its key.
    pub fn record_r2_object(
        &mut self,
        key: &ObjectKey,
        object: &StorageObject,
        status: OperationState,
    ) -> (r: Result<(), LedgerError>)
        ensures
            object.key@ != key@ ==> (r matches Err(f) && f@
                == LedgerErrorView::KeyMismatch && final(self)@ == old(self)@),
            object.key@ == key@ ==> change_outcome(
                old(self)@,
                with_r2(old(self)@, key@, r2_entry_of(object@, status)),
                final(self)@,
                r,
            ),
    {
        if !same_text(object.key.as_str(), key.as_str()) {
            return Err(LedgerError::KeyMismatch);
        }
        let entry: R2InventoryEntry = R2InventoryEntry {
            sha256: object.sha256.clone(),
            size_bytes: object.size_bytes,
            content_type: copy_option(&object.content_type),
            status,
        };
        let mut next: IntegrationLedger = self.duplicate();
        next.r2_inventory.insert(key.as_str().to_owned(), entry);
        self.take(next)
    }

    /// Removes an R2 inventory entry after a confirmed remote deletion.
    ///
    /// The absence of a key means the object is no longer known to exist; no
    /// tombstone is kept. Removing a key that is not recorded is an error so
    /// callers cannot silently lose track of remote state.
    pub fn remove_r2_object(&mut self, key: &ObjectKey) -> (r: Result<(), LedgerError>)
        ensures
            !old(self)@.r2_inventory.dom().contains(key@) ==> (r matches Err(f) && f@
                == LedgerErrorView::UnrecordedStorageKey(key@) && final(self)@ == old(self)@),
            old(self)@.r2_inventory.dom().contains(key@) ==> change_outcome(
                old(self)@,
                without_r2(old(self)@, key@),
                final(self)@,
                r,
            ),
    {
        if !self.r2_inventory.contains_key(key.as_str()) {
            return Err(LedgerError::UnrecordedStorageKey(key.as_str().to_owned()));
        }
        let mut next: IntegrationLedger = self.duplicate();
        next.r2_inventory.remove(key.as_str());
        self.take(next)
    }

    /// Records a repository file under its path.
    pub fn record_github_file(
        &mut self,
        path: &RepositoryPath,
        sha256: String,
        revision: String,
        status: OperationState,
    ) -> (r: Result<(), LedgerError>)
        ensures
            change_outcome(
                old(self)@,
                with_github(
                    old(self)@,
                    path@,
                    (GitHubEntryView { sha256: sha256@, revision: revision@, status }),
                ),
                final(self)@,
                r,
            ),
    {
        let mut next: IntegrationLedger = self.duplicate();
        next.github_inventory.insert(
            path.as_str().to_owned(),
            GitHubInventoryEntry { sha256, revision, status },
        );
        self.take(next)
    }

    /// Removes a GitHub inventory entry after a confirmed remote deletion.
    ///
    /// The absence of a path means the file is no longer known to exist; no
    /// tombstone is kept. Removing a path that is not recorded is an error so
    /// callers cannot silently lose track of remote state.
    pub fn remove_github_file(&mut self, path: &RepositoryPath) -> (r: Result<(), LedgerError>)
        ensures
            !old(self)@.github_inventory.dom().contains(path@) ==> (r matches Err(f) && f@
                == LedgerErrorView::UnrecordedRepositoryPath(path@) && final(self)@ == old(self)@),
            old(self)@.github_inventory.dom().contains(path@) ==> change_outcome(
                old(self)@,
                without_github(old(self)@, path@),
                final(self)@,
                r,
            ),
    {
        if !self.github_inventory.contains_key(path.as_str()) {
            return Err(LedgerError::UnrecordedRepositoryPath(path.as_str().to_owned()));
        }
        let mut next: IntegrationLedger = self.duplicate();
        next.github_inventory.remove(path.as_str());
        self.take(next)
    }

    /// Records the state of the hosted deployment.
    pub fn record_vercel(
        &mut self,
        bundle_fingerprint: String,
        status: OperationState,
        deployment_id: Option<String>,
        url: Option<String>,
    ) -> (r: Result<(), LedgerError>)
        ensures
            change_outcome(
                old(self)@,
                with_vercel(
                    old(self)@,
                    Some(
                        VercelView {
                            bundle_fingerprint: bundle_fingerprint@,
                            status,
                            deployment_id: option_text(deployment_id),
                            url: option_text(url),
                        },
                    ),
                ),
                final(self)@,
                r,
            ),
    {
        let mut next: IntegrationLedger = self.duplicate();
        next.vercel = Some(VercelPublication { bundle_fingerprint, status, deployment_id, url });
        self.take(next)
    }

    /// Removes the Vercel publication entry when a hosting operation was
    /// provably never published and no previous entry existed.
    ///
    /// The absence of the entry means no deployment is known; removing an
    /// absent entry is an error so callers cannot silently lose track of
    /// remote state.
    pub fn remove_vercel(&mut self) -> (r: Result<(), LedgerError>)
        ensures
            old(self)@.vercel is None ==> (r matches Err(f) && f@
                == LedgerErrorView::UnrecordedDeployment && final(self)@ == old(self)@),
            old(self)@.vercel is Some ==> change_outcome(
                old(self)@,
                with_vercel(old(self)@, None),
                final(self)@,
                r,
            ),
    {
        if self.vercel.is_none() {
            return Err(LedgerError::UnrecordedDeployment);
        }
        let mut next: IntegrationLedger = self.duplicate();
        next.vercel = None;
        self.take(next)
    }

    /// Adopts the identity of a new safe publication in the ledger header.
    ///
    /// Only the header fields change; the R2/GitHub inventories and the
    /// Vercel entry are preserved exactly, because they describe remote
    /// reality by content and remain valid across generations. Integrity is
    /// recomputed, so the ledger remains writable and loadable.
    ///
    /// Callers must adopt a publication only when the ledger holds no
    /// `Pending`/`Unknown` entry of a previous, unfinished publication:
    /// adopting a header must never recontextualize an ambiguous state.
    pub fn adopt_publication(
        &mut self,
        configuration_fingerprint: String,
        local_generation: String,
        state_hash: String,
        manifest_hash: String,
    ) -> (r: Result<(), LedgerError>)
        ensures
            change_outcome(
                old(self)@,
                with_header(
                    old(self)@,
                    configuration_fingerprint@,
                    local_generation@,
                    state_hash@,
                    manifest_hash@,
                ),
                final(self)@,
                r,
            ),
    {
        let mut next: IntegrationLedger = self.duplicate();
        next.configuration_fingerprint = configuration_fingerprint;
        next.local_generation = local_generation;
        next.state_hash = state_hash;
        next.manifest_hash = manifest_hash;
        self.take(next)
    }
}

/// A ledger of a publication of which nothing is known remotely.
pub open spec fn new_ledger(
    configuration_fingerprint: Seq<char>,
    local_generation: Seq<char>,
    state_hash: Seq<char>,
    manifest_hash: Seq<char>,
) -> LedgerView {
    resealed(
        LedgerView {
            schema_version: INTEGRATION_LEDGER_SCHEMA_VERSION,
            configuration_fingerprint,
            local_generation,
            state_hash,
            manifest_hash,
            r2_inventory: Map::empty(),
            github_inventory: Map::empty(),
            vercel: None,
            record_sha256: Seq::empty(),
        },
    )
}

fn missing(t: &Option<String>) -> (r: bool)
    ensures
        r == is_missing(option_text(*t)),
{
    match t {
        Some(s) => is_blank(s.as_str()),
        None => true,
    }
}

// ---------------------------------------------------------------------------
// Laws
// ---------------------------------------------------------------------------
/// Resealing writes the digest of the content and changes nothing else, so a
/// second resealing changes nothing.
pub proof fn law_reseal_idempotent(v: LedgerView)
    ensures
        resealed(resealed(v)) == resealed(v),
        resealed(v).record_sha256 == ledger_digest(resealed(v)),
{
    assert(ledger_json(resealed(v)) == ledger_json(v));
}

/// Recording a well-formed object in a valid ledger is accepted.
pub proof fn law_recorded_object_accepted(v: LedgerView, key: Seq<char>, e: R2EntryView)
    requires
        ledger_valid(v),
        r2_entry_error(key, e) is None,
    ensures
        ledger_error(with_r2(v, key, e)) is None,
        ledger_valid(with_r2(v, key, e)),
{
    let next = with_r2(v, key, e);
    lemma_listed(v.r2_inventory, key, e);
    law_reseal_idempotent(LedgerView { r2_inventory: v.r2_inventory.insert(key, e), ..v });
    law_valid_iff_no_error(next);
}

/// Removing an object from a valid ledger is accepted.
pub proof fn law_removed_object_accepted(v: LedgerView, key: Seq<char>)
    requires
        ledger_valid(v),
    ensures
        ledger_error(without_r2(v, key)) is None,
        ledger_valid(without_r2(v, key)),
{
    let next = without_r2(v, key);
    lemma_listed(v.r2_inventory, key, arbitrary());
    law_reseal_idempotent(LedgerView { r2_inventory: v.r2_inventory.remove(key), ..v });
    law_valid_iff_no_error(next);
}

/// Recording a well-formed repository file in a valid ledger is accepted.
pub proof fn law_recorded_file_accepted(v: LedgerView, path: Seq<char>, e: GitHubEntryView)
    requires
        ledger_valid(v),
        github_entry_error(path, e) is None,
    ensures
        ledger_error(with_github(v, path, e)) is None,
        ledger_valid(with_github(v, path, e)),
{
    let next = with_github(v, path, e);
    lemma_listed(v.github_inventory, path, e);
    law_reseal_idempotent(LedgerView { github_inventory: v.github_inventory.insert(path, e), ..v });
    law_valid_iff_no_error(next);
}

/// Removing a repository file from a valid ledger is accepted.
pub proof fn law_removed_file_accepted(v: LedgerView, path: Seq<char>)
    requires
        ledger_valid(v),
    ensures
        ledger_error(without_github(v, path)) is None,
        ledger_valid(without_github(v, path)),
{
    let next = without_github(v, path);
    lemma_listed(v.github_inventory, path, arbitrary());
    law_reseal_idempotent(LedgerView { github_inventory: v.github_inventory.remove(path), ..v });
    law_valid_iff_no_error(next);
}

/// Recording a well-formed hosting entry in a valid ledger, or removing it, is
/// accepted.
pub proof fn law_recorded_hosting_accepted(v: LedgerView, p: Option<VercelView>)
    requires
        ledger_valid(v),
        vercel_error(p) is None,
    ensures
        ledger_error(with_vercel(v, p)) is None,
        ledger_valid(with_vercel(v, p)),
{
    law_reseal_idempotent(LedgerView { vercel: p, ..v });
    law_valid_iff_no_error(with_vercel(v, p));
}

/// Adopting a publication keeps both inventories and the hosting entry, and a
/// valid ledger accepts every well-formed identity.
pub proof fn law_adoption_preserves_inventories(
    v: LedgerView,
    configuration_fingerprint: Seq<char>,
    local_generation: Seq<char>,
    state_hash: Seq<char>,
    manifest_hash: Seq<char>,
)
    requires
        ledger_valid(v),
        is_sha256_text(configuration_fingerprint),
        is_sha256_text(state_hash),
        is_sha256_text(manifest_hash),
        !is_blank_text(local_generation),
    ensures
        ({
            let next = with_header(
                v,
                configuration_fingerprint,
                local_generation,
                state_hash,
                manifest_hash,
            );
            &&& ledger_error(next) is None
            &&& ledger_valid(next)
            &&& next.r2_inventory == v.r2_inventory
            &&& next.github_inventory == v.github_inventory
            &&& next.vercel == v.vercel
        }),
{
    law_reseal_idempotent(
        LedgerView { configuration_fingerprint, local_generation, state_hash, manifest_hash, ..v },
    );
    law_valid_iff_no_error(
        with_header(v, configuration_fingerprint, local_generation, state_hash, manifest_hash),
    );
}

/// Recording an object and then removing it gives back a ledger that did not
/// hold its key.
pub proof fn law_record_then_remove_object(v: LedgerView, key: Seq<char>, e: R2EntryView)
    requires
        ledger_valid(v),
        !v.r2_inventory.dom().contains(key),
    ensures
        without_r2(with_r2(v, key, e), key) == v,
{
    assert(v.r2_inventory.insert(key, e).remove(key) =~= v.r2_inventory);
    assert(without_r2(with_r2(v, key, e), key) == resealed(v));
}

/// Recording an object over another and then the first again gives back the
/// ledger.
pub proof fn law_rerecord_object(v: LedgerView, key: Seq<char>, e: R2EntryView)
    requires
        ledger_valid(v),
        v.r2_inventory.dom().contains(key),
    ensures
        with_r2(with_r2(v, key, e), key, v.r2_inventory[key]) == v,
{
    assert(v.r2_inventory.insert(key, e).insert(key, v.r2_inventory[key]) =~= v.r2_inventory);
    assert(with_r2(with_r2(v, key, e), key, v.r2_inventory[key]) == resealed(v));
}

/// Recording a file and then removing it gives back a ledger that did not hold
/// its path.
pub proof fn law_record_then_remove_file(v: LedgerView, path: Seq<char>, e: GitHubEntryView)
    requires
        ledger_valid(v),
        !v.github_inventory.dom().contains(path),
    ensures
        without_github(with_github(v, path, e), path) == v,
{
    assert(v.github_inventory.insert(path, e).remove(path) =~= v.github_inventory);
    assert(without_github(with_github(v, path, e), path) == resealed(v));
}

/// Recording a hosting entry and then the one before gives back the ledger.
pub proof fn law_rerecord_hosting(v: LedgerView, p: Option<VercelView>)
    requires
        ledger_valid(v),
    ensures
        with_vercel(with_vercel(v, p), v.vercel) == v,
{
    assert(with_vercel(with_vercel(v, p), v.vercel) == resealed(v));
}

} // verus!
