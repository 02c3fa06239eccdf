//! What the remote services report: errors, and the values they return.

use crate::paths::{ObjectKey, RepositoryPath};
use crate::text::option_text;
use vstd::prelude::*;

verus! {

/// How a provider call, or the making of a key or path, failed.
#[derive(Debug, PartialEq, Eq)]
pub enum ProviderError {
    Io(String),
    InvalidKey(String),
    InvalidPath(String),
    AuthenticationRequired,
    AuthenticationFailed,
    PermissionDenied,
    NotFound,
    Network,
    Conflict,
    AlreadyExists,
    Integrity,
    Unsupported,
    Other,
}

/// The mathematical form of a provider error.
pub enum ProviderErrorText {
    Io(Seq<char>),
    InvalidKey(Seq<char>),
    InvalidPath(Seq<char>),
    AuthenticationRequired,
    AuthenticationFailed,
    PermissionDenied,
    NotFound,
    Network,
    Conflict,
    AlreadyExists,
    Integrity,
    Unsupported,
    Other,
}

impl View for ProviderError {
    type V = ProviderErrorText;

    open spec fn view(&self) -> ProviderErrorText {
        match *self {
            ProviderError::Io(s) => ProviderErrorText::Io(s@),
            ProviderError::InvalidKey(s) => ProviderErrorText::InvalidKey(s@),
            ProviderError::InvalidPath(s) => ProviderErrorText::InvalidPath(s@),
            ProviderError::AuthenticationRequired => ProviderErrorText::AuthenticationRequired,
            ProviderError::AuthenticationFailed => ProviderErrorText::AuthenticationFailed,
            ProviderError::PermissionDenied => ProviderErrorText::PermissionDenied,
            ProviderError::NotFound => ProviderErrorText::NotFound,
            ProviderError::Network => ProviderErrorText::Network,
            ProviderError::Conflict => ProviderErrorText::Conflict,
            ProviderError::AlreadyExists => ProviderErrorText::AlreadyExists,
            ProviderError::Integrity => ProviderErrorText::Integrity,
            ProviderError::Unsupported => ProviderErrorText::Unsupported,
            ProviderError::Other => ProviderErrorText::Other,
        }
    }
}

/// A failed provider call: the error and its description.
#[derive(Debug, PartialEq, Eq)]
pub struct ProviderFailure {
    pub error: ProviderError,
    pub description: String,
}

/// The mathematical form of a failed call.
pub struct FailureView {
    pub error: ProviderErrorText,
    pub description: Seq<char>,
}

impl View for ProviderFailure {
    type V = FailureView;

    open spec fn view(&self) -> FailureView {
        FailureView { error: self.error@, description: self.description@ }
    }
}

/// Whether a failed call provably changed nothing remotely.
#[derive(Debug, Clone, Copy, PartialEq, Eq, Structural)]
pub enum FailureKind {
    NoEffect,
    Ambiguous,
}

/// An object as the storage provider describes it.
#[derive(Debug, PartialEq, Eq)]
pub struct StorageObject {
    pub key: ObjectKey,
    pub size_bytes: u64,
    pub sha256: String,
    pub content_type: Option<String>,
}

/// The mathematical form of a stored object.
pub struct StorageObjectView {
    pub key: Seq<char>,
    pub size_bytes: u64,
    pub sha256: Seq<char>,
    pub content_type: Option<Seq<char>>,
}

impl View for StorageObject {
    type V = StorageObjectView;

    open spec fn view(&self) -> StorageObjectView {
        StorageObjectView {
            key: self.key@,
            size_bytes: self.size_bytes,
            sha256: self.sha256@,
            content_type: option_text(self.content_type),
        }
    }
}

/// A written file as the repository provider describes it.
#[derive(Debug, PartialEq, Eq)]
pub struct FileMetadata {
    pub path: RepositoryPath,
    pub size_bytes: u64,
    pub sha256: String,
}

/// The mathematical form of a written file.
pub struct FileMetadataView {
    pub path: Seq<char>,
    pub size_bytes: u64,
    pub sha256: Seq<char>,
}

impl View for FileMetadata {
    type V = FileMetadataView;

    open spec fn view(&self) -> FileMetadataView {
        FileMetadataView {
            path: self.path@,
            size_bytes: self.size_bytes,
            sha256: self.sha256@,
        }
    }
}

/// A commit as the repository provider describes it.
#[derive(Debug, PartialEq, Eq)]
pub struct CommitInfo {
    pub revision: String,
    pub message: String,
    pub changed_paths: Vec<RepositoryPath>,
}

/// A deployment as the hosting provider describes it.
#[derive(Debug, PartialEq, Eq)]
pub struct DeploymentInfo {
    pub id: String,
    pub url: String,
}

/// The mathematical form of a deployment.
pub struct DeploymentView {
    pub id: Seq<char>,
    pub url: Seq<char>,
}

impl View for DeploymentInfo {
    type V = DeploymentView;

    open spec fn view(&self) -> DeploymentView {
        DeploymentView { id: self.id@, url: self.url@ }
    }
}

} // verus!
