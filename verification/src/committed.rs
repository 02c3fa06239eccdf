//! Binding the assets of a committed local publication to what is desired
//! remotely.

use crate::bundle::{ApplicationBundle, BundleView};
use crate::config::{configuration_fingerprint_text, ProjectPublicationConfig};
use crate::digest::{hex_digest, hex_sha256};
use crate::file_source::{FileObservation, FileObservationView};
use crate::gallery::{as_items, as_text, photos_of, SourcePhoto};
use crate::journal::{journal_error, JournalError, JournalPhase, JournalRecord, JournalView};
use crate::json::{field, get, items_view, json_document, Json, JsonView};
use crate::paths::{
    is_portable_path, ObjectKey, PublicationPath, PublicationPathError, RepositoryPath,
};
use crate::planner::{
    committed_pair_error, desired_of, local_error, well_keyed, DesiredFileView, DesiredObjectView,
    DesiredPublication, DesiredRepositoryFile, DesiredStorageObject, DesiredView, LocalPublication,
    LocalView, PlannerError, RepositoryFileSource, SourceView,
};
use crate::recovery::GalleryFile;
use crate::text::{
    after_last, before_last, has_dot_dot, has_prefix, is_sha256, is_sha256_text, joined3,
    option_text, same_text, split_at_last, trim_end_slashes, without_trailing_slashes,
};
use vstd::prelude::*;

verus! {

/// Why a committed publication cannot be bound to remote work.
#[derive(Debug, Clone, Copy, PartialEq, Eq, Structural)]
pub enum CommittedError {
    /// The journal of the publication is not valid.
    InvalidJournal(JournalError),
    NotCommitted,
    DifferentGeneration,
    GalleryMismatch,
    GalleryNotJson,
    PhotosNotAnArray,
    StateMismatch,
    StateUnreadable,
    MissingPreview,
    MissingUrl,
    InvalidPath(PublicationPathError),
    NoExtension,
    NotJpeg,
    InvalidDigestName,
    UnknownSource,
    InvalidKey,
    InvalidRepositoryPath,
    MissingFile,
    NotRegular,
    Unresolvable,
    OutsideRoot,
    Unopened,
    Unhashed,
    ChangedWhileRead,
    DigestMismatch,
    SizeMismatch,
    Planner(PlannerError),
}

/// What a committed publication left in the output directory.
#[derive(Debug, PartialEq, Eq)]
pub struct CommittedOutput {
    pub journal: JournalRecord,
    pub gallery: GalleryFile,
    pub state: Vec<u8>,
    /// The photos of the state, in its order; none where the state file holds
    /// no publisher state.
    pub sources: Option<Vec<SourcePhoto>>,
}

/// The mathematical form of a committed output.
pub struct CommittedView {
    pub journal: JournalView,
    pub gallery: Seq<u8>,
    pub state: Seq<u8>,
    pub sources: Option<Seq<SourcePhoto>>,
}

impl View for CommittedOutput {
    type V = CommittedView;

    open spec fn view(&self) -> CommittedView {
        CommittedView {
            journal: self.journal@,
            gallery: self.gallery@,
            state: self.state@,
            sources: match self.sources {
                Some(photos) => Some(photos@),
                None => None,
            },
        }
    }
}

/// What is wrong with a committed output as that of a local publication.
pub open spec fn output_error(v: CommittedView, local: LocalView) -> Option<CommittedError> {
    if journal_error(v.journal) is Some {
        Some(CommittedError::InvalidJournal(journal_error(v.journal)->0))
    } else if v.journal.phase != JournalPhase::Committed {
        Some(CommittedError::NotCommitted)
    } else if v.journal.generation != local.generation || v.journal.gallery_sha256
        != local.manifest_hash || v.journal.state_sha256 != local.state_hash {
        Some(CommittedError::DifferentGeneration)
    } else if hex_sha256(v.gallery) != local.manifest_hash {
        Some(CommittedError::GalleryMismatch)
    } else if json_document(v.gallery) is None {
        Some(CommittedError::GalleryNotJson)
    } else if as_items(field(json_document(v.gallery)->0, "photos"@)) is None {
        Some(CommittedError::PhotosNotAnArray)
    } else if hex_sha256(v.state) != local.state_hash {
        Some(CommittedError::StateMismatch)
    } else if v.sources is None {
        Some(CommittedError::StateUnreadable)
    } else {
        None
    }
}

/// The photos of a committed gallery.
pub open spec fn committed_photos(v: CommittedView) -> Seq<JsonView> {
    as_items(field(json_document(v.gallery)->0, "photos"@))->0
}

fn check_output<'a>(output: &'a CommittedOutput, local: &LocalPublication) -> (r: Result<
    (&'a Vec<Json>, &'a Vec<SourcePhoto>),
    CommittedError,
>)
    ensures
        match (output_error(output@, local@), r) {
            (Some(e), Err(f)) => e == f,
            (None, Ok((photos, sources))) => items_view(photos@) == committed_photos(output@)
                && output@.sources == Some(sources@),
            _ => false,
        },
{
    match output.journal.validate() {
        Ok(()) => {},
        Err(e) => {
            return Err(CommittedError::InvalidJournal(e));
        },
    }
    if output.journal.phase != JournalPhase::Committed {
        return Err(CommittedError::NotCommitted);
    }
    if !same_text(output.journal.generation.as_str(), local.generation.as_str()) || !same_text(
        output.journal.gallery_sha256.as_str(),
        local.manifest_hash.as_str(),
    ) || !same_text(output.journal.state_sha256.as_str(), local.state_hash.as_str()) {
        return Err(CommittedError::DifferentGeneration);
    }
    let gallery_hash: String = hex_digest(output.gallery.bytes().as_slice());
    if !same_text(gallery_hash.as_str(), local.manifest_hash.as_str()) {
        return Err(CommittedError::GalleryMismatch);
    }
    let document: &Json = match output.gallery.document() {
        Some(document) => document,
        None => {
            return Err(CommittedError::GalleryNotJson);
        },
    };
    let photos: &Vec<Json> = match photos_of(document) {
        Some(photos) => photos,
        None => {
            return Err(CommittedError::PhotosNotAnArray);
        },
    };
    let state_hash: String = hex_digest(output.state.as_slice());
    if !same_text(state_hash.as_str(), local.state_hash.as_str()) {
        return Err(CommittedError::StateMismatch);
    }
    match &output.sources {
        Some(sources) => Ok((photos, sources)),
        None => Err(CommittedError::StateUnreadable),
    }
}

// ---------------------------------------------------------------------------
// Names
// ---------------------------------------------------------------------------
/// The configured prefix without the slashes at its end; empty where there is none.
pub open spec fn effective_prefix(prefix: Option<Seq<char>>) -> Seq<char> {
    match prefix {
        Some(p) => without_trailing_slashes(p),
        None => Seq::empty(),
    }
}

/// A publication-relative URL below a prefix, with exactly one slash between.
pub open spec fn prefixed(prefix: Seq<char>, url: Seq<char>) -> Seq<char> {
    if prefix.len() == 0 {
        url
    } else {
        prefix + "/"@ + url
    }
}

/// The configured prefix without the slashes at its end.
pub fn trimmed_prefix(prefix: &Option<String>) -> (r: String)
    ensures
        r@ == effective_prefix(option_text(*prefix)),
{
    match prefix {
        Some(p) => trim_end_slashes(p.as_str()),
        None => String::new(),
    }
}

fn below_prefix(prefix: &str, url: &str) -> (r: String)
    ensures
        r@ == prefixed(prefix@, url@),
{
    if prefix.is_empty() {
        url.to_owned()
    } else {
        joined3(prefix, "/", url)
    }
}

/// What is wrong with a text as a publication path.
pub open spec fn path_error(url: Seq<char>) -> Option<PublicationPathError> {
    if !is_portable_path(url) {
        Some(PublicationPathError::NotPortable)
    } else if has_dot_dot(url) {
        Some(PublicationPathError::DotDot)
    } else if !has_prefix(url, "photos/"@) {
        Some(PublicationPathError::OutsidePhotos)
    } else {
        None
    }
}

/// The part of a file name before its extension.
pub open spec fn stem_of(url: Seq<char>) -> Option<Seq<char>> {
    before_last(after_last(url, '/'), '.')
}

/// The extension of a file name.
pub open spec fn extension_of(url: Seq<char>) -> Seq<char> {
    after_last(after_last(url, '/'), '.')
}

/// Whether some source photo has the digest.
pub open spec fn has_source(sources: Seq<SourcePhoto>, sha256: Seq<char>) -> bool {
    exists|i: int| 0 <= i < sources.len() && (#[trigger] sources[i]).sha256@ == sha256
}

/// The size of the first source photo with the digest.
pub open spec fn source_bytes(sources: Seq<SourcePhoto>, sha256: Seq<char>) -> Option<u64>
    decreases sources.len(),
{
    if sources.len() == 0 {
        None
    } else if sources[0].sha256@ == sha256 {
        Some(sources[0].bytes)
    } else {
        source_bytes(sources.drop_first(), sha256)
    }
}

/// A source photo has a size exactly where there is one with the digest.
pub proof fn lemma_source_bytes(sources: Seq<SourcePhoto>, sha256: Seq<char>)
    ensures
        source_bytes(sources, sha256) is Some <==> has_source(sources, sha256),
    decreases sources.len(),
{
    if sources.len() > 0 {
        let rest = sources.drop_first();
        lemma_source_bytes(rest, sha256);
        if sources[0].sha256@ != sha256 {
            if has_source(sources, sha256) {
                let i = choose|i: int|
                    0 <= i < sources.len() && (#[trigger] sources[i]).sha256@ == sha256;
                assert(rest[i - 1].sha256@ == sha256);
            }
            if has_source(rest, sha256) {
                let i = choose|i: int| 0 <= i < rest.len() && (#[trigger] rest[i]).sha256@ == sha256;
                assert(sources[i + 1].sha256@ == sha256);
            }
        }
    }
}

fn find_source(sources: &Vec<SourcePhoto>, sha256: &str) -> (r: Option<u64>)
    ensures
        r == source_bytes(sources@, sha256@),
        r is Some <==> has_source(sources@, sha256@),
{
    let mut i: usize = 0;
    proof {
        lemma_source_bytes(sources@, sha256@);
        assert(sources@.skip(0) =~= sources@);
    }
    while i < sources.len()
        invariant
            i <= sources@.len(),
            source_bytes(sources@, sha256@) == source_bytes(sources@.skip(i as int), sha256@),
            source_bytes(sources@, sha256@) is Some <==> has_source(sources@, sha256@),
        decreases sources@.len() - i,
    {
        proof {
            assert(sources@.skip(i as int)[0] == sources@[i as int]);
            assert(sources@.skip(i as int).drop_first() =~= sources@.skip(i as int + 1));
        }
        if same_text(sources[i].sha256.as_str(), sha256) {
            return Some(sources[i].bytes);
        }
        i = i + 1;
    }
    None
}

// ---------------------------------------------------------------------------
// High-resolution downloads
// ---------------------------------------------------------------------------
/// Where the download of a photo is, and under which key it is stored.
pub struct DownloadView {
    pub url: Seq<char>,
    pub stem: Seq<char>,
    pub key: Seq<char>,
}

/// The download that a photo names. A photo may have none. Its file is named
/// after its own digest.
pub open spec fn download_of(photo: JsonView, prefix: Seq<char>) -> Result<
    Option<DownloadView>,
    CommittedError,
> {
    match field(photo, "download"@) {
        None => Ok(None),
        Some(asset) => match as_text(field(asset, "url"@)) {
            None => Err(CommittedError::MissingUrl),
            Some(url) => if path_error(url) is Some {
                Err(CommittedError::InvalidPath(path_error(url)->0))
            } else {
                match stem_of(url) {
                    None => Err(CommittedError::NoExtension),
                    Some(stem) => if !is_sha256_text(stem) {
                        Err(CommittedError::InvalidDigestName)
                    } else if !is_portable_path(prefixed(prefix, url)) {
                        Err(CommittedError::InvalidKey)
                    } else {
                        Ok(Some(DownloadView { url, stem, key: prefixed(prefix, url) }))
                    },
                }
            },
        },
    }
}

/// The download that a photo names.
#[derive(Debug, PartialEq, Eq)]
pub struct DownloadRequest {
    pub source_path: PublicationPath,
    pub stem: String,
    pub key: ObjectKey,
}

/// The download that a photo of the gallery names, and the key under which it
/// is stored.
pub fn download_request(photo: &Json, prefix: &str) -> (r: Result<
    Option<DownloadRequest>,
    CommittedError,
>)
    ensures
        match (download_of(photo@, prefix@), r) {
            (Ok(Some(v)), Ok(Some(request))) => request.source_path@ == v.url && request.stem@
                == v.stem && request.key@ == v.key,
            (Ok(None), Ok(None)) => true,
            (Err(e), Err(f)) => e == f,
            _ => false,
        },
{
    let asset: &Json = match get(photo, "download") {
        Some(asset) => asset,
        None => {
            return Ok(None);
        },
    };
    let url: &String = match get(asset, "url") {
        Some(Json::Text(url)) => url,
        _ => {
            return Err(CommittedError::MissingUrl);
        },
    };
    let source_path: PublicationPath = match PublicationPath::new(url.as_str()) {
        Ok(path) => path,
        Err(e) => {
            return Err(CommittedError::InvalidPath(e));
        },
    };
    let (_, name) = split_at_last(url.as_str(), '/');
    let stem: String = match split_at_last(name.as_str(), '.') {
        (Some(stem), _) => stem,
        (None, _) => {
            return Err(CommittedError::NoExtension);
        },
    };
    if !is_sha256(stem.as_str()) {
        return Err(CommittedError::InvalidDigestName);
    }
    let text: String = below_prefix(prefix, url.as_str());
    match ObjectKey::new(text.as_str()) {
        Ok(key) => Ok(Some(DownloadRequest { source_path, stem, key })),
        Err(_) => Err(CommittedError::InvalidKey),
    }
}

/// Reading an asset: its size and digest, or why it cannot be used.
pub open spec fn read_asset(seen: FileObservationView) -> Result<(u64, Seq<char>), CommittedError> {
    match seen {
        FileObservationView::Missing { .. } => Err(CommittedError::MissingFile),
        FileObservationView::NotRegular => Err(CommittedError::NotRegular),
        FileObservationView::Unresolvable { .. } => Err(CommittedError::Unresolvable),
        FileObservationView::OutsideRoot => Err(CommittedError::OutsideRoot),
        FileObservationView::Unopened { .. } => Err(CommittedError::Unopened),
        FileObservationView::Unhashed { .. } => Err(CommittedError::Unhashed),
        FileObservationView::Read { declared_size, bytes_read, sha256 }
        | FileObservationView::NotRewound { declared_size, bytes_read, sha256, .. } => if bytes_read
            != declared_size {
            Err(CommittedError::ChangedWhileRead)
        } else {
            Ok((declared_size, sha256))
        },
    }
}

fn read_observed(seen: &FileObservation) -> (r: Result<(u64, String), CommittedError>)
    ensures
        match (read_asset(seen@), r) {
            (Ok((size, sha256)), Ok((n, hash))) => n == size && hash@ == sha256,
            (Err(e), Err(f)) => e == f,
            _ => false,
        },
{
    match seen {
        FileObservation::Missing { .. } => Err(CommittedError::MissingFile),
        FileObservation::NotRegular => Err(CommittedError::NotRegular),
        FileObservation::Unresolvable { .. } => Err(CommittedError::Unresolvable),
        FileObservation::OutsideRoot => Err(CommittedError::OutsideRoot),
        FileObservation::Unopened { .. } => Err(CommittedError::Unopened),
        FileObservation::Unhashed { .. } => Err(CommittedError::Unhashed),
        FileObservation::Read { declared_size, bytes_read, sha256 }
        | FileObservation::NotRewound { declared_size, bytes_read, sha256, .. } => {
            if *bytes_read != *declared_size {
                Err(CommittedError::ChangedWhileRead)
            } else {
                Ok((*declared_size, sha256.clone()))
            }
        },
    }
}

/// The storage object for a download: the file has the digest it is named
/// after, and a source photo has that digest and its size.
pub open spec fn download_object(
    download: DownloadView,
    seen: FileObservationView,
    sources: Seq<SourcePhoto>,
) -> Result<DesiredObjectView, CommittedError> {
    match read_asset(seen) {
        Err(e) => Err(e),
        Ok((size, sha256)) => if sha256 != download.stem {
            Err(CommittedError::DigestMismatch)
        } else if !has_source(sources, sha256) {
            Err(CommittedError::UnknownSource)
        } else if source_bytes(sources, sha256) != Some(size) {
            Err(CommittedError::SizeMismatch)
        } else if !is_sha256_text(sha256) {
            Err(CommittedError::Planner(PlannerError::InvalidObjectHash))
        } else {
            Ok(
                DesiredObjectView {
                    key: download.key,
                    source_path: download.url,
                    sha256,
                    size_bytes: size,
                    content_type: Some("image/jpeg"@),
                },
            )
        },
    }
}

/// What was seen of the asset of a photo; nothing where no observation is given.
pub open spec fn observed_at(seen: Seq<FileObservation>, i: int) -> FileObservationView {
    if 0 <= i < seen.len() {
        seen[i]@
    } else {
        FileObservationView::Missing { cause: Seq::empty() }
    }
}

/// The storage object of one photo, where it has a download.
pub open spec fn photo_object(
    photo: JsonView,
    prefix: Seq<char>,
    seen: FileObservationView,
    sources: Seq<SourcePhoto>,
) -> Result<Option<DesiredObjectView>, CommittedError> {
    match download_of(photo, prefix) {
        Err(e) => Err(e),
        Ok(None) => Ok(None),
        Ok(Some(download)) => match download_object(download, seen, sources) {
            Err(e) => Err(e),
            Ok(object) => Ok(Some(object)),
        },
    }
}

/// The storage objects of the photos from a position on, in their order.
pub open spec fn objects_from(
    photos: Seq<JsonView>,
    prefix: Seq<char>,
    seen: Seq<FileObservation>,
    sources: Seq<SourcePhoto>,
    i: int,
) -> Result<Seq<DesiredObjectView>, CommittedError>
    decreases photos.len() - i,
{
    if i >= photos.len() {
        Ok(Seq::empty())
    } else {
        match photo_object(photos[i], prefix, observed_at(seen, i), sources) {
            Err(e) => Err(e),
            Ok(found) => match objects_from(photos, prefix, seen, sources, i + 1) {
                Err(e) => Err(e),
                Ok(rest) => Ok(
                    match found {
                        Some(object) => seq![object] + rest,
                        None => rest,
                    },
                ),
            },
        }
    }
}

/// The storage objects of a list.
pub open spec fn objects_view(s: Seq<DesiredStorageObject>) -> Seq<DesiredObjectView> {
    Seq::new(s.len(), |i: int| s[i]@)
}

/// The storage objects of a committed publication.
pub open spec fn high_resolution_objects(
    prefix: Option<Seq<char>>,
    local: LocalView,
    output: CommittedView,
    seen: Seq<FileObservation>,
) -> Result<Seq<DesiredObjectView>, CommittedError> {
    match output_error(output, local) {
        Some(e) => Err(e),
        None => objects_from(
            committed_photos(output),
            effective_prefix(prefix),
            seen,
            output.sources->0,
            0,
        ),
    }
}

fn observed(seen: &Vec<FileObservation>, i: usize) -> (r: FileObservation)
    ensures
        r@ == observed_at(seen@, i as int),
{
    if i < seen.len() {
        seen[i].copy()
    } else {
        FileObservation::Missing { cause: String::new() }
    }
}

/// The storage object for a download that was looked at.
pub fn bind_download(
    request: DownloadRequest,
    seen: &FileObservation,
    sources: &Vec<SourcePhoto>,
) -> (r: Result<DesiredStorageObject, CommittedError>)
    ensures
        match (
            download_object(
                (DownloadView {
                    url: request.source_path@,
                    stem: request.stem@,
                    key: request.key@,
                }),
                seen@,
                sources@,
            ),
            r,
        ) {
            (Ok(v), Ok(object)) => object@ == v,
            (Err(e), Err(f)) => e == f,
            _ => false,
        },
{
    let (size, sha256) = match read_observed(seen) {
        Ok(found) => found,
        Err(e) => {
            return Err(e);
        },
    };
    if !same_text(sha256.as_str(), request.stem.as_str()) {
        return Err(CommittedError::DigestMismatch);
    }
    match find_source(sources, sha256.as_str()) {
        None => Err(CommittedError::UnknownSource),
        Some(bytes) => {
            if bytes != size {
                return Err(CommittedError::SizeMismatch);
            }
            match DesiredStorageObject::new(
                request.key,
                request.source_path,
                sha256,
                size,
                Some("image/jpeg".to_owned()),
            ) {
                Ok(object) => Ok(object),
                Err(e) => Err(CommittedError::Planner(e)),
            }
        },
    }
}

/// Builds the high-resolution storage bindings of one committed publication.
///
/// Each `gallery.photos[].download` becomes a storage object under
/// `<prefix>/<download.url>` with exactly one slash between; an absent or empty
/// prefix means the URL alone. The file is inside the output directory, its
/// digest matches both its name and a source of the committed state, and its
/// size matches that source. The observations stand in the order of the photos.
pub fn committed_high_resolution_objects(
    configuration: &ProjectPublicationConfig,
    local: &LocalPublication,
    output: &CommittedOutput,
    seen: &Vec<FileObservation>,
) -> (r: Result<Vec<DesiredStorageObject>, CommittedError>)
    ensures
        match (
            high_resolution_objects(
                option_text(configuration.high_resolution_prefix),
                local@,
                output@,
                seen@,
            ),
            r,
        ) {
            (Ok(v), Ok(objects)) => objects_view(objects@) == v,
            (Err(e), Err(f)) => e == f,
            _ => false,
        },
{
    let (photos, sources) = match check_output(output, local) {
        Ok(found) => found,
        Err(e) => {
            return Err(e);
        },
    };
    let prefix: String = trimmed_prefix(&configuration.high_resolution_prefix);
    let ghost all = items_view(photos@);
    let ghost whole = objects_from(all, prefix@, seen@, sources@, 0);
    let mut objects: Vec<DesiredStorageObject> = Vec::new();
    let mut i: usize = 0;
    proof {
        assert(objects_view(objects@) =~= Seq::<DesiredObjectView>::empty());
        if whole is Ok {
            assert(Seq::<DesiredObjectView>::empty() + whole->Ok_0 =~= whole->Ok_0);
        }
    }
    while i < photos.len()
        invariant
            i <= photos@.len(),
            all == items_view(photos@),
            match (objects_from(all, prefix@, seen@, sources@, i as int), whole) {
                (Ok(rest), Ok(v)) => v == objects_view(objects@) + rest,
                (Err(e), Err(f)) => e == f,
                _ => false,
            },
            high_resolution_objects(
                option_text(configuration.high_resolution_prefix),
                local@,
                output@,
                seen@,
            ) == whole,
        decreases photos@.len() - i,
    {
        let ghost before = objects_view(objects@);
        proof {
            assert(all[i as int] == photos@[i as int]@);
        }
        match download_request(&photos[i], prefix.as_str()) {
            Err(e) => {
                return Err(e);
            },
            Ok(None) => {},
            Ok(Some(request)) => {
                let look: FileObservation = observed(seen, i);
                match bind_download(request, &look, sources) {
                    Err(e) => {
                        return Err(e);
                    },
                    Ok(object) => {
                        let ghost v = object@;
                        objects.push(object);
                        proof {
                            assert(objects_view(objects@) =~= before.push(v));
                            let rest = objects_from(all, prefix@, seen@, sources@, i as int + 1);
                            if rest is Ok {
                                assert(before + (seq![v] + rest->Ok_0) =~= before.push(v)
                                    + rest->Ok_0);
                            }
                        }
                    },
                }
            },
        }
        i = i + 1;
    }
    proof {
        assert(objects_view(objects@) + Seq::<DesiredObjectView>::empty() =~= objects_view(
            objects@,
        ));
    }
    Ok(objects)
}

// ---------------------------------------------------------------------------
// Previews
// ---------------------------------------------------------------------------
/// Where the preview of a photo is, and at which path it is published.
pub struct PreviewView {
    pub url: Seq<char>,
    pub path: Seq<char>,
}

/// The preview that a photo names. Its file is a JPEG named after the digest of
/// a source photo.
pub open spec fn preview_of(photo: JsonView, prefix: Seq<char>, sources: Seq<SourcePhoto>) -> Result<
    PreviewView,
    CommittedError,
> {
    match field(photo, "preview"@) {
        None => Err(CommittedError::MissingPreview),
        Some(asset) => match as_text(field(asset, "url"@)) {
            None => Err(CommittedError::MissingUrl),
            Some(url) => if path_error(url) is Some {
                Err(CommittedError::InvalidPath(path_error(url)->0))
            } else {
                match stem_of(url) {
                    None => Err(CommittedError::NoExtension),
                    Some(stem) => if extension_of(url) != "jpg"@ {
                        Err(CommittedError::NotJpeg)
                    } else if !is_sha256_text(stem) {
                        Err(CommittedError::InvalidDigestName)
                    } else if !has_source(sources, stem) {
                        Err(CommittedError::UnknownSource)
                    } else if !is_portable_path(prefixed(prefix, url)) {
                        Err(CommittedError::InvalidRepositoryPath)
                    } else {
                        Ok(PreviewView { url, path: prefixed(prefix, url) })
                    },
                }
            },
        },
    }
}

/// The preview that a photo names.
#[derive(Debug, PartialEq, Eq)]
pub struct PreviewRequest {
    pub source_path: PublicationPath,
    pub path: RepositoryPath,
}

/// The preview that a photo of the gallery names, and the path at which it is
/// published.
pub fn preview_request(photo: &Json, prefix: &str, sources: &Vec<SourcePhoto>) -> (r: Result<
    PreviewRequest,
    CommittedError,
>)
    ensures
        match (preview_of(photo@, prefix@, sources@), r) {
            (Ok(v), Ok(request)) => request.source_path@ == v.url && request.path@ == v.path,
            (Err(e), Err(f)) => e == f,
            _ => false,
        },
{
    let asset: &Json = match get(photo, "preview") {
        Some(asset) => asset,
        None => {
            return Err(CommittedError::MissingPreview);
        },
    };
    let url: &String = match get(asset, "url") {
        Some(Json::Text(url)) => url,
        _ => {
            return Err(CommittedError::MissingUrl);
        },
    };
    let source_path: PublicationPath = match PublicationPath::new(url.as_str()) {
        Ok(path) => path,
        Err(e) => {
            return Err(CommittedError::InvalidPath(e));
        },
    };
    let (_, name) = split_at_last(url.as_str(), '/');
    let (before, extension) = split_at_last(name.as_str(), '.');
    let stem: String = match before {
        Some(stem) => stem,
        None => {
            return Err(CommittedError::NoExtension);
        },
    };
    if !same_text(extension.as_str(), "jpg") {
        return Err(CommittedError::NotJpeg);
    }
    if !is_sha256(stem.as_str()) {
        return Err(CommittedError::InvalidDigestName);
    }
    if find_source(sources, stem.as_str()).is_none() {
        return Err(CommittedError::UnknownSource);
    }
    let text: String = below_prefix(prefix, url.as_str());
    match RepositoryPath::new(text.as_str()) {
        Ok(path) => Ok(PreviewRequest { source_path, path }),
        Err(_) => Err(CommittedError::InvalidRepositoryPath),
    }
}

/// The repository file for a preview. Previews are re-encoded, so the desired
/// digest is that of the file itself.
pub open spec fn preview_file(preview: PreviewView, seen: FileObservationView) -> Result<
    DesiredFileView,
    CommittedError,
> {
    match read_asset(seen) {
        Err(e) => Err(e),
        Ok((size, sha256)) => if !is_sha256_text(sha256) {
            Err(CommittedError::Planner(PlannerError::InvalidFileHash))
        } else {
            Ok(
                DesiredFileView {
                    path: preview.path,
                    sha256,
                    size_bytes: size,
                    source: SourceView::PublicationFile(preview.url),
                },
            )
        },
    }
}

/// The repository file of one photo.
pub open spec fn photo_preview(
    photo: JsonView,
    prefix: Seq<char>,
    seen: FileObservationView,
    sources: Seq<SourcePhoto>,
) -> Result<DesiredFileView, CommittedError> {
    match preview_of(photo, prefix, sources) {
        Err(e) => Err(e),
        Ok(preview) => preview_file(preview, seen),
    }
}

/// The repository files of the photos from a position on, in their order.
pub open spec fn previews_from(
    photos: Seq<JsonView>,
    prefix: Seq<char>,
    seen: Seq<FileObservation>,
    sources: Seq<SourcePhoto>,
    i: int,
) -> Result<Seq<DesiredFileView>, CommittedError>
    decreases photos.len() - i,
{
    if i >= photos.len() {
        Ok(Seq::empty())
    } else {
        match photo_preview(photos[i], prefix, observed_at(seen, i), sources) {
            Err(e) => Err(e),
            Ok(file) => match previews_from(photos, prefix, seen, sources, i + 1) {
                Err(e) => Err(e),
                Ok(rest) => Ok(seq![file] + rest),
            },
        }
    }
}

/// The repository files of a list.
pub open spec fn desired_files_view(s: Seq<DesiredRepositoryFile>) -> Seq<DesiredFileView> {
    Seq::new(s.len(), |i: int| s[i]@)
}

/// The preview files of a committed publication.
pub open spec fn preview_files(
    prefix: Option<Seq<char>>,
    local: LocalView,
    output: CommittedView,
    seen: Seq<FileObservation>,
) -> Result<Seq<DesiredFileView>, CommittedError> {
    match output_error(output, local) {
        Some(e) => Err(e),
        None => previews_from(
            committed_photos(output),
            effective_prefix(prefix),
            seen,
            output.sources->0,
            0,
        ),
    }
}

/// The repository file for a preview that was looked at.
pub fn bind_preview(request: PreviewRequest, seen: &FileObservation) -> (r: Result<
    DesiredRepositoryFile,
    CommittedError,
>)
    ensures
        match (
            preview_file(
                (PreviewView { url: request.source_path@, path: request.path@ }),
                seen@,
            ),
            r,
        ) {
            (Ok(v), Ok(file)) => file@ == v,
            (Err(e), Err(f)) => e == f,
            _ => false,
        },
{
    let (size, sha256) = match read_observed(seen) {
        Ok(found) => found,
        Err(e) => {
            return Err(e);
        },
    };
    match DesiredRepositoryFile::new(
        request.path,
        sha256,
        size,
        RepositoryFileSource::PublicationFile { source_path: request.source_path },
    ) {
        Ok(file) => Ok(file),
        Err(e) => Err(CommittedError::Planner(e)),
    }
}

/// Builds the preview bindings of one committed publication: each
/// `gallery.photos[].preview` becomes a desired repository file.
///
/// The repository path joins the preview prefix with the publication-relative
/// URL by the same rule as storage keys; the public base URL is never used to
/// locate content. The name of the file proves that it belongs to this
/// publication. The observations stand in the order of the photos.
pub fn committed_preview_files(
    configuration: &ProjectPublicationConfig,
    local: &LocalPublication,
    output: &CommittedOutput,
    seen: &Vec<FileObservation>,
) -> (r: Result<Vec<DesiredRepositoryFile>, CommittedError>)
    ensures
        match (
            preview_files(option_text(configuration.preview_prefix), local@, output@, seen@),
            r,
        ) {
            (Ok(v), Ok(files)) => desired_files_view(files@) == v,
            (Err(e), Err(f)) => e == f,
            _ => false,
        },
{
    let (photos, sources) = match check_output(output, local) {
        Ok(found) => found,
        Err(e) => {
            return Err(e);
        },
    };
    let prefix: String = trimmed_prefix(&configuration.preview_prefix);
    let ghost all = items_view(photos@);
    let ghost whole = previews_from(all, prefix@, seen@, sources@, 0);
    let mut files: Vec<DesiredRepositoryFile> = Vec::new();
    let mut i: usize = 0;
    proof {
        assert(desired_files_view(files@) =~= Seq::<DesiredFileView>::empty());
        if whole is Ok {
            assert(Seq::<DesiredFileView>::empty() + whole->Ok_0 =~= whole->Ok_0);
        }
    }
    while i < photos.len()
        invariant
            i <= photos@.len(),
            all == items_view(photos@),
            match (previews_from(all, prefix@, seen@, sources@, i as int), whole) {
                (Ok(rest), Ok(v)) => v == desired_files_view(files@) + rest,
                (Err(e), Err(f)) => e == f,
                _ => false,
            },
            preview_files(option_text(configuration.preview_prefix), local@, output@, seen@)
                == whole,
        decreases photos@.len() - i,
    {
        let ghost before = desired_files_view(files@);
        proof {
            assert(all[i as int] == photos@[i as int]@);
        }
        let request: PreviewRequest = match preview_request(&photos[i], prefix.as_str(), sources) {
            Ok(request) => request,
            Err(e) => {
                return Err(e);
            },
        };
        let look: FileObservation = observed(seen, i);
        let file: DesiredRepositoryFile = match bind_preview(request, &look) {
            Ok(file) => file,
            Err(e) => {
                return Err(e);
            },
        };
        let ghost v = file@;
        files.push(file);
        proof {
            assert(desired_files_view(files@) =~= before.push(v));
            let rest = previews_from(all, prefix@, seen@, sources@, i as int + 1);
            if rest is Ok {
                assert(before + (seq![v] + rest->Ok_0) =~= before.push(v) + rest->Ok_0);
            }
        }
        i = i + 1;
    }
    proof {
        assert(desired_files_view(files@) + Seq::<DesiredFileView>::empty() =~= desired_files_view(
            files@,
        ));
    }
    Ok(files)
}

// ---------------------------------------------------------------------------
// The whole desired state
// ---------------------------------------------------------------------------
/// The objects put under their keys, or none where a key is taken.
pub open spec fn with_objects(
    storage: Map<Seq<char>, DesiredObjectView>,
    objects: Seq<DesiredObjectView>,
) -> Option<Map<Seq<char>, DesiredObjectView>>
    decreases objects.len(),
{
    if objects.len() == 0 {
        Some(storage)
    } else {
        match with_objects(storage, objects.drop_last()) {
            None => None,
            Some(m) => if m.dom().contains(objects.last().key) {
                None
            } else {
                Some(m.insert(objects.last().key, objects.last()))
            },
        }
    }
}

/// The files put at their paths, or none where a path is taken.
pub open spec fn with_files(
    repository: Map<Seq<char>, DesiredFileView>,
    files: Seq<DesiredFileView>,
) -> Option<Map<Seq<char>, DesiredFileView>>
    decreases files.len(),
{
    if files.len() == 0 {
        Some(repository)
    } else {
        match with_files(repository, files.drop_last()) {
            None => None,
            Some(m) => if m.dom().contains(files.last().path) {
                None
            } else {
                Some(m.insert(files.last().path, files.last()))
            },
        }
    }
}

proof fn lemma_with_objects_prefix(
    storage: Map<Seq<char>, DesiredObjectView>,
    objects: Seq<DesiredObjectView>,
    n: int,
)
    requires
        0 <= n <= objects.len(),
        with_objects(storage, objects.take(n)) is None,
    ensures
        with_objects(storage, objects) is None,
    decreases objects.len(),
{
    if n == objects.len() {
        assert(objects.take(n) =~= objects);
    } else {
        assert(objects.drop_last().take(n) =~= objects.take(n));
        lemma_with_objects_prefix(storage, objects.drop_last(), n);
    }
}

proof fn lemma_with_files_prefix(
    repository: Map<Seq<char>, DesiredFileView>,
    files: Seq<DesiredFileView>,
    n: int,
)
    requires
        0 <= n <= files.len(),
        with_files(repository, files.take(n)) is None,
    ensures
        with_files(repository, files) is None,
    decreases files.len(),
{
    if n == files.len() {
        assert(files.take(n) =~= files);
    } else {
        assert(files.drop_last().take(n) =~= files.take(n));
        lemma_with_files_prefix(repository, files.drop_last(), n);
    }
}

/// The local publication of a committed output.
pub open spec fn committed_local(v: CommittedView) -> LocalView {
    LocalView {
        generation: v.journal.generation,
        state_hash: v.journal.state_sha256,
        manifest_hash: v.journal.gallery_sha256,
    }
}

/// The desired state of a committed publication: the files of the bundle, the
/// downloads in storage and the previews in the repository.
pub open spec fn committed_desired(
    configuration: ProjectPublicationConfig,
    output: CommittedView,
    downloads: Seq<FileObservation>,
    previews: Seq<FileObservation>,
    bundle: BundleView,
) -> Result<DesiredView, CommittedError> {
    let local = committed_local(output);
    match committed_pair_error(output.journal, Some(output.gallery), Some(output.state)) {
        Some(e) => Err(CommittedError::Planner(e)),
        None => match local_error(local) {
            Some(e) => Err(CommittedError::Planner(e)),
            None => match high_resolution_objects(
                option_text(configuration.high_resolution_prefix),
                local,
                output,
                downloads,
            ) {
                Err(e) => Err(e),
                Ok(objects) => match preview_files(
                    option_text(configuration.preview_prefix),
                    local,
                    output,
                    previews,
                ) {
                    Err(e) => Err(e),
                    Ok(files) => {
                        let base = desired_of(
                            configuration_fingerprint_text(configuration),
                            local,
                            bundle,
                        );
                        match (
                            with_objects(base.storage, objects),
                            with_files(base.repository, files),
                        ) {
                            (None, _) => Err(
                                CommittedError::Planner(PlannerError::DuplicateStorageKey),
                            ),
                            (Some(_), None) => Err(
                                CommittedError::Planner(PlannerError::DuplicateRepositoryPath),
                            ),
                            (Some(storage), Some(repository)) => Ok(
                                DesiredView { storage, repository, ..base },
                            ),
                        }
                    },
                },
            },
        },
    }
}

impl DesiredPublication {
    /// Builds the full desired state from a committed local publication.
    ///
    /// The journal must be committed and both the gallery manifest and the
    /// publisher state are authenticated against it. Every download is bound to
    /// its publication-relative JPEG with verified digest and size, and every
    /// preview to its own with the digest of the file. No provider, network, or
    /// remote state is involved.
    pub fn from_committed_output(
        configuration: &ProjectPublicationConfig,
        output: &CommittedOutput,
        downloads: &Vec<FileObservation>,
        previews: &Vec<FileObservation>,
        bundle: &ApplicationBundle,
    ) -> (r: Result<DesiredPublication, CommittedError>)
        ensures
            match (
                committed_desired(*configuration, output@, downloads@, previews@, bundle@),
                r,
            ) {
                (Ok(v), Ok(desired)) => desired@ == v && well_keyed(desired@),
                (Err(e), Err(f)) => e == f,
                _ => false,
            },
    {
        let gallery: Option<Vec<u8>> = Some(
            vstd::slice::slice_to_vec(output.gallery.bytes().as_slice()),
        );
        let state: Option<Vec<u8>> = Some(vstd::slice::slice_to_vec(output.state.as_slice()));
        let local: LocalPublication = match LocalPublication::from_output(
            &output.journal,
            &gallery,
            &state,
        ) {
            Ok(local) => local,
            Err(e) => {
                return Err(CommittedError::Planner(e));
            },
        };
        let objects: Vec<DesiredStorageObject> = match committed_high_resolution_objects(
            configuration,
            &local,
            output,
            downloads,
        ) {
            Ok(objects) => objects,
            Err(e) => {
                return Err(e);
            },
        };
        let files: Vec<DesiredRepositoryFile> = match committed_preview_files(
            configuration,
            &local,
            output,
            previews,
        ) {
            Ok(files) => files,
            Err(e) => {
                return Err(e);
            },
        };
        let mut desired: DesiredPublication = match DesiredPublication::new(
            configuration,
            local,
            bundle,
        ) {
            Ok(desired) => desired,
            Err(e) => {
                return Err(CommittedError::Planner(e));
            },
        };
        let ghost base = desired@;
        let ghost all_objects = objects_view(objects@);
        let ghost all_files = desired_files_view(files@);
        let ghost due = committed_desired(
            *configuration,
            output@,
            downloads@,
            previews@,
            bundle@,
        );
        proof {
            assert(all_objects.take(0) =~= Seq::<DesiredObjectView>::empty());
            assert(all_files.take(0) =~= Seq::<DesiredFileView>::empty());
        }
        for object in it: objects
            invariant
                all_objects == objects_view(it.seq()),
                with_objects(base.storage, all_objects) is None ==> due
                    == Err::<DesiredView, CommittedError>(
                    CommittedError::Planner(PlannerError::DuplicateStorageKey),
                ),
                due == committed_desired(
                    *configuration,
                    output@,
                    downloads@,
                    previews@,
                    bundle@,
                ),
                with_objects(base.storage, all_objects.take(it.index() as int)) == Some(
                    desired@.storage,
                ),
                desired@ == (DesiredView { storage: desired@.storage, ..base }),
                well_keyed(desired@),
        {
            let ghost i = it.index() as int;
            proof {
                assert(all_objects[i] == object@);
                assert(all_objects.take(i + 1).drop_last() =~= all_objects.take(i));
                assert(all_objects.take(i + 1).last() == object@);
            }
            match desired.insert_storage_object(object) {
                Ok(()) => {},
                Err(e) => {
                    proof {
                        lemma_with_objects_prefix(base.storage, all_objects, i + 1);
                    }
                    return Err(CommittedError::Planner(e));
                },
            }
        }
        proof {
            assert(all_objects.take(all_objects.len() as int) =~= all_objects);
        }
        let ghost storage = desired@.storage;
        for file in it: files
            invariant
                all_files == desired_files_view(it.seq()),
                with_files(base.repository, all_files) is None ==> due
                    == Err::<DesiredView, CommittedError>(
                    CommittedError::Planner(PlannerError::DuplicateRepositoryPath),
                ),
                due == committed_desired(
                    *configuration,
                    output@,
                    downloads@,
                    previews@,
                    bundle@,
                ),
                with_files(base.repository, all_files.take(it.index() as int)) == Some(
                    desired@.repository,
                ),
                desired@ == (DesiredView { storage, repository: desired@.repository, ..base }),
                well_keyed(desired@),
        {
            let ghost i = it.index() as int;
            proof {
                assert(all_files[i] == file@);
                assert(all_files.take(i + 1).drop_last() =~= all_files.take(i));
                assert(all_files.take(i + 1).last() == file@);
            }
            match desired.insert_repository_file(file) {
                Ok(()) => {},
                Err(e) => {
                    proof {
                        lemma_with_files_prefix(base.repository, all_files, i + 1);
                    }
                    return Err(CommittedError::Planner(e));
                },
            }
        }
        proof {
            assert(all_files.take(all_files.len() as int) =~= all_files);
        }
        match desired.validate() {
            Ok(()) => Ok(desired),
            Err(e) => Err(CommittedError::Planner(e)),
        }
    }
}

} // verus!
