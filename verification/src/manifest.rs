//! Public gallery manifest contract.
//!
//! The pipeline produces a local `gallery.json` whose asset URLs are
//! publication-relative (`photos/...`). This module derives the public
//! manifest served by the site: the same document with each asset URL
//! rewritten to its absolute public URL.
//!
//! The prefixes of the configuration locate objects inside their target and
//! are intentionally not part of the public URL. The join removes duplicate
//! slashes at the boundary, preserves the base as it is, performs no
//! percent-encoding, and rejects anything that is not a publication path.

use crate::bundle::{
    bundle_of, content_at, files_view, given_files, given_files_error, ApplicationBundle,
    ApplicationBundleFile,
};
use crate::committed::path_error;
use crate::config::ProjectPublicationConfig;
use crate::digest::{hex_digest, hex_sha256};
use crate::gallery::{as_items, as_text};
use crate::journal::{file_view, JournalRecord};
use crate::json::{
    array_of, encode, items_view, json_document, json_text, lemma_array_view, lemma_object_view,
    lemma_regular_is_plain, member, members_view, numbers_are_integers, object_of, parse, Json,
    JsonView,
};
use crate::laws::manifest::{is_public_form, law_manifest_shows_public_urls};
use crate::paths::{is_portable_path, PublicationPath, PublicationPathError};
use crate::planner::{committed_pair_error, local_error, LocalPublication, LocalView, PlannerError};
use crate::provider::ProviderError;
use crate::public_url::PublicBaseUrl;
use crate::site::{law_composed_site_holds_manifest_and_template, law_public_gallery_is_plain};
use crate::text::{is_sha256_text, joined3, same_text, trim_end_slashes, without_trailing_slashes};
use vstd::prelude::*;
use vstd::utf8::encode_utf8;

verus! {

/// Why no public manifest can be derived.
#[derive(Debug, Clone, Copy, PartialEq, Eq, Structural)]
pub enum ManifestError {
    NotJson,
    NoPhotosArray,
    PhotoNotAnObject,
    MissingPreview,
    AssetNotAnObject,
    UrlNotText,
    InvalidUrl(PublicationPathError),
    Local(PlannerError),
}

// ---------------------------------------------------------------------------
// Public URLs
// ---------------------------------------------------------------------------
/// The public URL of a publication path below a base: exactly one slash at the
/// boundary, the base otherwise as it is.
pub open spec fn public_url_text(base: Seq<char>, path: Seq<char>) -> Seq<char> {
    without_trailing_slashes(base) + "/"@ + path
}

/// The public URL of a publication path below a base.
pub fn public_url(base: &PublicBaseUrl, relative: &str) -> (r: Result<String, PublicationPathError>)
    ensures
        match (path_error(relative@), r) {
            (Some(e), Err(f)) => e == f,
            (None, Ok(url)) => url@ == public_url_text(base@, relative@),
            _ => false,
        },
{
    match PublicationPath::new(relative) {
        Ok(path) => {
            let trimmed: String = trim_end_slashes(base.as_str());
            Ok(joined3(trimmed.as_str(), "/", path.as_str()))
        },
        Err(e) => Err(e),
    }
}

// ---------------------------------------------------------------------------
// Replacing members
// ---------------------------------------------------------------------------
/// The members with another value under the key: in the place of the first
/// member with it, or at the end where there is none.
pub open spec fn with_member(
    members: Seq<(Seq<char>, JsonView)>,
    key: Seq<char>,
    value: JsonView,
) -> Seq<(Seq<char>, JsonView)>
    decreases members.len(),
{
    if members.len() == 0 {
        seq![(key, value)]
    } else if members[0].0 == key {
        members.update(0, (key, value))
    } else {
        seq![members[0]] + with_member(members.drop_first(), key, value)
    }
}

proof fn lemma_with_member(
    members: Seq<(Seq<char>, JsonView)>,
    key: Seq<char>,
    value: JsonView,
    i: int,
)
    requires
        0 <= i < members.len(),
        members[i].0 == key,
        forall|j: int| 0 <= j < i ==> (#[trigger] members[j]).0 != key,
    ensures
        with_member(members, key, value) == members.update(i, (key, value)),
        member(members, key) == Some(members[i].1),
    decreases i,
{
    if i > 0 {
        let rest = members.drop_first();
        assert(rest[i - 1] == members[i]);
        assert forall|j: int| 0 <= j < i - 1 implies (#[trigger] rest[j]).0 != key by {
            assert(rest[j] == members[j + 1]);
        }
        lemma_with_member(rest, key, value, i - 1);
        assert(with_member(members, key, value) =~= members.update(i, (key, value)));
    }
}

proof fn lemma_no_member(members: Seq<(Seq<char>, JsonView)>, key: Seq<char>)
    requires
        forall|j: int| 0 <= j < members.len() ==> (#[trigger] members[j]).0 != key,
    ensures
        member(members, key) is None,
    decreases members.len(),
{
    if members.len() > 0 {
        let rest = members.drop_first();
        assert forall|j: int| 0 <= j < rest.len() implies (#[trigger] rest[j]).0 != key by {
            assert(rest[j] == members[j + 1]);
        }
        lemma_no_member(rest, key);
    }
}

/// The position of the first member with the key.
fn find_member(members: &Vec<(String, Json)>, key: &str) -> (r: Option<usize>)
    ensures
        match r {
            Some(i) => i < members@.len() && members@[i as int].0@ == key@ && (forall|j: int|
                0 <= j < i ==> (#[trigger] members_view(members@)[j]).0 != key@) && member(
                members_view(members@),
                key@,
            ) == Some(members@[i as int].1@),
            None => member(members_view(members@), key@) is None,
        },
{
    let ghost all = members_view(members@);
    let mut i: usize = 0;
    while i < members.len()
        invariant
            i <= members@.len(),
            all == members_view(members@),
            forall|j: int| 0 <= j < i ==> (#[trigger] all[j]).0 != key@,
        decreases members@.len() - i,
    {
        if same_text(members[i].0.as_str(), key) {
            proof {
                assert(all[i as int] == (members@[i as int].0@, members@[i as int].1@));
                lemma_with_member(all, key@, JsonView::Null, i as int);
            }
            return Some(i);
        }
        proof {
            assert(all[i as int] == (members@[i as int].0@, members@[i as int].1@));
        }
        i = i + 1;
    }
    proof {
        lemma_no_member(all, key@);
    }
    None
}

/// Puts a value in the place of the one at a position, which was taken out.
fn put_back(members: &mut Vec<(String, Json)>, i: usize, key: &str, value: Json, old_members: Ghost<
    Seq<(Seq<char>, JsonView)>,
>)
    requires
        i < old_members@.len(),
        old_members@[i as int].0 == key@,
        forall|j: int| 0 <= j < i ==> (#[trigger] old_members@[j]).0 != key@,
        members_view(old(members)@) == old_members@.remove(i as int),
    ensures
        members_view(final(members)@) == with_member(old_members@, key@, value@),
{
    let ghost before = members_view(members@);
    proof {
        assert(before.len() == members@.len());
    }
    let ghost v = value@;
    members.insert(i, (key.to_owned(), value));
    proof {
        assert(members_view(members@) =~= before.insert(i as int, (key@, v)));
        assert(before.insert(i as int, (key@, v)) =~= old_members@.update(i as int, (key@, v)));
        lemma_with_member(old_members@, key@, v, i as int);
    }
}

// ---------------------------------------------------------------------------
// Rewriting
// ---------------------------------------------------------------------------
/// An asset with its URL made public; everything else as it was.
pub open spec fn public_asset(asset: JsonView, base: Seq<char>) -> Result<JsonView, ManifestError> {
    match asset {
        JsonView::Object(members) => match as_text(member(members, "url"@)) {
            None => Err(ManifestError::UrlNotText),
            Some(url) => match path_error(url) {
                Some(e) => Err(ManifestError::InvalidUrl(e)),
                None => Ok(
                    JsonView::Object(
                        with_member(
                            members,
                            "url"@,
                            JsonView::Text(public_url_text(base, url)),
                        ),
                    ),
                ),
            },
        },
        _ => Err(ManifestError::AssetNotAnObject),
    }
}

/// The members of a photo with the asset under the key made public.
pub open spec fn with_public_asset(
    members: Seq<(Seq<char>, JsonView)>,
    key: Seq<char>,
    base: Seq<char>,
) -> Result<Seq<(Seq<char>, JsonView)>, ManifestError> {
    match public_asset(member(members, key)->0, base) {
        Err(e) => Err(e),
        Ok(asset) => Ok(with_member(members, key, asset)),
    }
}

/// A photo with its preview, and its download where it has one, made public.
pub open spec fn public_photo(photo: JsonView, preview: Seq<char>, download: Seq<char>) -> Result<
    JsonView,
    ManifestError,
> {
    match photo {
        JsonView::Object(members) => if member(members, "preview"@) is None {
            Err(ManifestError::MissingPreview)
        } else {
            match with_public_asset(members, "preview"@, preview) {
                Err(e) => Err(e),
                Ok(next) => if member(next, "download"@) is None {
                    Ok(JsonView::Object(next))
                } else {
                    match with_public_asset(next, "download"@, download) {
                        Err(e) => Err(e),
                        Ok(last) => Ok(JsonView::Object(last)),
                    }
                },
            }
        },
        _ => Err(ManifestError::PhotoNotAnObject),
    }
}

/// The photos from a position on, made public.
pub open spec fn public_photos(
    photos: Seq<JsonView>,
    preview: Seq<char>,
    download: Seq<char>,
    i: int,
) -> Result<Seq<JsonView>, ManifestError>
    decreases photos.len() - i,
{
    if i >= photos.len() {
        Ok(Seq::empty())
    } else {
        match public_photo(photos[i], preview, download) {
            Err(e) => Err(e),
            Ok(photo) => match public_photos(photos, preview, download, i + 1) {
                Err(e) => Err(e),
                Ok(rest) => Ok(seq![photo] + rest),
            },
        }
    }
}

/// A gallery with every asset URL made public; everything else as it was.
pub open spec fn public_gallery(gallery: JsonView, preview: Seq<char>, download: Seq<char>) -> Result<
    JsonView,
    ManifestError,
> {
    match gallery {
        JsonView::Object(members) => match as_items(member(members, "photos"@)) {
            None => Err(ManifestError::NoPhotosArray),
            Some(photos) => match public_photos(photos, preview, download, 0) {
                Err(e) => Err(e),
                Ok(made) => Ok(
                    JsonView::Object(with_member(members, "photos"@, JsonView::Array(made))),
                ),
            },
        },
        _ => Err(ManifestError::NoPhotosArray),
    }
}

/// The public manifest of a local one.
pub open spec fn public_manifest(local: Seq<u8>, preview: Seq<char>, download: Seq<char>) -> Result<
    Seq<char>,
    ManifestError,
> {
    match json_document(local) {
        None => Err(ManifestError::NotJson),
        Some(gallery) => match public_gallery(gallery, preview, download) {
            Err(e) => Err(e),
            Ok(made) => Ok(json_text(made)),
        },
    }
}

/// Whether a made value is the one that is due.
pub open spec fn made_as(
    due: Result<JsonView, ManifestError>,
    r: Result<Json, ManifestError>,
) -> bool {
    match (due, r) {
        (Ok(v), Ok(json)) => json@ == v,
        (Err(e), Err(f)) => e == f,
        _ => false,
    }
}

fn rewrite_asset_url(asset: Json, base: &PublicBaseUrl) -> (r: Result<Json, ManifestError>)
    ensures
        made_as(public_asset(asset@, base@), r),
{
    proof {
        if asset is Object {
            lemma_object_view(asset);
        }
    }
    match asset {
        Json::Object(mut members) => {
            let ghost all = members_view(members@);
            let i: usize = match find_member(&members, "url") {
                Some(i) => i,
                None => {
                    return Err(ManifestError::UrlNotText);
                },
            };
            let url: String = match &members[i].1 {
                Json::Text(relative) => match public_url(base, relative.as_str()) {
                    Ok(url) => url,
                    Err(e) => {
                        return Err(ManifestError::InvalidUrl(e));
                    },
                },
                _ => {
                    return Err(ManifestError::UrlNotText);
                },
            };
            let _removed: (String, Json) = members.remove(i);
            proof {
                assert(members_view(members@) =~= all.remove(i as int));
            }
            put_back(&mut members, i, "url", Json::Text(url), Ghost(all));
            Ok(object_of(members))
        },
        _ => Err(ManifestError::AssetNotAnObject),
    }
}

/// Makes the asset at a position public.
fn rewrite_member(
    members: &mut Vec<(String, Json)>,
    i: usize,
    key: &str,
    base: &PublicBaseUrl,
) -> (r: Result<(), ManifestError>)
    requires
        i < old(members)@.len(),
        old(members)@[i as int].0@ == key@,
        forall|j: int| 0 <= j < i ==> (#[trigger] members_view(old(members)@)[j]).0 != key@,
    ensures
        match (with_public_asset(members_view(old(members)@), key@, base@), r) {
            (Ok(v), Ok(())) => members_view(final(members)@) == v,
            (Err(e), Err(f)) => e == f,
            _ => false,
        },
{
    let ghost all = members_view(members@);
    proof {
        assert(all[i as int] == (members@[i as int].0@, members@[i as int].1@));
        lemma_with_member(all, key@, JsonView::Null, i as int);
    }
    let (_, asset) = members.remove(i);
    proof {
        assert(members_view(members@) =~= all.remove(i as int));
    }
    match rewrite_asset_url(asset, base) {
        Ok(made) => {
            put_back(members, i, key, made, Ghost(all));
            Ok(())
        },
        Err(e) => Err(e),
    }
}

fn rewrite_photo(photo: Json, preview: &PublicBaseUrl, download: &PublicBaseUrl) -> (r: Result<
    Json,
    ManifestError,
>)
    ensures
        made_as(public_photo(photo@, preview@, download@), r),
{
    proof {
        if photo is Object {
            lemma_object_view(photo);
        }
    }
    match photo {
        Json::Object(mut members) => {
            let i: usize = match find_member(&members, "preview") {
                Some(i) => i,
                None => {
                    return Err(ManifestError::MissingPreview);
                },
            };
            match rewrite_member(&mut members, i, "preview", preview) {
                Ok(()) => {},
                Err(e) => {
                    return Err(e);
                },
            }
            match find_member(&members, "download") {
                Some(j) => match rewrite_member(&mut members, j, "download", download) {
                    Ok(()) => {},
                    Err(e) => {
                        return Err(e);
                    },
                },
                None => {},
            }
            Ok(object_of(members))
        },
        _ => Err(ManifestError::PhotoNotAnObject),
    }
}

fn rewrite_photos(photos: Vec<Json>, preview: &PublicBaseUrl, download: &PublicBaseUrl) -> (r:
    Result<Vec<Json>, ManifestError>)
    ensures
        match (public_photos(items_view(photos@), preview@, download@, 0), r) {
            (Ok(v), Ok(made)) => items_view(made@) == v,
            (Err(e), Err(f)) => e == f,
            _ => false,
        },
{
    let ghost all = items_view(photos@);
    let ghost whole = public_photos(all, preview@, download@, 0);
    let mut made: Vec<Json> = Vec::new();
    proof {
        assert(items_view(made@) =~= Seq::<JsonView>::empty());
        if whole is Ok {
            assert(Seq::<JsonView>::empty() + whole->Ok_0 =~= whole->Ok_0);
        }
    }
    for photo in it: photos
        invariant
            all == items_view(it.seq()),
            whole == public_photos(all, preview@, download@, 0),
            match (public_photos(all, preview@, download@, it.index() as int), whole) {
                (Ok(rest), Ok(v)) => v == items_view(made@) + rest,
                (Err(e), Err(f)) => e == f,
                _ => false,
            },
    {
        let ghost before = items_view(made@);
        let ghost i = it.index() as int;
        proof {
            assert(all[i] == photo@);
        }
        match rewrite_photo(photo, preview, download) {
            Ok(next) => {
                let ghost v = next@;
                made.push(next);
                proof {
                    assert(items_view(made@) =~= before.push(v));
                    let rest = public_photos(all, preview@, download@, i + 1);
                    if rest is Ok {
                        assert(before + (seq![v] + rest->Ok_0) =~= before.push(v) + rest->Ok_0);
                    }
                }
            },
            Err(e) => {
                return Err(e);
            },
        }
    }
    proof {
        assert(items_view(made@) + Seq::<JsonView>::empty() =~= items_view(made@));
    }
    Ok(made)
}

/// A gallery with every asset URL made public; everything else as it was.
pub fn rewrite_gallery(gallery: Json, preview: &PublicBaseUrl, download: &PublicBaseUrl) -> (r:
    Result<Json, ManifestError>)
    ensures
        made_as(public_gallery(gallery@, preview@, download@), r),
{
    proof {
        if gallery is Object {
            lemma_object_view(gallery);
        }
    }
    match gallery {
        Json::Object(mut members) => {
            let ghost all = members_view(members@);
            let i: usize = match find_member(&members, "photos") {
                Some(i) => i,
                None => {
                    return Err(ManifestError::NoPhotosArray);
                },
            };
            let (_, value) = members.remove(i);
            proof {
                assert(members_view(members@) =~= all.remove(i as int));
                if value is Array {
                    lemma_array_view(value);
                }
            }
            match value {
                Json::Array(photos) => match rewrite_photos(photos, preview, download) {
                    Ok(made) => {
                        put_back(&mut members, i, "photos", array_of(made), Ghost(all));
                        Ok(object_of(members))
                    },
                    Err(e) => Err(e),
                },
                _ => Err(ManifestError::NoPhotosArray),
            }
        },
        _ => Err(ManifestError::NoPhotosArray),
    }
}

// ---------------------------------------------------------------------------
// The manifest
// ---------------------------------------------------------------------------
/// The final public `gallery.json`: canonical text plus the digest of its bytes.
///
/// The digest is computed over exactly the bytes returned by
/// [`bytes`](Self::bytes), so the same payload can be reused identically as a
/// repository file and as an application bundle member.
#[derive(Debug, PartialEq, Eq)]
pub struct PublicGalleryManifest {
    text: String,
    sha256: String,
}

impl View for PublicGalleryManifest {
    type V = Seq<char>;

    closed spec fn view(&self) -> Seq<char> {
        self.text@
    }
}

impl PublicGalleryManifest {
    #[verifier::type_invariant]
    spec fn sealed(self) -> bool {
        self.sha256@ == hex_sha256(encode_utf8(self.text@)) && is_sha256_text(self.sha256@)
    }

    /// Derives the public manifest from a local `gallery.json` and the
    /// publication configuration: the same input always gives the same bytes,
    /// and those of a gallery whose numbers are integers are read back as its
    /// public form.
    pub fn derive(local_manifest: &[u8], configuration: &ProjectPublicationConfig) -> (r: Result<
        PublicGalleryManifest,
        ManifestError,
    >)
        ensures
            match (
                public_manifest(
                    local_manifest@,
                    configuration.preview_public_base_url@,
                    configuration.high_resolution_public_base_url@,
                ),
                r,
            ) {
                (Ok(text), Ok(manifest)) => manifest@ == text,
                (Err(e), Err(f)) => e == f,
                _ => false,
            },
            r matches Ok(manifest) ==> numbers_are_integers(json_document(local_manifest@)->0, 127)
                ==> json_document(encode_utf8(manifest@)) == Some(
                public_gallery(
                    json_document(local_manifest@)->0,
                    configuration.preview_public_base_url@,
                    configuration.high_resolution_public_base_url@,
                )->Ok_0,
            ),
            r matches Ok(manifest) ==> exists|made: JsonView| #[trigger]
                json_text(made) == manifest@ && is_public_form(
                    made,
                    json_document(local_manifest@)->0,
                    configuration.preview_public_base_url@,
                    configuration.high_resolution_public_base_url@,
                ),
    {
        let gallery: Json = match parse(local_manifest) {
            Some(gallery) => gallery,
            None => {
                return Err(ManifestError::NotJson);
            },
        };
        let ghost local = gallery@;
        match rewrite_gallery(
            gallery,
            &configuration.preview_public_base_url,
            &configuration.high_resolution_public_base_url,
        ) {
            Ok(made) => {
                proof {
                    law_manifest_shows_public_urls(
                        local,
                        configuration.preview_public_base_url@,
                        configuration.high_resolution_public_base_url@,
                    );
                    if numbers_are_integers(local, 127) {
                        lemma_regular_is_plain(local, 127);
                        law_public_gallery_is_plain(
                            local,
                            configuration.preview_public_base_url@,
                            configuration.high_resolution_public_base_url@,
                            127,
                        );
                    }
                }
                let text: String = encode(&made);
                let sha256: String = hex_digest(text.as_str().as_bytes());
                Ok(PublicGalleryManifest { text, sha256 })
            },
            Err(e) => Err(e),
        }
    }

    /// Canonical serialized bytes of the public manifest.
    pub fn bytes(&self) -> (r: &[u8])
        ensures
            r@ == encode_utf8(self@),
    {
        self.text.as_str().as_bytes()
    }

    /// SHA-256 of [`bytes`](Self::bytes), in lowercase hex.
    pub fn sha256(&self) -> (r: &str)
        ensures
            r@ == hex_sha256(encode_utf8(self@)),
            is_sha256_text(r@),
    {
        proof {
            use_type_invariant(self);
        }
        self.sha256.as_str()
    }

    /// The manifest as text.
    pub fn as_str(&self) -> (r: &str)
        ensures
            r@ == self@,
    {
        self.text.as_str()
    }

    /// Derives the public manifest from the committed `gallery.json` of a local
    /// publication. The journal authenticates the active pair before any
    /// transformation, so the derivation can never silently use a tampered or
    /// stale `gallery.json`.
    pub fn derive_from_committed_output(
        configuration: &ProjectPublicationConfig,
        journal: &JournalRecord,
        gallery: &Option<Vec<u8>>,
        state: &Option<Vec<u8>>,
    ) -> (r: Result<PublicGalleryManifest, ManifestError>)
        ensures
            ({
                let local = LocalView {
                    generation: journal@.generation,
                    state_hash: journal@.state_sha256,
                    manifest_hash: journal@.gallery_sha256,
                };
                match committed_pair_error(journal@, file_view(*gallery), file_view(*state)) {
                    Some(e) => r matches Err(f) && f == ManifestError::Local(e),
                    None => match local_error(local) {
                        Some(e) => r matches Err(f) && f == ManifestError::Local(e),
                        None => match (
                            public_manifest(
                                file_view(*gallery)->0,
                                configuration.preview_public_base_url@,
                                configuration.high_resolution_public_base_url@,
                            ),
                            r,
                        ) {
                            (Ok(text), Ok(manifest)) => manifest@ == text,
                            (Err(e), Err(f)) => e == f,
                            _ => false,
                        },
                    },
                }
            }),
            r matches Ok(manifest) ==> numbers_are_integers(
                json_document(file_view(*gallery)->0)->0,
                127,
            )
                ==> json_document(encode_utf8(manifest@)) == Some(
                public_gallery(
                    json_document(file_view(*gallery)->0)->0,
                    configuration.preview_public_base_url@,
                    configuration.high_resolution_public_base_url@,
                )->Ok_0,
            ),
            r matches Ok(manifest) ==> exists|made: JsonView| #[trigger]
                json_text(made) == manifest@ && is_public_form(
                    made,
                    json_document(file_view(*gallery)->0)->0,
                    configuration.preview_public_base_url@,
                    configuration.high_resolution_public_base_url@,
                ),
    {
        match LocalPublication::from_output(journal, gallery, state) {
            Ok(_) => {},
            Err(e) => {
                return Err(ManifestError::Local(e));
            },
        }
        match gallery {
            Some(bytes) => PublicGalleryManifest::derive(bytes.as_slice(), configuration),
            None => Err(ManifestError::NotJson),
        }
    }
}

// ---------------------------------------------------------------------------
// The final bundle
// ---------------------------------------------------------------------------
/// Why no final bundle can be composed.
#[derive(Debug, PartialEq, Eq)]
pub enum ComposeError {
    /// The manifest does not conform to the gallery schema.
    InvalidManifest,
    Bundle(ProviderError),
}

/// The template files without its own `gallery.json`, and the public manifest.
pub open spec fn composed_files(template: Seq<(Seq<char>, Seq<u8>)>, manifest: Seq<u8>) -> Seq<
    (Seq<char>, Seq<u8>),
> {
    template.filter(|f: (Seq<char>, Seq<u8>)| f.0 != "gallery.json"@).push(
        ("gallery.json"@, manifest),
    )
}

/// Composes the final application bundle: the template files plus the public
/// `gallery.json` at the canonical root path. `conforms` says whether the
/// manifest conforms to the gallery schema; one that does not can never enter a
/// bundle. A template file named `gallery.json` is replaced.
pub fn compose_application_bundle(
    template: &ApplicationBundle,
    manifest: &PublicGalleryManifest,
    conforms: bool,
) -> (r: Result<ApplicationBundle, ComposeError>)
    ensures
        !conforms ==> r matches Err(ComposeError::InvalidManifest),
        conforms ==> ({
            let files = composed_files(template@.files, encode_utf8(manifest@));
            match (given_files_error(files, 0), r) {
                (None, Ok(bundle)) => bundle@ == bundle_of(files),
                (Some(e), Err(ComposeError::Bundle(f))) => f@ == e,
                _ => false,
            }
        }),
        r is Ok <==> conforms,
        r matches Ok(bundle) ==> content_at(bundle@.files, "gallery.json"@) == Some(
            encode_utf8(manifest@),
        ),
        r matches Ok(bundle) ==> forall|path: Seq<char>|
            path != "gallery.json"@ ==> #[trigger] content_at(bundle@.files, path) == content_at(
                template@.files,
                path,
            ),
{
    if !conforms {
        return Err(ComposeError::InvalidManifest);
    }
    let files: &[ApplicationBundleFile] = template.files();
    let ghost all = template@.files;
    let ghost keep = |f: (Seq<char>, Seq<u8>)| f.0 != "gallery.json"@;
    let mut given: Vec<(String, Vec<u8>)> = Vec::new();
    let mut i: usize = 0;
    proof {
        reveal(Seq::filter);
        assert(given_files(given@) =~= all.take(0).filter(keep));
    }
    while i < files.len()
        invariant
            i <= files@.len(),
            all == files_view(files@),
            keep == (|f: (Seq<char>, Seq<u8>)| f.0 != "gallery.json"@),
            given_files(given@) == all.take(i as int).filter(keep),
            forall|j: int| 0 <= j < i ==> is_portable_path((#[trigger] all[j]).0),
        decreases files@.len() - i,
    {
        let ghost before = given_files(given@);
        proof {
            reveal(Seq::filter);
            assert(all[i as int] == files@[i as int]@);
            assert(all.take(i as int + 1).drop_last() =~= all.take(i as int));
            assert(all.take(i as int + 1).last() == all[i as int]);
        }
        let path: &str = files[i].path().as_str();
        if !same_text(path, "gallery.json") {
            given.push(
                (
                    path.to_owned(),
                    vstd::slice::slice_to_vec(files[i].content()),
                ),
            );
            proof {
                assert(given_files(given@) =~= before.push(all[i as int]));
            }
        }
        i = i + 1;
    }
    let ghost kept = given_files(given@);
    proof {
        assert(all.take(all.len() as int) =~= all);
    }
    given.push(("gallery.json".to_owned(), vstd::slice::slice_to_vec(manifest.bytes())));
    proof {
        assert(given_files(given@) =~= kept.push(("gallery.json"@, encode_utf8(manifest@))));
        assert(given_files(given@) == composed_files(template@.files, encode_utf8(manifest@)));
        let composed = bundle_of(composed_files(all, encode_utf8(manifest@))).files;
        law_composed_site_holds_manifest_and_template(all, encode_utf8(manifest@), "gallery.json"@);
        assert forall|path: Seq<char>| path != "gallery.json"@ implies #[trigger] content_at(
            composed,
            path,
        ) == content_at(all, path) by {
            law_composed_site_holds_manifest_and_template(all, encode_utf8(manifest@), path);
        }
    }
    match ApplicationBundle::from_files(given) {
        Ok(bundle) => Ok(bundle),
        Err(e) => Err(ComposeError::Bundle(e)),
    }
}

} // verus!
