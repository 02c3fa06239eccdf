//! What the local pipeline hands on: the assets of a built gallery have
//! publication paths, the gallery has a public manifest, and its downloads and
//! previews are bound to what is desired remotely.

use crate::bundle::BundleView;
use crate::committed::{
    committed_desired, committed_local, committed_photos, effective_prefix, extension_of,
    high_resolution_objects, lemma_source_bytes, objects_from, observed_at, output_error,
    path_error, photo_object, photo_preview, prefixed, preview_files, previews_from, source_bytes,
    stem_of, with_files, with_objects, CommittedError, CommittedView,
};
use crate::config::{configuration_fingerprint_text, ProjectPublicationConfig};
use crate::file_source::{FileObservation, FileObservationView};
use crate::gallery::{
    download_url, gallery_json, lemma_after_last, lemma_asset_members, lemma_gallery_photos,
    lemma_photo_members, photo_json, preview_url, ProcessedDimensions, SourcePhoto,
};
use crate::journal::journal_error;
use crate::json::{json_document, member};
use crate::manifest::{public_asset, public_gallery, public_photo, public_photos};
use crate::paths::{is_component, is_plain_component, is_portable_path};
use crate::planner::{
    bundle_members, committed_pair_error, local_error, DesiredFileView, DesiredObjectView,
    LocalView, SourceView,
};
use crate::site::lemma_replaced;
use crate::text::{before_last, has_dot_dot, has_prefix, is_hex_digit, is_sha256_text, option_text};
use vstd::prelude::*;

verus! {

// ---------------------------------------------------------------------------
// Paths
// ---------------------------------------------------------------------------
/// A longer text without separators is a portable path.
proof fn lemma_single_component(c: Seq<char>)
    requires
        c.len() > 2,
        forall|i: int|
            0 <= i < c.len() ==> #[trigger] c[i] != '/' && c[i] != '\\' && c[i] != ':',
    ensures
        is_portable_path(c),
{
    assert(seq!['.'].len() == 1 && seq!['.', '.'].len() == 2);
    assert(is_plain_component(c));
    assert forall|i: int, j: int| #[trigger] is_component(c, i, j) implies is_plain_component(
        c.subrange(i, j),
    ) by {
        if i > 0 {
            assert(c[i - 1] == '/');
        }
        if j < c.len() {
            assert(c[j] == '/');
        }
        assert(c.subrange(0, c.len() as int) =~= c);
    }
}

/// A portable path below a portable path is portable.
pub proof fn law_joined_paths_are_portable(a: Seq<char>, b: Seq<char>)
    requires
        is_portable_path(a),
        is_portable_path(b),
    ensures
        is_portable_path(a + "/"@ + b),
{
    reveal_strlit("/");
    let s = a + "/"@ + b;
    let n = a.len() as int;
    assert(s[n] == '/');
    assert forall|i: int, j: int| #[trigger] is_component(s, i, j) implies is_plain_component(
        s.subrange(i, j),
    ) by {
        if j <= n {
            assert(is_component(a, i, j)) by {
                if i > 0 {
                    assert(s[i - 1] == a[i - 1]);
                }
                if j < n {
                    assert(s[j] == a[j]);
                }
                assert forall|k: int| i <= k < j implies a[k] != '/' by {
                    assert(s[k] == a[k]);
                }
            }
            assert(s.subrange(i, j) =~= a.subrange(i, j));
        } else {
            if i <= n {
                assert(s[n] != '/');
            }
            assert(is_component(b, i - n - 1, j - n - 1)) by {
                if i > n + 1 {
                    assert(s[i - 1] == b[i - n - 2]);
                }
                if j < s.len() {
                    assert(s[j] == b[j - n - 1]);
                }
                assert forall|k: int| i - n - 1 <= k < j - n - 1 implies b[k] != '/' by {
                    assert(s[k + n + 1] == b[k]);
                }
            }
            assert(s.subrange(i, j) =~= b.subrange(i - n - 1, j - n - 1));
        }
    }
}

proof fn lemma_fixed_directories()
    ensures
        is_portable_path("photos/preview"@),
        is_portable_path("photos/download"@),
{
    reveal_strlit("photos");
    reveal_strlit("preview");
    reveal_strlit("download");
    reveal_strlit("/");
    reveal_strlit("photos/preview");
    reveal_strlit("photos/download");
    lemma_single_component("photos"@);
    lemma_single_component("preview"@);
    lemma_single_component("download"@);
    law_joined_paths_are_portable("photos"@, "preview"@);
    law_joined_paths_are_portable("photos"@, "download"@);
    assert("photos"@ + "/"@ + "preview"@ =~= "photos/preview"@);
    assert("photos"@ + "/"@ + "download"@ =~= "photos/download"@);
}

/// What a file name made of a digest and `.jpg` is.
proof fn lemma_digest_name(sha256: Seq<char>)
    requires
        is_sha256_text(sha256),
    ensures
        ({
            let name = sha256 + ".jpg"@;
            &&& is_portable_path(name)
            &&& name.len() == 68
            &&& forall|i: int| 0 <= i < 64 ==> #[trigger] name[i] != '.' && name[i] != '/'
            &&& name[64] == '.' && name[65] == 'j' && name[66] == 'p' && name[67] == 'g'
        }),
{
    reveal_strlit(".jpg");
    let name = sha256 + ".jpg"@;
    assert forall|i: int| 0 <= i < name.len() implies #[trigger] name[i] != '/' && name[i] != '\\'
        && name[i] != ':' && (i < 64 ==> name[i] != '.') by {
        if i < sha256.len() {
            assert(is_hex_digit(sha256[i]));
            assert(name[i] == sha256[i]);
        }
    }
    lemma_single_component(name);
}

proof fn lemma_asset_url(directory: Seq<char>, url: Seq<char>, sha256: Seq<char>)
    requires
        is_sha256_text(sha256),
        is_portable_path(directory),
        has_prefix(directory, "photos/"@),
        forall|i: int| 0 <= i < directory.len() ==> #[trigger] directory[i] != '.',
        url == directory + "/"@ + sha256 + ".jpg"@,
    ensures
        path_error(url) is None,
        stem_of(url) == Some(sha256),
        extension_of(url) == "jpg"@,
{
    let name = sha256 + ".jpg"@;
    let n = directory.len() as int;
    reveal_strlit("/");
    reveal_strlit(".jpg");
    reveal_strlit("jpg");
    reveal_strlit("photos/");
    lemma_digest_name(sha256);
    law_joined_paths_are_portable(directory, name);
    assert(url =~= directory + "/"@ + name);
    assert(!has_dot_dot(url)) by {
        if has_dot_dot(url) {
            let i = choose|i: int|
                0 <= i < url.len() - 1 && #[trigger] url[i] == '.' && url[i + 1] == '.';
            if i < n {
                assert(url[i] == directory[i]);
            } else if i > n {
                assert(url[i] == name[i - n - 1]);
                assert(url[i + 1] == name[i - n]);
            }
        }
    }
    assert(url.take(7) =~= directory.take(7));
    assert forall|i: int| 0 <= i < name.len() implies #[trigger] name[i] != '/' by {}
    lemma_after_last(directory + "/"@, name, '/');
    assert(name =~= (sha256 + seq!['.']) + "jpg"@);
    lemma_after_last(sha256 + seq!['.'], "jpg"@, '.');
    assert(name.drop_last().drop_last().drop_last().drop_last() =~= sha256);
    reveal_with_fuel(before_last, 5);
}

/// The preview and the download of a photo have publication paths, and are JPEG
/// files named after the digest of the photo.
pub proof fn law_made_assets_have_publication_paths(sha256: Seq<char>)
    requires
        is_sha256_text(sha256),
    ensures
        path_error(preview_url(sha256)) is None,
        path_error(download_url(sha256)) is None,
        stem_of(preview_url(sha256)) == Some(sha256),
        stem_of(download_url(sha256)) == Some(sha256),
        extension_of(preview_url(sha256)) == "jpg"@,
{
    reveal_strlit("/");
    reveal_strlit("photos/");
    reveal_strlit("photos/preview");
    reveal_strlit("photos/preview/");
    reveal_strlit("photos/download");
    reveal_strlit("photos/download/");
    lemma_fixed_directories();
    assert("photos/preview"@.take(7) =~= "photos/"@);
    assert("photos/download"@.take(7) =~= "photos/"@);
    assert("photos/preview/"@ =~= "photos/preview"@ + "/"@);
    assert("photos/download/"@ =~= "photos/download"@ + "/"@);
    lemma_asset_url("photos/preview"@, preview_url(sha256), sha256);
    lemma_asset_url("photos/download"@, download_url(sha256), sha256);
}

// ---------------------------------------------------------------------------
// The public manifest
// ---------------------------------------------------------------------------
/// Whether the photos are named by digests.
pub open spec fn photos_have_digests(photos: Seq<(SourcePhoto, ProcessedDimensions)>) -> bool {
    forall|i: int| 0 <= i < photos.len() ==> is_sha256_text((#[trigger] photos[i]).0.sha256@)
}

proof fn lemma_made_photo_goes_public(
    photo: (SourcePhoto, ProcessedDimensions),
    index: int,
    preview: Seq<char>,
    download: Seq<char>,
)
    requires
        is_sha256_text(photo.0.sha256@),
    ensures
        public_photo(photo_json(photo, index), preview, download) is Ok,
{
    let sha256 = photo.0.sha256@;
    let members = photo_json(photo, index)->Object_0;
    law_made_assets_have_publication_paths(sha256);
    lemma_photo_members(photo, index);
    lemma_asset_members(preview_url(sha256), photo.1.preview_width, photo.1.preview_height);
    lemma_asset_members(download_url(sha256), photo.1.orig_width, photo.1.orig_height);
    reveal_strlit("preview");
    reveal_strlit("download");
    assert("preview"@ != "download"@) by {
        assert("preview"@.len() != "download"@.len());
    }
    let first = public_asset(member(members, "preview"@)->0, preview);
    assert(first is Ok);
    lemma_replaced(members, "preview"@, first->Ok_0, "download"@);
}

proof fn lemma_made_photos_go_public(
    photos: Seq<(SourcePhoto, ProcessedDimensions)>,
    preview: Seq<char>,
    download: Seq<char>,
    i: int,
)
    requires
        photos_have_digests(photos),
        0 <= i <= photos.len(),
    ensures
        public_photos(
            Seq::new(photos.len(), |j: int| photo_json(photos[j], j)),
            preview,
            download,
            i,
        ) is Ok,
    decreases photos.len() - i,
{
    if i < photos.len() {
        lemma_made_photo_goes_public(photos[i], i, preview, download);
        lemma_made_photos_go_public(photos, preview, download, i + 1);
    }
}

/// Every gallery that was made of photos has a public form, whatever the bases.
pub proof fn law_created_gallery_goes_public(
    title: Seq<char>,
    photos: Seq<(SourcePhoto, ProcessedDimensions)>,
    preview: Seq<char>,
    download: Seq<char>,
)
    requires
        photos_have_digests(photos),
    ensures
        public_gallery(gallery_json(title, photos), preview, download) is Ok,
{
    lemma_gallery_photos(title, photos);
    lemma_made_photos_go_public(photos, preview, download, 0);
}

// ---------------------------------------------------------------------------
// The bindings
// ---------------------------------------------------------------------------
/// The storage object of a photo below a prefix.
pub open spec fn bound_download(photo: SourcePhoto, prefix: Seq<char>) -> DesiredObjectView {
    DesiredObjectView {
        key: prefixed(prefix, download_url(photo.sha256@)),
        source_path: download_url(photo.sha256@),
        sha256: photo.sha256@,
        size_bytes: photo.bytes,
        content_type: Some("image/jpeg"@),
    }
}

/// The repository file of a photo below a prefix, given what was seen of its
/// preview.
pub open spec fn bound_preview(
    photo: SourcePhoto,
    prefix: Seq<char>,
    size_bytes: u64,
    sha256: Seq<char>,
) -> DesiredFileView {
    DesiredFileView {
        path: prefixed(prefix, preview_url(photo.sha256@)),
        sha256,
        size_bytes,
        source: SourceView::PublicationFile(preview_url(photo.sha256@)),
    }
}

/// Whether a prefix can stand before a path: it is empty or a portable path.
pub open spec fn is_usable_prefix(prefix: Seq<char>) -> bool {
    prefix.len() == 0 || is_portable_path(prefix)
}

/// Whether the downloads of photos are found as exact copies of their sources,
/// and the sources know them.
pub open spec fn downloads_as_made(
    photos: Seq<(SourcePhoto, ProcessedDimensions)>,
    seen: Seq<FileObservation>,
    sources: Seq<SourcePhoto>,
) -> bool {
    forall|i: int|
        0 <= i < photos.len() ==> {
            let photo = (#[trigger] photos[i]).0;
            &&& observed_at(seen, i) == (FileObservationView::Read {
                declared_size: photo.bytes,
                bytes_read: photo.bytes,
                sha256: photo.sha256@,
            })
            &&& source_bytes(sources, photo.sha256@) == Some(photo.bytes)
        }
}

/// Whether the previews of photos are found and were read whole, and the sources
/// know the photos.
pub open spec fn previews_as_made(
    photos: Seq<(SourcePhoto, ProcessedDimensions)>,
    seen: Seq<FileObservation>,
    sources: Seq<SourcePhoto>,
) -> bool {
    forall|i: int|
        0 <= i < photos.len() ==> {
            &&& observed_at(seen, i) matches FileObservationView::Read {
                declared_size,
                bytes_read,
                sha256,
            }
            &&& declared_size == bytes_read
            &&& is_sha256_text(sha256)
            &&& source_bytes(sources, (#[trigger] photos[i]).0.sha256@) is Some
        }
}

proof fn lemma_prefixed(prefix: Seq<char>, url: Seq<char>)
    requires
        is_usable_prefix(prefix),
        path_error(url) is None,
    ensures
        is_portable_path(prefixed(prefix, url)),
{
    if prefix.len() > 0 {
        law_joined_paths_are_portable(prefix, url);
    }
}

proof fn lemma_download_binds(
    photos: Seq<(SourcePhoto, ProcessedDimensions)>,
    prefix: Seq<char>,
    seen: Seq<FileObservation>,
    sources: Seq<SourcePhoto>,
    i: int,
)
    requires
        photos_have_digests(photos),
        downloads_as_made(photos, seen, sources),
        is_usable_prefix(prefix),
        0 <= i < photos.len(),
    ensures
        photo_object(photo_json(photos[i], i), prefix, observed_at(seen, i), sources) == Ok::<
            Option<DesiredObjectView>,
            CommittedError,
        >(Some(bound_download(photos[i].0, prefix))),
{
    let photo = photos[i];
    let sha256 = photo.0.sha256@;
    law_made_assets_have_publication_paths(sha256);
    lemma_prefixed(prefix, download_url(sha256));
    lemma_photo_members(photo, i);
    lemma_asset_members(download_url(sha256), photo.1.orig_width, photo.1.orig_height);
    lemma_source_bytes(sources, sha256);
}

proof fn lemma_downloads_bind(
    photos: Seq<(SourcePhoto, ProcessedDimensions)>,
    prefix: Seq<char>,
    seen: Seq<FileObservation>,
    sources: Seq<SourcePhoto>,
    i: int,
)
    requires
        photos_have_digests(photos),
        downloads_as_made(photos, seen, sources),
        is_usable_prefix(prefix),
        0 <= i <= photos.len(),
    ensures
        objects_from(
            Seq::new(photos.len(), |j: int| photo_json(photos[j], j)),
            prefix,
            seen,
            sources,
            i,
        ) == Ok::<Seq<DesiredObjectView>, CommittedError>(
            Seq::new((photos.len() - i) as nat, |j: int| bound_download(photos[i + j].0, prefix)),
        ),
    decreases photos.len() - i,
{
    let bound = Seq::new(
        (photos.len() - i) as nat,
        |j: int| bound_download(photos[i + j].0, prefix),
    );
    if i < photos.len() {
        lemma_download_binds(photos, prefix, seen, sources, i);
        lemma_downloads_bind(photos, prefix, seen, sources, i + 1);
        let rest = Seq::new(
            (photos.len() - (i + 1)) as nat,
            |j: int| bound_download(photos[i + 1 + j].0, prefix),
        );
        assert(seq![bound_download(photos[i].0, prefix)] + rest =~= bound);
    } else {
        assert(bound =~= Seq::empty());
    }
}

proof fn lemma_preview_binds(
    photos: Seq<(SourcePhoto, ProcessedDimensions)>,
    prefix: Seq<char>,
    seen: Seq<FileObservation>,
    sources: Seq<SourcePhoto>,
    i: int,
)
    requires
        photos_have_digests(photos),
        previews_as_made(photos, seen, sources),
        is_usable_prefix(prefix),
        0 <= i < photos.len(),
    ensures
        photo_preview(photo_json(photos[i], i), prefix, observed_at(seen, i), sources) == Ok::<
            DesiredFileView,
            CommittedError,
        >(
            bound_preview(
                photos[i].0,
                prefix,
                observed_at(seen, i)->Read_declared_size,
                observed_at(seen, i)->Read_sha256,
            ),
        ),
{
    let photo = photos[i];
    let sha256 = photo.0.sha256@;
    law_made_assets_have_publication_paths(sha256);
    lemma_prefixed(prefix, preview_url(sha256));
    lemma_photo_members(photo, i);
    lemma_asset_members(preview_url(sha256), photo.1.preview_width, photo.1.preview_height);
    lemma_source_bytes(sources, sha256);
}

proof fn lemma_previews_bind(
    photos: Seq<(SourcePhoto, ProcessedDimensions)>,
    prefix: Seq<char>,
    seen: Seq<FileObservation>,
    sources: Seq<SourcePhoto>,
    i: int,
)
    requires
        photos_have_digests(photos),
        previews_as_made(photos, seen, sources),
        is_usable_prefix(prefix),
        0 <= i <= photos.len(),
    ensures
        previews_from(
            Seq::new(photos.len(), |j: int| photo_json(photos[j], j)),
            prefix,
            seen,
            sources,
            i,
        ) == Ok::<Seq<DesiredFileView>, CommittedError>(
            Seq::new(
                (photos.len() - i) as nat,
                |j: int|
                    bound_preview(
                        photos[i + j].0,
                        prefix,
                        observed_at(seen, i + j)->Read_declared_size,
                        observed_at(seen, i + j)->Read_sha256,
                    ),
            ),
        ),
    decreases photos.len() - i,
{
    let bound = Seq::new(
        (photos.len() - i) as nat,
        |j: int|
            bound_preview(
                photos[i + j].0,
                prefix,
                observed_at(seen, i + j)->Read_declared_size,
                observed_at(seen, i + j)->Read_sha256,
            ),
    );
    if i < photos.len() {
        lemma_preview_binds(photos, prefix, seen, sources, i);
        lemma_previews_bind(photos, prefix, seen, sources, i + 1);
        let rest = Seq::new(
            (photos.len() - (i + 1)) as nat,
            |j: int|
                bound_preview(
                    photos[i + 1 + j].0,
                    prefix,
                    observed_at(seen, i + 1 + j)->Read_declared_size,
                    observed_at(seen, i + 1 + j)->Read_sha256,
                ),
        );
        assert(seq![bound[0]] + rest =~= bound);
    } else {
        assert(bound =~= Seq::empty());
    }
}

/// Every download of a committed gallery that was made of photos becomes the
/// storage object of its photo, in the order of the photos.
pub proof fn law_created_downloads_are_bound(
    title: Seq<char>,
    photos: Seq<(SourcePhoto, ProcessedDimensions)>,
    prefix: Option<Seq<char>>,
    local: LocalView,
    output: CommittedView,
    seen: Seq<FileObservation>,
)
    requires
        output_error(output, local) is None,
        json_document(output.gallery) == Some(gallery_json(title, photos)),
        photos_have_digests(photos),
        downloads_as_made(photos, seen, output.sources->0),
        is_usable_prefix(effective_prefix(prefix)),
    ensures
        high_resolution_objects(prefix, local, output, seen) == Ok::<
            Seq<DesiredObjectView>,
            CommittedError,
        >(
            Seq::new(
                photos.len(),
                |i: int| bound_download(photos[i].0, effective_prefix(prefix)),
            ),
        ),
{
    lemma_gallery_photos(title, photos);
    lemma_downloads_bind(photos, effective_prefix(prefix), seen, output.sources->0, 0);
    assert(committed_photos(output) == Seq::new(photos.len(), |j: int| photo_json(photos[j], j)));
    assert(Seq::new(
        (photos.len() - 0) as nat,
        |j: int| bound_download(photos[0 + j].0, effective_prefix(prefix)),
    ) =~= Seq::new(photos.len(), |i: int| bound_download(photos[i].0, effective_prefix(prefix))));
}

/// Every preview of a committed gallery that was made of photos becomes the
/// repository file of its photo, in the order of the photos.
pub proof fn law_created_previews_are_bound(
    title: Seq<char>,
    photos: Seq<(SourcePhoto, ProcessedDimensions)>,
    prefix: Option<Seq<char>>,
    local: LocalView,
    output: CommittedView,
    seen: Seq<FileObservation>,
)
    requires
        output_error(output, local) is None,
        json_document(output.gallery) == Some(gallery_json(title, photos)),
        photos_have_digests(photos),
        previews_as_made(photos, seen, output.sources->0),
        is_usable_prefix(effective_prefix(prefix)),
    ensures
        preview_files(prefix, local, output, seen) == Ok::<Seq<DesiredFileView>, CommittedError>(
            Seq::new(
                photos.len(),
                |i: int|
                    bound_preview(
                        photos[i].0,
                        effective_prefix(prefix),
                        observed_at(seen, i)->Read_declared_size,
                        observed_at(seen, i)->Read_sha256,
                    ),
            ),
        ),
{
    let below = effective_prefix(prefix);
    lemma_gallery_photos(title, photos);
    lemma_previews_bind(photos, below, seen, output.sources->0, 0);
    assert(committed_photos(output) == Seq::new(photos.len(), |j: int| photo_json(photos[j], j)));
    assert(Seq::new(
        (photos.len() - 0) as nat,
        |j: int|
            bound_preview(
                photos[0 + j].0,
                below,
                observed_at(seen, 0 + j)->Read_declared_size,
                observed_at(seen, 0 + j)->Read_sha256,
            ),
    ) =~= Seq::new(
        photos.len(),
        |i: int|
            bound_preview(
                photos[i].0,
                below,
                observed_at(seen, i)->Read_declared_size,
                observed_at(seen, i)->Read_sha256,
            ),
    ));
}

// ---------------------------------------------------------------------------
// The whole desired state
// ---------------------------------------------------------------------------
/// Whether no two photos have the same digest.
pub open spec fn photos_differ(photos: Seq<(SourcePhoto, ProcessedDimensions)>) -> bool {
    forall|i: int, j: int|
        0 <= i < j < photos.len() ==> (#[trigger] photos[i]).0.sha256@ != (
        #[trigger] photos[j]).0.sha256@
}

/// The file that is published for the preview of a photo.
pub open spec fn bound_preview_at(
    photos: Seq<(SourcePhoto, ProcessedDimensions)>,
    prefix: Seq<char>,
    seen: Seq<FileObservation>,
    i: int,
) -> DesiredFileView {
    bound_preview(
        photos[i].0,
        prefix,
        observed_at(seen, i)->Read_declared_size,
        observed_at(seen, i)->Read_sha256,
    )
}

proof fn lemma_prefixed_differ(prefix: Seq<char>, directory: Seq<char>, a: Seq<char>, b: Seq<char>)
    requires
        is_sha256_text(a),
        is_sha256_text(b),
        a != b,
    ensures
        prefixed(prefix, directory + a + ".jpg"@) != prefixed(prefix, directory + b + ".jpg"@),
{
    reveal_strlit("/");
    let one = prefixed(prefix, directory + a + ".jpg"@);
    let other = prefixed(prefix, directory + b + ".jpg"@);
    let n: int = if prefix.len() == 0 {
        directory.len() as int
    } else {
        (prefix.len() + 1 + directory.len()) as int
    };
    assert(one.subrange(n, n + 64) =~= a);
    assert(other.subrange(n, n + 64) =~= b);
}

proof fn lemma_objects_fit(
    storage: Map<Seq<char>, DesiredObjectView>,
    objects: Seq<DesiredObjectView>,
)
    requires
        forall|i: int, j: int|
            0 <= i < j < objects.len() ==> (#[trigger] objects[i]).key != (
            #[trigger] objects[j]).key,
        forall|i: int|
            0 <= i < objects.len() ==> !storage.dom().contains((#[trigger] objects[i]).key),
    ensures
        with_objects(storage, objects) matches Some(m) && {
            &&& forall|key: Seq<char>| #[trigger]
                m.dom().contains(key) <==> storage.dom().contains(key) || exists|i: int|
                    0 <= i < objects.len() && (#[trigger] objects[i]).key == key
            &&& forall|i: int|
                0 <= i < objects.len() ==> m[(#[trigger] objects[i]).key] == objects[i]
        },
    decreases objects.len(),
{
    if objects.len() > 0 {
        let before = objects.drop_last();
        let n = before.len() as int;
        assert forall|i: int| 0 <= i < n implies #[trigger] before[i] == objects[i] by {}
        lemma_objects_fit(storage, before);
        let earlier = with_objects(storage, before)->0;
        let last = objects.last();
        assert(objects[n] == last);
        if earlier.dom().contains(last.key) {
            let i = choose|i: int| 0 <= i < n && (#[trigger] before[i]).key == last.key;
            assert(objects[i].key == objects[n].key);
        }
        let m = earlier.insert(last.key, last);
        assert forall|key: Seq<char>| #[trigger]
            m.dom().contains(key) <==> storage.dom().contains(key) || exists|i: int|
                0 <= i < objects.len() && (#[trigger] objects[i]).key == key by {
            if earlier.dom().contains(key) && !storage.dom().contains(key) {
                let i = choose|i: int| 0 <= i < n && (#[trigger] before[i]).key == key;
                assert(objects[i].key == key);
            }
            if exists|i: int| 0 <= i < objects.len() && (#[trigger] objects[i]).key == key {
                let i = choose|i: int| 0 <= i < objects.len() && (#[trigger] objects[i]).key == key;
                if i < n {
                    assert(before[i].key == key);
                }
            }
        }
        assert forall|i: int| 0 <= i < objects.len() implies m[(#[trigger] objects[i]).key]
            == objects[i] by {
            if i < n {
                assert(before[i] == objects[i]);
                assert(objects[i].key != objects[n].key);
            }
        }
    }
}

proof fn lemma_files_fit(
    repository: Map<Seq<char>, DesiredFileView>,
    files: Seq<DesiredFileView>,
)
    requires
        forall|i: int, j: int|
            0 <= i < j < files.len() ==> (#[trigger] files[i]).path != (#[trigger] files[j]).path,
        forall|i: int|
            0 <= i < files.len() ==> !repository.dom().contains((#[trigger] files[i]).path),
    ensures
        with_files(repository, files) matches Some(m) && {
            &&& forall|path: Seq<char>| #[trigger]
                m.dom().contains(path) <==> repository.dom().contains(path) || exists|i: int|
                    0 <= i < files.len() && (#[trigger] files[i]).path == path
            &&& forall|i: int| 0 <= i < files.len() ==> m[(#[trigger] files[i]).path] == files[i]
            &&& forall|path: Seq<char>| #[trigger]
                repository.dom().contains(path) ==> m[path] == repository[path]
        },
    decreases files.len(),
{
    if files.len() > 0 {
        let before = files.drop_last();
        let n = before.len() as int;
        assert forall|i: int| 0 <= i < n implies #[trigger] before[i] == files[i] by {}
        lemma_files_fit(repository, before);
        let earlier = with_files(repository, before)->0;
        let last = files.last();
        assert(files[n] == last);
        if earlier.dom().contains(last.path) {
            let i = choose|i: int| 0 <= i < n && (#[trigger] before[i]).path == last.path;
            assert(files[i].path == files[n].path);
        }
        let m = earlier.insert(last.path, last);
        assert forall|path: Seq<char>| #[trigger]
            m.dom().contains(path) <==> repository.dom().contains(path) || exists|i: int|
                0 <= i < files.len() && (#[trigger] files[i]).path == path by {
            if earlier.dom().contains(path) && !repository.dom().contains(path) {
                let i = choose|i: int| 0 <= i < n && (#[trigger] before[i]).path == path;
                assert(files[i].path == path);
            }
            if exists|i: int| 0 <= i < files.len() && (#[trigger] files[i]).path == path {
                let i = choose|i: int| 0 <= i < files.len() && (#[trigger] files[i]).path == path;
                if i < n {
                    assert(before[i].path == path);
                }
            }
        }
        assert forall|i: int| 0 <= i < files.len() implies m[(#[trigger] files[i]).path]
            == files[i] by {
            if i < n {
                assert(before[i] == files[i]);
                assert(files[i].path != files[n].path);
            }
        }
        assert forall|path: Seq<char>| #[trigger]
            repository.dom().contains(path) implies m[path] == repository[path] by {
            assert(earlier.dom().contains(path));
        }
    }
}

/// What the pipeline committed can be published: of a gallery made of different
/// photos, with its downloads and previews as they were made and a bundle that
/// has no file of its own where a preview goes, the desired state holds the
/// download of every photo in storage, and in the repository the preview of
/// every photo beside the files of the bundle, and nothing else.
pub proof fn law_committed_gallery_can_be_published(
    configuration: ProjectPublicationConfig,
    title: Seq<char>,
    photos: Seq<(SourcePhoto, ProcessedDimensions)>,
    output: CommittedView,
    downloads: Seq<FileObservation>,
    previews: Seq<FileObservation>,
    bundle: BundleView,
)
    requires
        journal_error(output.journal) is None,
        committed_pair_error(output.journal, Some(output.gallery), Some(output.state)) is None,
        output.sources is Some,
        json_document(output.gallery) == Some(gallery_json(title, photos)),
        photos_have_digests(photos),
        photos_differ(photos),
        downloads_as_made(photos, downloads, output.sources->0),
        previews_as_made(photos, previews, output.sources->0),
        is_usable_prefix(effective_prefix(option_text(configuration.high_resolution_prefix))),
        is_usable_prefix(effective_prefix(option_text(configuration.preview_prefix))),
        forall|i: int|
            0 <= i < photos.len() ==> !bundle_members(bundle.files).dom().contains(
                prefixed(
                    effective_prefix(option_text(configuration.preview_prefix)),
                    preview_url((#[trigger] photos[i]).0.sha256@),
                ),
            ),
    ensures
        committed_desired(configuration, output, downloads, previews, bundle) matches Ok(v) && {
            let below = effective_prefix(option_text(configuration.high_resolution_prefix));
            let beside = effective_prefix(option_text(configuration.preview_prefix));
            let members = bundle_members(bundle.files);
            &&& v.local == committed_local(output)
            &&& v.bundle_fingerprint == bundle.fingerprint
            &&& v.configuration_fingerprint == configuration_fingerprint_text(configuration)
            &&& forall|key: Seq<char>| #[trigger]
                v.storage.dom().contains(key) <==> exists|i: int|
                    0 <= i < photos.len() && bound_download((#[trigger] photos[i]).0, below).key
                        == key
            &&& forall|i: int|
                0 <= i < photos.len() ==> {
                    let object = bound_download((#[trigger] photos[i]).0, below);
                    v.storage[object.key] == object
                }
            &&& forall|path: Seq<char>| #[trigger]
                v.repository.dom().contains(path) <==> members.dom().contains(path) || exists|
                    i: int,
                |
                    0 <= i < photos.len() && #[trigger] bound_preview_at(
                        photos,
                        beside,
                        previews,
                        i,
                    ).path == path
            &&& forall|i: int|
                0 <= i < photos.len() ==> {
                    let file = #[trigger] bound_preview_at(photos, beside, previews, i);
                    v.repository[file.path] == file
                }
            &&& forall|path: Seq<char>| #[trigger]
                members.dom().contains(path) ==> v.repository[path] == members[path]
        },
{
    let below = effective_prefix(option_text(configuration.high_resolution_prefix));
    let beside = effective_prefix(option_text(configuration.preview_prefix));
    let local = committed_local(output);
    let members = bundle_members(bundle.files);
    lemma_gallery_photos(title, photos);
    assert(local_error(local) is None) by {
        assert(local.generation[0] == 'g');
    }
    assert(output_error(output, local) is None);
    law_created_downloads_are_bound(
        title,
        photos,
        option_text(configuration.high_resolution_prefix),
        local,
        output,
        downloads,
    );
    law_created_previews_are_bound(
        title,
        photos,
        option_text(configuration.preview_prefix),
        local,
        output,
        previews,
    );
    let objects = Seq::new(photos.len(), |i: int| bound_download(photos[i].0, below));
    let files = Seq::new(
        photos.len(),
        |i: int|
            bound_preview(
                photos[i].0,
                beside,
                observed_at(previews, i)->Read_declared_size,
                observed_at(previews, i)->Read_sha256,
            ),
    );
    assert forall|i: int, j: int| 0 <= i < j < objects.len() implies (#[trigger] objects[i]).key
        != (#[trigger] objects[j]).key by {
        lemma_prefixed_differ(
            below,
            "photos/download/"@,
            photos[i].0.sha256@,
            photos[j].0.sha256@,
        );
    }
    assert forall|i: int, j: int| 0 <= i < j < files.len() implies (#[trigger] files[i]).path != (
    #[trigger] files[j]).path by {
        lemma_prefixed_differ(
            beside,
            "photos/preview/"@,
            photos[i].0.sha256@,
            photos[j].0.sha256@,
        );
    }
    assert forall|i: int| 0 <= i < files.len() implies !members.dom().contains(
        (#[trigger] files[i]).path,
    ) by {
        assert(files[i].path == prefixed(beside, preview_url(photos[i].0.sha256@)));
    }
    lemma_objects_fit(Map::empty(), objects);
    lemma_files_fit(members, files);
    let v = committed_desired(configuration, output, downloads, previews, bundle)->Ok_0;
    assert forall|i: int| 0 <= i < photos.len() implies #[trigger] objects[i] == bound_download(
        photos[i].0,
        below,
    ) by {}
    assert forall|i: int| 0 <= i < photos.len() implies #[trigger] bound_preview_at(
        photos,
        beside,
        previews,
        i,
    ) == files[i] by {}
    assert forall|key: Seq<char>| #[trigger]
        v.storage.dom().contains(key) <==> exists|i: int|
            0 <= i < photos.len() && bound_download((#[trigger] photos[i]).0, below).key == key by {
        if v.storage.dom().contains(key) {
            let i = choose|i: int| 0 <= i < objects.len() && (#[trigger] objects[i]).key == key;
            assert(bound_download(photos[i].0, below).key == key);
        }
        if exists|i: int|
            0 <= i < photos.len() && bound_download((#[trigger] photos[i]).0, below).key == key {
            let i = choose|i: int|
                0 <= i < photos.len() && bound_download((#[trigger] photos[i]).0, below).key == key;
            assert(objects[i].key == key);
        }
    }
    assert forall|i: int| 0 <= i < photos.len() implies {
        let object = bound_download((#[trigger] photos[i]).0, below);
        v.storage[object.key] == object
    } by {
        assert(objects[i] == bound_download(photos[i].0, below));
    }
    assert forall|path: Seq<char>| #[trigger]
        v.repository.dom().contains(path) <==> members.dom().contains(path) || exists|i: int|
            0 <= i < photos.len() && #[trigger] bound_preview_at(photos, beside, previews, i).path
                == path by {
        if v.repository.dom().contains(path) && !members.dom().contains(path) {
            let i = choose|i: int| 0 <= i < files.len() && (#[trigger] files[i]).path == path;
            assert(bound_preview_at(photos, beside, previews, i).path == path);
        }
        if exists|i: int|
            0 <= i < photos.len() && #[trigger] bound_preview_at(photos, beside, previews, i).path
                == path {
            let i = choose|i: int|
                0 <= i < photos.len() && #[trigger] bound_preview_at(
                    photos,
                    beside,
                    previews,
                    i,
                ).path == path;
            assert(files[i].path == path);
        }
    }
    assert forall|i: int| 0 <= i < photos.len() implies {
        let file = #[trigger] bound_preview_at(photos, beside, previews, i);
        v.repository[file.path] == file
    } by {
        assert(files[i] == bound_preview_at(photos, beside, previews, i));
    }
}

} // verus!
