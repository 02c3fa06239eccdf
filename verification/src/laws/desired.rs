//! What a committed publication asks for: its downloads in storage, its previews
//! and the files of the bundle in the repository.

use crate::bundle::BundleView;
use crate::committed::{
    committed_desired, committed_local, committed_photos, download_object, download_of,
    effective_prefix, extension_of, high_resolution_objects, objects_from, observed_at,
    output_error, path_error, photo_object, photo_preview, prefixed, preview_files, preview_of,
    previews_from, read_asset, source_bytes, stem_of, with_files, with_objects, CommittedError,
    CommittedView, DownloadView,
};
use crate::config::{configuration_fingerprint_text, ProjectPublicationConfig};
use crate::digest::hex_sha256;
use crate::file_source::{FileObservation, FileObservationView};
use crate::gallery::{as_items, as_text, nested, SourcePhoto};
use crate::inventory::{has_key, key_position, keys_ascend, lemma_key_position};
use crate::journal::{journal_error, JournalPhase};
use crate::json::{field, json_document, JsonView};
use crate::laws::journal::{is_digest, lemma_digest};
use crate::laws::texts::{law_split_at_last, law_trailing_slashes_are_taken_off};
use crate::paths::{is_portable_path, is_publication_path};
use crate::planner::{
    desired_of, DesiredFileView, DesiredObjectView, DesiredView, LocalView, SourceView,
};
use crate::text::{after_last, before_last, option_text};
use vstd::prelude::*;

verus! {

// ---------------------------------------------------------------------------
// Names
// ---------------------------------------------------------------------------
/// Whether a text is a prefix without the slashes at its end; empty for none.
pub open spec fn is_trimmed(base: Seq<char>, prefix: Option<Seq<char>>) -> bool {
    match prefix {
        None => base.len() == 0,
        Some(p) => {
            &&& base.len() <= p.len()
            &&& p.take(base.len() as int) == base
            &&& forall|i: int| base.len() <= i < p.len() ==> #[trigger] p[i] == '/'
            &&& base.len() > 0 ==> base.last() != '/'
        },
    }
}

/// Whether a name is that of a publication path below a configured prefix: the
/// prefix without its trailing slashes, one slash, and the path; the path alone
/// where the prefix is empty.
pub open spec fn is_below(name: Seq<char>, prefix: Option<Seq<char>>, url: Seq<char>) -> bool {
    exists|base: Seq<char>| #[trigger]
        is_trimmed(base, prefix) && name == if base.len() == 0 {
            url
        } else {
            base + seq!['/'] + url
        }
}

proof fn lemma_below(prefix: Option<Seq<char>>, url: Seq<char>)
    ensures
        is_below(prefixed(effective_prefix(prefix), url), prefix, url),
{
    let base = effective_prefix(prefix);
    match prefix {
        Some(p) => {
            law_trailing_slashes_are_taken_off(p);
        },
        None => {},
    }
    assert(is_trimmed(base, prefix));
    reveal_strlit("/");
    assert("/"@ =~= seq!['/']);
}

/// A name is below at most one prefix and path: the trimmed prefix is determined.
pub proof fn law_name_below_a_prefix_is_determined(
    a: Seq<char>,
    b: Seq<char>,
    prefix: Option<Seq<char>>,
    url: Seq<char>,
)
    requires
        is_below(a, prefix, url),
        is_below(b, prefix, url),
    ensures
        a == b,
{
    let x = choose|x: Seq<char>| #[trigger]
        is_trimmed(x, prefix) && a == if x.len() == 0 {
            url
        } else {
            x + seq!['/'] + url
        };
    let y = choose|y: Seq<char>| #[trigger]
        is_trimmed(y, prefix) && b == if y.len() == 0 {
            url
        } else {
            y + seq!['/'] + url
        };
    if prefix is Some {
        let p = prefix->0;
        if x.len() < y.len() {
            assert(p.take(y.len() as int).last() == p[y.len() - 1]);
            assert(p[y.len() - 1] == '/');
        } else if y.len() < x.len() {
            assert(p.take(x.len() as int).last() == p[x.len() - 1]);
            assert(p[x.len() - 1] == '/');
        }
        assert(x == y);
    } else {
        assert(x =~= y);
    }
}

// ---------------------------------------------------------------------------
// One photo
// ---------------------------------------------------------------------------
/// Whether a file was read whole: as many bytes as its size says, with a digest.
pub open spec fn was_read(seen: FileObservationView, size: u64, sha256: Seq<char>) -> bool {
    match seen {
        FileObservationView::Read { declared_size, bytes_read, sha256: digest } => declared_size
            == size && bytes_read == size && digest == sha256,
        FileObservationView::NotRewound { declared_size, bytes_read, sha256: digest, .. } =>
            declared_size == size && bytes_read == size && digest == sha256,
        _ => false,
    }
}

/// A storage object that a photo asks for is its download: under the key that its
/// URL has below the high-resolution prefix, from the file at its URL, with the size
/// and the digest of what was read there, as a JPEG. The file is named after that
/// digest, and a source photo has that digest and that size.
pub proof fn law_object_is_the_download(
    photo: JsonView,
    prefix: Option<Seq<char>>,
    seen: FileObservationView,
    sources: Seq<SourcePhoto>,
    object: DesiredObjectView,
)
    requires
        photo_object(photo, effective_prefix(prefix), seen, sources) == Ok::<
            Option<DesiredObjectView>,
            CommittedError,
        >(Some(object)),
    ensures
        as_text(nested(photo, "download"@, "url"@)) == Some(object.source_path),
        is_below(object.key, prefix, object.source_path),
        is_publication_path(object.source_path),
        is_portable_path(object.key),
        was_read(seen, object.size_bytes, object.sha256),
        object.content_type == Some("image/jpeg"@),
        exists|i: int|
            0 <= i < sources.len() && (#[trigger] sources[i]).sha256@ == object.sha256
                && sources[i].bytes == object.size_bytes,
        exists|start: Seq<char>, extension: Seq<char>|
            object.source_path == #[trigger] (start + seq!['/'] + object.sha256 + seq!['.']
                + extension) && !extension.contains('/') && !extension.contains('.'),
{
    let download = download_of(photo, effective_prefix(prefix))->Ok_0->0;
    lemma_below(prefix, download.url);
    lemma_source_bytes(sources, object.sha256);
    lemma_stem(download.url);
}

proof fn lemma_source_bytes(sources: Seq<SourcePhoto>, sha256: Seq<char>)
    requires
        source_bytes(sources, sha256) is Some,
    ensures
        exists|i: int|
            0 <= i < sources.len() && (#[trigger] sources[i]).sha256@ == sha256
                && sources[i].bytes == source_bytes(sources, sha256)->0,
    decreases sources.len(),
{
    if sources[0].sha256@ == sha256 {
        assert(sources[0].bytes == source_bytes(sources, sha256)->0);
    } else {
        let rest = sources.drop_first();
        lemma_source_bytes(rest, sha256);
        let i = choose|i: int|
            0 <= i < rest.len() && (#[trigger] rest[i]).sha256@ == sha256 && rest[i].bytes
                == source_bytes(rest, sha256)->0;
        assert(sources[i + 1] == rest[i]);
    }
}

proof fn lemma_stem(url: Seq<char>)
    requires
        stem_of(url) is Some,
        path_error(url) is None,
    ensures
        exists|start: Seq<char>, extension: Seq<char>|
            url == #[trigger] (start + seq!['/'] + stem_of(url)->0 + seq!['.'] + extension)
                && !extension.contains('/') && !extension.contains('.') && extension
                == extension_of(url),
{
    let name = after_last(url, '/');
    law_split_at_last(url, '/');
    law_split_at_last(name, '.');
    let stem = stem_of(url)->0;
    let extension = after_last(name, '.');
    reveal_strlit("photos/");
    assert(url.subrange(0, 7)[6] == "photos/"@[6]);
    assert(url[6] == '/');
    assert(url.contains('/'));
    let start = before_last(url, '/')->0;
    assert(url =~= start + seq!['/'] + stem + seq!['.'] + extension);
    assert(!extension.contains('/')) by {
        if extension.contains('/') {
            let i = choose|i: int| 0 <= i < extension.len() && extension[i] == '/';
            assert(name[stem.len() + 1 + i] == '/');
        }
    }
}

/// A repository file that a photo asks for is its preview: at the path that its URL
/// has below the preview prefix, from the file at its URL, with the size and the
/// digest of what was read there. The file is a JPEG named after the digest of a
/// source photo.
pub proof fn law_file_is_the_preview(
    photo: JsonView,
    prefix: Option<Seq<char>>,
    seen: FileObservationView,
    sources: Seq<SourcePhoto>,
    file: DesiredFileView,
)
    requires
        photo_preview(photo, effective_prefix(prefix), seen, sources) == Ok::<
            DesiredFileView,
            CommittedError,
        >(file),
    ensures
        file.source is PublicationFile,
        as_text(nested(photo, "preview"@, "url"@)) == Some(file.source->PublicationFile_0),
        is_below(file.path, prefix, file.source->PublicationFile_0),
        is_publication_path(file.source->PublicationFile_0),
        is_portable_path(file.path),
        was_read(seen, file.size_bytes, file.sha256),
        exists|i: int, start: Seq<char>|
            0 <= i < sources.len() && file.source->PublicationFile_0 == #[trigger] (start + seq![
                '/',
            ] + (#[trigger] sources[i]).sha256@ + seq!['.'] + "jpg"@),
{
    let preview = preview_of(photo, effective_prefix(prefix), sources)->Ok_0;
    lemma_below(prefix, preview.url);
    lemma_stem(preview.url);
    let (start, extension) = choose|start: Seq<char>, extension: Seq<char>|
        preview.url == #[trigger] (start + seq!['/'] + stem_of(preview.url)->0 + seq!['.']
            + extension) && !extension.contains('/') && !extension.contains('.') && extension
            == extension_of(preview.url);
    let i = choose|i: int|
        0 <= i < sources.len() && (#[trigger] sources[i]).sha256@ == stem_of(preview.url)->0;
    assert(preview.url == start + seq!['/'] + sources[i].sha256@ + seq!['.'] + "jpg"@);
}

// ---------------------------------------------------------------------------
// All photos
// ---------------------------------------------------------------------------
proof fn lemma_objects_from(
    photos: Seq<JsonView>,
    prefix: Seq<char>,
    seen: Seq<FileObservation>,
    sources: Seq<SourcePhoto>,
    i: int,
)
    requires
        0 <= i <= photos.len(),
        objects_from(photos, prefix, seen, sources, i) is Ok,
    ensures
        ({
            let objects = objects_from(photos, prefix, seen, sources, i)->Ok_0;
            &&& forall|j: int|
                i <= j < photos.len() ==> match photo_object(
                    #[trigger] photos[j],
                    prefix,
                    observed_at(seen, j),
                    sources,
                ) {
                    Ok(Some(object)) => objects.contains(object),
                    Ok(None) => true,
                    Err(_) => false,
                }
            &&& forall|k: int|
                0 <= k < objects.len() ==> exists|j: int|
                    i <= j < photos.len() && photo_object(
                        #[trigger] photos[j],
                        prefix,
                        observed_at(seen, j),
                        sources,
                    ) == Ok::<Option<DesiredObjectView>, CommittedError>(
                        Some(#[trigger] objects[k]),
                    )
        }),
    decreases photos.len() - i,
{
    if i < photos.len() {
        lemma_objects_from(photos, prefix, seen, sources, i + 1);
        let rest = objects_from(photos, prefix, seen, sources, i + 1)->Ok_0;
        let objects = objects_from(photos, prefix, seen, sources, i)->Ok_0;
        let found = photo_object(photos[i], prefix, observed_at(seen, i), sources)->Ok_0;
        match found {
            Some(object) => {
                assert(objects == seq![object] + rest);
                assert(objects[0] == object);
                assert forall|o: DesiredObjectView| rest.contains(o) implies objects.contains(
                    o,
                ) by {
                    let k = choose|k: int| 0 <= k < rest.len() && rest[k] == o;
                    assert(objects[k + 1] == o);
                }
                assert forall|k: int| 0 <= k < objects.len() implies exists|j: int|
                    i <= j < photos.len() && photo_object(
                        #[trigger] photos[j],
                        prefix,
                        observed_at(seen, j),
                        sources,
                    ) == Ok::<Option<DesiredObjectView>, CommittedError>(
                        Some(#[trigger] objects[k]),
                    ) by {
                    if k == 0 {
                        assert(photo_object(photos[i], prefix, observed_at(seen, i), sources)
                            == Ok::<Option<DesiredObjectView>, CommittedError>(Some(objects[0])));
                    } else {
                        assert(objects[k] == rest[k - 1]);
                    }
                }
            },
            None => {},
        }
    }
}

proof fn lemma_with_objects(
    storage: Map<Seq<char>, DesiredObjectView>,
    objects: Seq<DesiredObjectView>,
)
    requires
        with_objects(storage, objects) is Some,
    ensures
        ({
            let all = with_objects(storage, objects)->0;
            &&& forall|k: int|
                0 <= k < objects.len() ==> all.dom().contains((#[trigger] objects[k]).key)
                    && all[objects[k].key] == objects[k]
            &&& forall|key: Seq<char>| #[trigger]
                all.dom().contains(key) ==> (storage.dom().contains(key) && all[key]
                    == storage[key]) || objects.contains(all[key]) && all[key].key == key
            &&& forall|key: Seq<char>| #[trigger]
                storage.dom().contains(key) ==> all.dom().contains(key) && all[key] == storage[key]
        }),
    decreases objects.len(),
{
    if objects.len() > 0 {
        let rest = objects.drop_last();
        lemma_with_objects(storage, rest);
        let before = with_objects(storage, rest)->0;
        let all = with_objects(storage, objects)->0;
        assert forall|k: int| 0 <= k < objects.len() implies all.dom().contains(
            (#[trigger] objects[k]).key,
        ) && all[objects[k].key] == objects[k] by {
            if k < rest.len() {
                assert(rest[k] == objects[k]);
            }
        }
        assert forall|key: Seq<char>| #[trigger] all.dom().contains(key) implies (
        storage.dom().contains(key) && all[key] == storage[key]) || objects.contains(all[key])
            && all[key].key == key by {
            if key == objects.last().key {
                assert(objects[objects.len() - 1] == all[key]);
            } else {
                assert(before.dom().contains(key));
                if rest.contains(all[key]) {
                    let k = choose|k: int| 0 <= k < rest.len() && rest[k] == all[key];
                    assert(objects[k] == all[key]);
                }
            }
        }
    }
}

proof fn lemma_with_files(
    repository: Map<Seq<char>, DesiredFileView>,
    files: Seq<DesiredFileView>,
)
    requires
        with_files(repository, files) is Some,
    ensures
        ({
            let all = with_files(repository, files)->0;
            &&& forall|k: int|
                0 <= k < files.len() ==> all.dom().contains((#[trigger] files[k]).path)
                    && all[files[k].path] == files[k]
            &&& forall|path: Seq<char>| #[trigger]
                all.dom().contains(path) ==> (repository.dom().contains(path) && all[path]
                    == repository[path]) || files.contains(all[path]) && all[path].path == path
            &&& forall|path: Seq<char>| #[trigger]
                repository.dom().contains(path) ==> all.dom().contains(path) && all[path]
                    == repository[path]
        }),
    decreases files.len(),
{
    if files.len() > 0 {
        let rest = files.drop_last();
        lemma_with_files(repository, rest);
        let before = with_files(repository, rest)->0;
        let all = with_files(repository, files)->0;
        assert forall|k: int| 0 <= k < files.len() implies all.dom().contains(
            (#[trigger] files[k]).path,
        ) && all[files[k].path] == files[k] by {
            if k < rest.len() {
                assert(rest[k] == files[k]);
            }
        }
        assert forall|path: Seq<char>| #[trigger] all.dom().contains(path) implies (
        repository.dom().contains(path) && all[path] == repository[path]) || files.contains(
            all[path],
        ) && all[path].path == path by {
            if path == files.last().path {
                assert(files[files.len() - 1] == all[path]);
            } else {
                assert(before.dom().contains(path));
                if rest.contains(all[path]) {
                    let k = choose|k: int| 0 <= k < rest.len() && rest[k] == all[path];
                    assert(files[k] == all[path]);
                }
            }
        }
    }
}

proof fn lemma_previews_from(
    photos: Seq<JsonView>,
    prefix: Seq<char>,
    seen: Seq<FileObservation>,
    sources: Seq<SourcePhoto>,
    i: int,
)
    requires
        0 <= i <= photos.len(),
        previews_from(photos, prefix, seen, sources, i) is Ok,
    ensures
        ({
            let files = previews_from(photos, prefix, seen, sources, i)->Ok_0;
            &&& files.len() == photos.len() - i
            &&& forall|j: int|
                i <= j < photos.len() ==> photo_preview(
                    #[trigger] photos[j],
                    prefix,
                    observed_at(seen, j),
                    sources,
                ) == Ok::<DesiredFileView, CommittedError>(files[j - i])
        }),
    decreases photos.len() - i,
{
    if i < photos.len() {
        lemma_previews_from(photos, prefix, seen, sources, i + 1);
        let rest = previews_from(photos, prefix, seen, sources, i + 1)->Ok_0;
        let files = previews_from(photos, prefix, seen, sources, i)->Ok_0;
        assert forall|j: int| i <= j < photos.len() implies photo_preview(
            #[trigger] photos[j],
            prefix,
            observed_at(seen, j),
            sources,
        ) == Ok::<DesiredFileView, CommittedError>(files[j - i]) by {
            if j > i {
                assert(files[j - i] == rest[j - (i + 1)]);
            }
        }
    }
}

/// The photos of a committed gallery document.
pub open spec fn photos_in(gallery: Seq<u8>) -> Option<Seq<JsonView>> {
    match json_document(gallery) {
        Some(document) => as_items(field(document, "photos"@)),
        None => None,
    }
}

/// What a committed publication asks for is of the generation and the pair that its
/// journal committed, under the fingerprints of the configuration and the bundle.
pub proof fn law_desired_is_what_was_committed(
    configuration: ProjectPublicationConfig,
    output: CommittedView,
    downloads: Seq<FileObservation>,
    previews: Seq<FileObservation>,
    bundle: BundleView,
    desired: DesiredView,
)
    requires
        committed_desired(configuration, output, downloads, previews, bundle) == Ok::<
            DesiredView,
            CommittedError,
        >(desired),
    ensures
        journal_error(output.journal) is None,
        output.journal.phase == JournalPhase::Committed,
        desired.local.generation == output.journal.generation,
        desired.local.manifest_hash == hex_sha256(output.gallery),
        desired.local.manifest_hash == output.journal.gallery_sha256,
        desired.local.state_hash == hex_sha256(output.state),
        desired.local.state_hash == output.journal.state_sha256,
        desired.configuration_fingerprint == configuration_fingerprint_text(configuration),
        desired.bundle_fingerprint == bundle.fingerprint,
{
}

/// Every download of a committed gallery is asked for in storage, and nothing else
/// is: each under the key of its URL below the high-resolution prefix, with the digest
/// and the size that were read of it.
pub proof fn law_downloads_are_desired(
    configuration: ProjectPublicationConfig,
    output: CommittedView,
    downloads: Seq<FileObservation>,
    previews: Seq<FileObservation>,
    bundle: BundleView,
    desired: DesiredView,
)
    requires
        committed_desired(configuration, output, downloads, previews, bundle) == Ok::<
            DesiredView,
            CommittedError,
        >(desired),
    ensures
        photos_in(output.gallery) is Some,
        forall|i: int|
            0 <= i < photos_in(output.gallery)->0.len() && field(
                #[trigger] photos_in(output.gallery)->0[i],
                "download"@,
            ) is Some ==> exists|key: Seq<char>| #[trigger]
                desired.storage.dom().contains(key) && is_download(
                    desired.storage[key],
                    key,
                    photos_in(output.gallery)->0[i],
                    option_text(configuration.high_resolution_prefix),
                    observed_at(downloads, i),
                ),
        forall|key: Seq<char>| #[trigger]
            desired.storage.dom().contains(key) ==> exists|i: int|
                0 <= i < photos_in(output.gallery)->0.len() && is_download(
                    desired.storage[key],
                    key,
                    #[trigger] photos_in(output.gallery)->0[i],
                    option_text(configuration.high_resolution_prefix),
                    observed_at(downloads, i),
                ),
{
    let photos = committed_photos(output);
    let prefix = option_text(configuration.high_resolution_prefix);
    let sources = output.sources->0;
    let objects = objects_from(photos, effective_prefix(prefix), downloads, sources, 0)->Ok_0;
    lemma_objects_from(photos, effective_prefix(prefix), downloads, sources, 0);
    lemma_with_objects(Map::empty(), objects);
    assert(photos_in(output.gallery) == Some(photos));
    assert forall|i: int|
        0 <= i < photos.len() && field(#[trigger] photos[i], "download"@) is Some implies exists|
        key: Seq<char>,
    | #[trigger]
        desired.storage.dom().contains(key) && is_download(
            desired.storage[key],
            key,
            photos[i],
            prefix,
            observed_at(downloads, i),
        ) by {
        let object = photo_object(
            photos[i],
            effective_prefix(prefix),
            observed_at(downloads, i),
            sources,
        )->Ok_0->0;
        law_object_is_the_download(photos[i], prefix, observed_at(downloads, i), sources, object);
        let k = choose|k: int| 0 <= k < objects.len() && objects[k] == object;
        assert(desired.storage.dom().contains(objects[k].key));
    }
    assert forall|key: Seq<char>| #[trigger] desired.storage.dom().contains(key) implies exists|
        i: int,
    |
        0 <= i < photos.len() && is_download(
            desired.storage[key],
            key,
            #[trigger] photos[i],
            prefix,
            observed_at(downloads, i),
        ) by {
        let object = desired.storage[key];
        let k = choose|k: int| 0 <= k < objects.len() && objects[k] == object;
        let i = choose|i: int|
            0 <= i < photos.len() && photo_object(
                #[trigger] photos[i],
                effective_prefix(prefix),
                observed_at(downloads, i),
                sources,
            ) == Ok::<Option<DesiredObjectView>, CommittedError>(Some(objects[k]));
        law_object_is_the_download(photos[i], prefix, observed_at(downloads, i), sources, object);
        assert(is_download(object, key, photos[i], prefix, observed_at(downloads, i)));
    }
}

/// Whether an object is the download of a photo, under a key.
pub open spec fn is_download(
    object: DesiredObjectView,
    key: Seq<char>,
    photo: JsonView,
    prefix: Option<Seq<char>>,
    seen: FileObservationView,
) -> bool {
    &&& object.key == key
    &&& as_text(nested(photo, "download"@, "url"@)) == Some(object.source_path)
    &&& is_below(key, prefix, object.source_path)
    &&& was_read(seen, object.size_bytes, object.sha256)
    &&& object.content_type == Some("image/jpeg"@)
}

/// Whether a file is the preview of a photo, at a path.
pub open spec fn is_preview(
    file: DesiredFileView,
    path: Seq<char>,
    photo: JsonView,
    prefix: Option<Seq<char>>,
    seen: FileObservationView,
) -> bool {
    &&& file.path == path
    &&& file.source matches SourceView::PublicationFile(url) && as_text(
        nested(photo, "preview"@, "url"@),
    ) == Some(url) && is_below(path, prefix, url)
    &&& was_read(seen, file.size_bytes, file.sha256)
}

/// Whether a file is that of a bundle, at its path.
pub open spec fn is_of_bundle(
    file: DesiredFileView,
    path: Seq<char>,
    member: (Seq<char>, Seq<u8>),
) -> bool {
    &&& file.path == path
    &&& member.0 == path
    &&& file.sha256 == hex_sha256(member.1)
    &&& file.size_bytes == member.1.len() as u64
    &&& file.source is BundleMember
}

/// A publication of a bundle asks for every file of it at its path, with the digest
/// and the size of its content, and for nothing else.
pub proof fn law_bundle_files_are_desired(
    configuration_fingerprint: Seq<char>,
    local: LocalView,
    bundle: BundleView,
)
    requires
        keys_ascend(bundle.files),
    ensures
        ({
            let desired = desired_of(configuration_fingerprint, local, bundle);
            &&& desired.configuration_fingerprint == configuration_fingerprint
            &&& desired.local == local
            &&& desired.bundle_fingerprint == bundle.fingerprint
            &&& forall|key: Seq<char>| !(#[trigger] desired.storage.dom().contains(key))
            &&& forall|i: int|
                0 <= i < bundle.files.len() ==> desired.repository.dom().contains(
                    (#[trigger] bundle.files[i]).0,
                ) && is_of_bundle(
                    desired.repository[bundle.files[i].0],
                    bundle.files[i].0,
                    bundle.files[i],
                )
            &&& forall|path: Seq<char>| #[trigger]
                desired.repository.dom().contains(path) ==> exists|i: int|
                    0 <= i < bundle.files.len() && is_of_bundle(
                        desired.repository[path],
                        path,
                        #[trigger] bundle.files[i],
                    )
        }),
{
    let files = bundle.files;
    let desired = desired_of(configuration_fingerprint, local, bundle);
    assert forall|i: int| 0 <= i < files.len() implies desired.repository.dom().contains(
        (#[trigger] files[i]).0,
    ) && is_of_bundle(desired.repository[files[i].0], files[i].0, files[i]) by {
        lemma_key_position(files, i);
        assert(has_key(files, files[i].0));
    }
    assert forall|path: Seq<char>| #[trigger] desired.repository.dom().contains(path) implies exists|
        i: int,
    |
        0 <= i < files.len() && is_of_bundle(
            desired.repository[path],
            path,
            #[trigger] files[i],
        ) by {
        let i = key_position(files, path);
        lemma_key_position(files, i);
        assert(files[i].0 == path);
        assert(is_of_bundle(desired.repository[path], path, files[i]));
    }
}

/// Every preview of a committed gallery is asked for in the repository, at the path of
/// its URL below the preview prefix, with the digest and the size that were read of it,
/// beside every file of the bundle; and nothing else is.
pub proof fn law_previews_and_bundle_are_desired(
    configuration: ProjectPublicationConfig,
    output: CommittedView,
    downloads: Seq<FileObservation>,
    previews: Seq<FileObservation>,
    bundle: BundleView,
    desired: DesiredView,
)
    requires
        keys_ascend(bundle.files),
        committed_desired(configuration, output, downloads, previews, bundle) == Ok::<
            DesiredView,
            CommittedError,
        >(desired),
    ensures
        photos_in(output.gallery) is Some,
        forall|i: int|
            0 <= i < photos_in(output.gallery)->0.len() ==> exists|path: Seq<char>| #[trigger]
                desired.repository.dom().contains(path) && is_preview(
                    desired.repository[path],
                    path,
                    #[trigger] photos_in(output.gallery)->0[i],
                    option_text(configuration.preview_prefix),
                    observed_at(previews, i),
                ),
        forall|i: int|
            0 <= i < bundle.files.len() ==> desired.repository.dom().contains(
                (#[trigger] bundle.files[i]).0,
            ) && is_of_bundle(
                desired.repository[bundle.files[i].0],
                bundle.files[i].0,
                bundle.files[i],
            ),
        forall|path: Seq<char>| #[trigger]
            desired.repository.dom().contains(path) ==> (exists|i: int|
                0 <= i < photos_in(output.gallery)->0.len() && is_preview(
                    desired.repository[path],
                    path,
                    #[trigger] photos_in(output.gallery)->0[i],
                    option_text(configuration.preview_prefix),
                    observed_at(previews, i),
                )) || (exists|i: int|
                0 <= i < bundle.files.len() && is_of_bundle(
                    desired.repository[path],
                    path,
                    #[trigger] bundle.files[i],
                )),
{
    let photos = committed_photos(output);
    let prefix = option_text(configuration.preview_prefix);
    let sources = output.sources->0;
    let files = previews_from(photos, effective_prefix(prefix), previews, sources, 0)->Ok_0;
    let local = committed_local(output);
    let base = desired_of(configuration_fingerprint_text(configuration), local, bundle);
    lemma_previews_from(photos, effective_prefix(prefix), previews, sources, 0);
    lemma_with_files(base.repository, files);
    law_bundle_files_are_desired(configuration_fingerprint_text(configuration), local, bundle);
    assert(photos_in(output.gallery) == Some(photos));
    assert forall|i: int| 0 <= i < photos.len() implies is_preview(
        files[i],
        files[i].path,
        #[trigger] photos[i],
        prefix,
        observed_at(previews, i),
    ) && desired.repository.dom().contains(files[i].path) && desired.repository[files[i].path]
        == files[i] by {
        law_file_is_the_preview(
            photos[i],
            prefix,
            observed_at(previews, i),
            sources,
            files[i - 0],
        );
        assert(desired.repository.dom().contains(files[i].path));
    }
    assert forall|path: Seq<char>| #[trigger] desired.repository.dom().contains(path) implies (
    exists|i: int|
        0 <= i < photos.len() && is_preview(
            desired.repository[path],
            path,
            #[trigger] photos[i],
            prefix,
            observed_at(previews, i),
        )) || (exists|i: int|
        0 <= i < bundle.files.len() && is_of_bundle(
            desired.repository[path],
            path,
            #[trigger] bundle.files[i],
        )) by {
        if files.contains(desired.repository[path]) && desired.repository[path].path == path {
            let k = choose|k: int| 0 <= k < files.len() && files[k] == desired.repository[path];
            assert(is_preview(
                desired.repository[path],
                path,
                photos[k],
                prefix,
                observed_at(previews, k),
            ));
        } else {
            assert(base.repository.dom().contains(path));
        }
    }
}

// ---------------------------------------------------------------------------
// What is refused
// ---------------------------------------------------------------------------
/// An output is that of a local publication exactly where its record is valid and
/// committed and names its generation and both digests, both files have them, the
/// gallery lists photos, and the state can be read.
pub proof fn law_committed_output_iff(v: CommittedView, local: LocalView)
    ensures
        output_error(v, local) is None <==> {
            &&& journal_error(v.journal) is None
            &&& v.journal.phase == JournalPhase::Committed
            &&& v.journal.generation == local.generation
            &&& v.journal.gallery_sha256 == local.manifest_hash
            &&& v.journal.state_sha256 == local.state_hash
            &&& hex_sha256(v.gallery) == local.manifest_hash
            &&& hex_sha256(v.state) == local.state_hash
            &&& photos_in(v.gallery) is Some
            &&& v.sources is Some
        },
        match output_error(v, local) {
            None => true,
            Some(CommittedError::InvalidJournal(e)) => journal_error(v.journal) == Some(e),
            Some(CommittedError::NotCommitted) => v.journal.phase != JournalPhase::Committed,
            Some(CommittedError::DifferentGeneration) => v.journal.generation != local.generation
                || v.journal.gallery_sha256 != local.manifest_hash || v.journal.state_sha256
                != local.state_hash,
            Some(CommittedError::GalleryMismatch) => hex_sha256(v.gallery) != local.manifest_hash,
            Some(CommittedError::GalleryNotJson) => json_document(v.gallery) is None,
            Some(CommittedError::PhotosNotAnArray) => photos_in(v.gallery) is None,
            Some(CommittedError::StateMismatch) => hex_sha256(v.state) != local.state_hash,
            Some(CommittedError::StateUnreadable) => v.sources is None,
            _ => false,
        },
{
}

/// The objects of a publication are asked for of its own output only, and are those of
/// the photos of its gallery; so are the previews.
pub proof fn law_assets_are_of_the_output(
    prefix: Option<Seq<char>>,
    local: LocalView,
    output: CommittedView,
    seen: Seq<FileObservation>,
)
    ensures
        output_error(output, local) matches Some(e) ==> high_resolution_objects(
            prefix,
            local,
            output,
            seen,
        ) == Err::<Seq<DesiredObjectView>, CommittedError>(e) && preview_files(
            prefix,
            local,
            output,
            seen,
        ) == Err::<Seq<DesiredFileView>, CommittedError>(e),
        output_error(output, local) is None ==> high_resolution_objects(
            prefix,
            local,
            output,
            seen,
        ) == objects_from(
            photos_in(output.gallery)->0,
            effective_prefix(prefix),
            seen,
            output.sources->0,
            0,
        ) && preview_files(prefix, local, output, seen) == previews_from(
            photos_in(output.gallery)->0,
            effective_prefix(prefix),
            seen,
            output.sources->0,
            0,
        ),
{
}

/// A photo without a download asks for no object. One with a download is refused where
/// it has no URL, the URL is no publication path, its file name has no extension or is
/// not named by a digest, or the key below the prefix is not portable, and nowhere else.
pub proof fn law_download_is_asked_for(photo: JsonView, prefix: Option<Seq<char>>)
    ensures
        ({
            let url = as_text(nested(photo, "download"@, "url"@));
            match download_of(photo, effective_prefix(prefix)) {
                Ok(None) => field(photo, "download"@) is None,
                Ok(Some(download)) => {
                    &&& url == Some(download.url)
                    &&& is_publication_path(download.url)
                    &&& stem_of(download.url) == Some(download.stem)
                    &&& is_digest(download.stem)
                    &&& is_portable_path(download.key)
                    &&& is_below(download.key, prefix, download.url)
                },
                Err(CommittedError::MissingUrl) => field(photo, "download"@) is Some
                    && url is None,
                Err(CommittedError::InvalidPath(_)) => url is Some && !is_publication_path(url->0),
                Err(CommittedError::NoExtension) => url is Some && !after_last(
                    url->0,
                    '/',
                ).contains('.'),
                Err(CommittedError::InvalidDigestName) => url is Some && stem_of(url->0) is Some
                    && !is_digest(stem_of(url->0)->0),
                Err(CommittedError::InvalidKey) => url is Some && !is_portable_path(
                    prefixed(effective_prefix(prefix), url->0),
                ),
                Err(_) => false,
            }
        }),
{
    let url = as_text(nested(photo, "download"@, "url"@));
    if url is Some {
        lemma_below(prefix, url->0);
        law_split_at_last(after_last(url->0, '/'), '.');
        if stem_of(url->0) is Some {
            lemma_digest(stem_of(url->0)->0);
        }
    }
}

/// A photo is refused where it has no preview, the preview has no URL, the URL is no
/// publication path, its file name has no extension, is not a JPEG, is not named by a
/// digest or by one that no source photo has, or the path below the prefix is not
/// portable, and nowhere else.
pub proof fn law_preview_is_asked_for(
    photo: JsonView,
    prefix: Option<Seq<char>>,
    sources: Seq<SourcePhoto>,
)
    ensures
        ({
            let url = as_text(nested(photo, "preview"@, "url"@));
            match preview_of(photo, effective_prefix(prefix), sources) {
                Ok(preview) => {
                    &&& url == Some(preview.url)
                    &&& is_publication_path(preview.url)
                    &&& stem_of(preview.url) matches Some(stem)
                    &&& is_digest(stem)
                    &&& exists|i: int|
                        0 <= i < sources.len() && (#[trigger] sources[i]).sha256@ == stem
                    &&& extension_of(preview.url) == "jpg"@
                    &&& is_portable_path(preview.path)
                    &&& is_below(preview.path, prefix, preview.url)
                },
                Err(CommittedError::MissingPreview) => field(photo, "preview"@) is None,
                Err(CommittedError::MissingUrl) => field(photo, "preview"@) is Some
                    && url is None,
                Err(CommittedError::InvalidPath(_)) => url is Some && !is_publication_path(url->0),
                Err(CommittedError::NoExtension) => url is Some && !after_last(
                    url->0,
                    '/',
                ).contains('.'),
                Err(CommittedError::NotJpeg) => url is Some && extension_of(url->0) != "jpg"@,
                Err(CommittedError::InvalidDigestName) => url is Some && stem_of(url->0) is Some
                    && !is_digest(stem_of(url->0)->0),
                Err(CommittedError::UnknownSource) => url is Some && stem_of(url->0) is Some
                    && forall|i: int|
                    0 <= i < sources.len() ==> (#[trigger] sources[i]).sha256@ != stem_of(
                        url->0,
                    )->0,
                Err(CommittedError::InvalidRepositoryPath) => url is Some && !is_portable_path(
                    prefixed(effective_prefix(prefix), url->0),
                ),
                Err(_) => false,
            }
        }),
{
    let url = as_text(nested(photo, "preview"@, "url"@));
    if url is Some {
        lemma_below(prefix, url->0);
        law_split_at_last(after_last(url->0, '/'), '.');
        if stem_of(url->0) is Some {
            lemma_digest(stem_of(url->0)->0);
        }
    }
}

/// A file that was asked for is refused where it could not be read whole, and else is
/// taken with the size and digest that were read.
pub proof fn law_asset_is_read_iff(seen: FileObservationView)
    ensures
        match read_asset(seen) {
            Ok((size, sha256)) => was_read(seen, size, sha256),
            Err(CommittedError::MissingFile) => seen is Missing,
            Err(CommittedError::NotRegular) => seen is NotRegular,
            Err(CommittedError::Unresolvable) => seen is Unresolvable,
            Err(CommittedError::OutsideRoot) => seen is OutsideRoot,
            Err(CommittedError::Unopened) => seen is Unopened,
            Err(CommittedError::Unhashed) => seen is Unhashed,
            Err(CommittedError::ChangedWhileRead) => match seen {
                FileObservationView::Read { declared_size, bytes_read, .. } => declared_size
                    != bytes_read,
                FileObservationView::NotRewound { declared_size, bytes_read, .. } => declared_size
                    != bytes_read,
                _ => false,
            },
            Err(_) => false,
        },
{
}

/// A download that was read is refused where it has another digest than the one that
/// it is named by, where no source photo has that digest, or where the first one that
/// has it has another size, and nowhere else.
pub proof fn law_download_is_bound_iff(
    download: DownloadView,
    seen: FileObservationView,
    sources: Seq<SourcePhoto>,
    size: u64,
    sha256: Seq<char>,
)
    requires
        was_read(seen, size, sha256),
        is_digest(download.stem),
    ensures
        match download_object(download, seen, sources) {
            Ok(object) => {
                &&& sha256 == download.stem
                &&& object.key == download.key
                &&& object.source_path == download.url
                &&& object.sha256 == sha256
                &&& object.size_bytes == size
                &&& object.content_type == Some("image/jpeg"@)
                &&& source_bytes(sources, sha256) == Some(size)
            },
            Err(CommittedError::DigestMismatch) => sha256 != download.stem,
            Err(CommittedError::UnknownSource) => sha256 == download.stem && forall|i: int|
                0 <= i < sources.len() ==> (#[trigger] sources[i]).sha256@ != sha256,
            Err(CommittedError::SizeMismatch) => sha256 == download.stem && source_bytes(
                sources,
                sha256,
            ) != Some(size),
            Err(_) => false,
        },
{
    lemma_digest(download.stem);
}

/// The size of a source photo is that of the first one with its digest.
pub proof fn law_first_source_counts(sources: Seq<SourcePhoto>, i: int)
    requires
        0 <= i < sources.len(),
        forall|j: int| 0 <= j < i ==> (#[trigger] sources[j]).sha256@ != sources[i].sha256@,
    ensures
        source_bytes(sources, sources[i].sha256@) == Some(sources[i].bytes),
    decreases sources.len(),
{
    if i > 0 {
        let rest = sources.drop_first();
        assert forall|j: int| 0 <= j < i - 1 implies (#[trigger] rest[j]).sha256@ != rest[i
            - 1].sha256@ by {
            assert(rest[j] == sources[j + 1]);
        }
        assert(rest[i - 1] == sources[i]);
        law_first_source_counts(rest, i - 1);
        assert(sources[0].sha256@ != sources[i].sha256@);
    }
}

} // verus!
