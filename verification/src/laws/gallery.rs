//! What the gallery document says of the photos, and what a check of its assets
//! has established.

use crate::digest::hex_sha256;
use crate::gallery::{
    as_integer, as_items, as_text, asset_error, assets_error, file_stem_text, gallery_assets_error,
    gallery_json, law_created_gallery_is_plain, lemma_gallery_photos, nested, photo_json, seen_at,
    AssetError, AssetObservation, ProcessedDimensions, SourcePhoto,
};
use crate::json::{field, is_plain, JsonView};
use crate::laws::lookup::lemma_plain_member;
use crate::laws::texts::law_split_at_last;
use crate::text::{after_last, before_last, has_prefix};
use vstd::prelude::*;
use vstd::utf8::encode_utf8;

verus! {

// ---------------------------------------------------------------------------
// The document
// ---------------------------------------------------------------------------
/// The created document has the title of the project, the fixed identifier of a
/// local gallery and the first version of the schema, and one photo for each that
/// was given.
pub proof fn law_created_gallery_is_titled(
    title: Seq<char>,
    photos: Seq<(SourcePhoto, ProcessedDimensions)>,
)
    ensures
        ({
            let document = gallery_json(title, photos);
            &&& nested(document, "gallery"@, "title"@) == Some(JsonView::Text(title))
            &&& nested(document, "gallery"@, "id"@) == Some(JsonView::Text("gallery-local"@))
            &&& field(document, "schemaVersion"@) == Some(JsonView::Integer(1))
            &&& as_items(field(document, "photos"@)) matches Some(items) && items.len()
                == photos.len()
        }),
{
    let document = gallery_json(title, photos);
    law_created_gallery_is_plain(title, photos);
    lemma_plain_member(document, 127, 0);
    lemma_plain_member(document, 127, 1);
    lemma_plain_member(document, 127, 2);
    let inner = document->Object_0[0].1;
    lemma_plain_member(inner, 126, 0);
    lemma_plain_member(inner, 126, 1);
}

/// Whether a text is what follows the last slash of a path.
pub open spec fn is_last_part(name: Seq<char>, path: Seq<char>) -> bool {
    &&& forall|i: int| 0 <= i < name.len() ==> #[trigger] name[i] != '/'
    &&& name == path || exists|start: Seq<char>| path == #[trigger] (start + "/"@) + name
}

/// Each photo of the created document is found at its place, under the name that
/// is the last part of its path and the identifier that is the start of the digest
/// of its path, numbered from one, with its preview and its download under the
/// digest of its source, each with its own dimensions.
pub proof fn law_created_photo_is_described(
    title: Seq<char>,
    photos: Seq<(SourcePhoto, ProcessedDimensions)>,
    i: int,
)
    requires
        0 <= i < photos.len(),
        photos.len() <= usize::MAX,
    ensures
        ({
            let photo = as_items(field(gallery_json(title, photos), "photos"@))->0[i];
            let source = photos[i].0;
            let made = photos[i].1;
            &&& as_text(field(photo, "filename"@)) matches Some(name) && is_last_part(
                name,
                source.relative_path@,
            )
            &&& as_text(field(photo, "id"@)) == Some(
                hex_sha256(encode_utf8(source.relative_path@)).take(16),
            )
            &&& as_integer(field(photo, "sequence"@)) matches Some(n) && n == i + 1
            &&& as_text(nested(photo, "preview"@, "url"@)) == Some(
                "photos/preview/"@ + source.sha256@ + ".jpg"@,
            )
            &&& as_integer(nested(photo, "preview"@, "width"@)) matches Some(n) && n
                == made.preview_width
            &&& as_integer(nested(photo, "preview"@, "height"@)) matches Some(n) && n
                == made.preview_height
            &&& as_text(nested(photo, "download"@, "url"@)) == Some(
                "photos/download/"@ + source.sha256@ + ".jpg"@,
            )
            &&& as_integer(nested(photo, "download"@, "width"@)) matches Some(n) && n
                == made.orig_width
            &&& as_integer(nested(photo, "download"@, "height"@)) matches Some(n) && n
                == made.orig_height
        }),
{
    let document = gallery_json(title, photos);
    law_created_gallery_is_plain(title, photos);
    lemma_gallery_photos(title, photos);
    lemma_plain_member(document, 127, 1);
    let items = document->Object_0[1].1->Array_0;
    let photo = items[i];
    assert(photo == photo_json(photos[i], i));
    assert(is_plain(photo, 125));
    lemma_plain_member(photo, 125, 0);
    lemma_plain_member(photo, 125, 1);
    lemma_plain_member(photo, 125, 2);
    lemma_plain_member(photo, 125, 3);
    lemma_plain_member(photo, 125, 4);
    let download = photo->Object_0[0].1;
    let preview = photo->Object_0[3].1;
    lemma_plain_member(download, 124, 0);
    lemma_plain_member(download, 124, 1);
    lemma_plain_member(download, 124, 2);
    lemma_plain_member(preview, 124, 0);
    lemma_plain_member(preview, 124, 1);
    lemma_plain_member(preview, 124, 2);
    law_last_part(photos[i].0.relative_path@);
    let digest = hex_sha256(encode_utf8(photos[i].0.relative_path@));
    assert(digest.take(16) =~= digest.subrange(0, 16));
}

/// What follows the last slash of a path is its last part.
pub proof fn law_last_part(path: Seq<char>)
    ensures
        is_last_part(after_last(path, '/'), path),
{
    law_split_at_last(path, '/');
    let name = after_last(path, '/');
    reveal_strlit("/");
    match before_last(path, '/') {
        Some(start) => {
            assert("/"@ =~= seq!['/']);
            assert(path == (start + "/"@) + name);
        },
        None => {},
    }
}

// ---------------------------------------------------------------------------
// The assets
// ---------------------------------------------------------------------------
/// The name of a file without its extension is what comes before its last full
/// stop; a name without a full stop, or with only a leading one, is its own stem.
pub proof fn law_stem_comes_before_the_extension(name: Seq<char>)
    ensures
        ({
            let stem = file_stem_text(name);
            stem == name && (forall|i: int| 1 <= i < name.len() ==> #[trigger] name[i] != '.')
                || stem.len() > 0 && exists|extension: Seq<char>|
                name == stem + seq!['.'] + extension && !extension.contains('.')
        }),
{
    law_split_at_last(name, '.');
    let extension = after_last(name, '.');
    match before_last(name, '.') {
        Some(start) => {
            assert(!extension.contains('.'));
            if start.len() == 0 {
                assert forall|i: int| 1 <= i < name.len() implies #[trigger] name[i] != '.' by {
                    assert(name[i] == extension[i - 1]);
                }
            }
        },
        None => {},
    }
}

/// Whether an asset of a photo was seen as the document describes it: at a path
/// below `photos/`, as a regular file that is readable as an image with the
/// recorded width and height.
pub open spec fn is_backed(photo: JsonView, key: Seq<char>, seen: AssetObservation) -> bool {
    &&& as_text(nested(photo, key, "url"@)) matches Some(url) && url.len() >= 7 && url.take(7)
        == "photos/"@
    &&& seen.is_file
    &&& seen.dimensions matches Some((width, height)) && as_integer(
        nested(photo, key, "width"@),
    ) matches Some(w) && as_integer(nested(photo, key, "height"@)) matches Some(h) && w
        % 0x1_0000_0000 == width && h % 0x1_0000_0000 == height
}

/// Whether the file seen has the digest that it is named after.
pub open spec fn is_named_after(photo: JsonView, key: Seq<char>, seen: AssetObservation) -> bool {
    as_text(nested(photo, key, "url"@)) matches Some(url) && file_stem_text(after_last(url, '/'))
        == seen.sha256@
}

proof fn lemma_asset_backed(
    photo: JsonView,
    key: Seq<char>,
    download: bool,
    seen: Option<AssetObservation>,
)
    ensures
        asset_error(photo, key, download, seen) is None <==> (seen is Some && is_backed(
            photo,
            key,
            seen->0,
        ) && (download ==> is_named_after(photo, key, seen->0))),
{
    reveal_strlit("photos/");
    match as_text(nested(photo, key, "url"@)) {
        Some(url) => {
            if url.len() >= 7 {
                assert(url.take(7) =~= url.subrange(0, 7));
            }
        },
        None => {},
    }
}

proof fn lemma_assets_backed(photos: Seq<JsonView>, seen: Seq<AssetObservation>, i: int)
    requires
        0 <= i <= photos.len(),
    ensures
        assets_error(photos, seen, i) is None <==> (forall|j: int|
            i <= j < photos.len() ==> #[trigger] photo_is_backed(photos, seen, j)),
    decreases photos.len() - i,
{
    if i < photos.len() {
        lemma_assets_backed(photos, seen, i + 1);
        lemma_asset_backed(photos[i], "preview"@, false, seen_at(seen, 2 * i));
        lemma_asset_backed(photos[i], "download"@, true, seen_at(seen, 2 * i + 1));
        assert(assets_error(photos, seen, i) is None <==> photo_is_backed(photos, seen, i)
            && assets_error(photos, seen, i + 1) is None);
        if forall|j: int| i <= j < photos.len() ==> #[trigger] photo_is_backed(photos, seen, j) {
            assert(photo_is_backed(photos, seen, i));
        }
    }
}

/// Whether the preview and the download of a photo were seen as described. The
/// observations stand in pairs: the preview of a photo, then its download.
pub open spec fn photo_is_backed(
    photos: Seq<JsonView>,
    seen: Seq<AssetObservation>,
    i: int,
) -> bool {
    &&& 2 * i + 1 < seen.len()
    &&& is_backed(photos[i], "preview"@, seen[2 * i])
    &&& is_backed(photos[i], "download"@, seen[2 * i + 1])
    &&& is_named_after(photos[i], "download"@, seen[2 * i + 1])
}

/// The check of a gallery's assets succeeds exactly where it has a list of photos,
/// and of every photo both the preview and the download were seen as regular files
/// and readable images with the recorded dimensions, and the download with the
/// digest that it is named after.
pub proof fn law_verified_assets_are_backed(gallery: JsonView, seen: Seq<AssetObservation>)
    ensures
        gallery_assets_error(gallery, seen) is None <==> (as_items(
            field(gallery, "photos"@),
        ) matches Some(photos) && (forall|i: int|
            0 <= i < photos.len() ==> #[trigger] photo_is_backed(photos, seen, i))),
{
    match as_items(field(gallery, "photos"@)) {
        Some(photos) => {
            lemma_assets_backed(photos, seen, 0);
        },
        None => {},
    }
}

/// What an asset is refused for is wrong with it.
pub proof fn law_asset_error_has_its_cause(
    photo: JsonView,
    key: Seq<char>,
    download: bool,
    seen: Option<AssetObservation>,
)
    ensures
        ({
            let url = as_text(nested(photo, key, "url"@));
            let width = as_integer(nested(photo, key, "width"@));
            let height = as_integer(nested(photo, key, "height"@));
            match asset_error(photo, key, download, seen) {
                None => true,
                Some(AssetError::MissingUrl) => url is None,
                Some(AssetError::NotRelative) => url is Some && !has_prefix(
                    url->0,
                    "photos/"@,
                ),
                Some(AssetError::MissingFile) => seen is None || !seen->0.is_file,
                Some(AssetError::UnreadableImage) => seen is Some && seen->0.is_file
                    && seen->0.dimensions is None,
                Some(AssetError::MissingWidth) => width is None,
                Some(AssetError::MissingHeight) => height is None,
                Some(AssetError::WrongDimensions) => match (seen, width, height) {
                    (Some(found), Some(w), Some(h)) => match found.dimensions {
                        Some((x, y)) => x != w as int % 0x1_0000_0000 || y != h as int
                            % 0x1_0000_0000,
                        None => false,
                    },
                    _ => false,
                },
                Some(AssetError::WrongDigest) => download && url is Some && seen is Some
                    && seen->0.sha256@ != file_stem_text(after_last(url->0, '/')),
                Some(AssetError::PhotosNotAnArray) => false,
            }
        }),
{
}

} // verus!
