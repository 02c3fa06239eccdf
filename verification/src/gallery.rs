//! The local gallery document and the assets it names.

use crate::digest::{hex_digest, hex_sha256};
use crate::json::{
    array_of, field, get, is_plain, items_view, lemma_array_view, member, members_view, object_of,
    push_member, text_value, Json, JsonView,
};
use crate::text::{
    after_last, before_last, chars_of, has_prefix, is_hex_digit, is_sha256_text, joined3,
    option_text, same_text, split_at_last, starts_with, string_between, text_lt,
};
use vstd::prelude::*;
use vstd::utf8::encode_utf8;

verus! {

/// A photo of the source directory.
#[derive(Debug, PartialEq, Eq)]
pub struct SourcePhoto {
    pub relative_path: String,
    pub sha256: String,
    pub bytes: u64,
}

/// The dimensions of a processed photo.
#[derive(Debug, Clone, Copy, PartialEq, Eq, Structural)]
pub struct ProcessedDimensions {
    pub preview_width: u32,
    pub preview_height: u32,
    pub orig_width: u32,
    pub orig_height: u32,
}

/// The identifier of a photo: the first sixteen hexadecimal digits of the
/// digest of its path.
pub open spec fn photo_id_text(relative_path: Seq<char>) -> Seq<char> {
    hex_sha256(encode_utf8(relative_path)).subrange(0, 16)
}

/// The identifier of a photo, which depends on its relative path alone.
pub fn generate_photo_id(relative_path: &str) -> (r: String)
    ensures
        r@ == photo_id_text(relative_path@),
        r@.len() == 16,
{
    let hex: String = hex_digest(relative_path.as_bytes());
    let chars: Vec<char> = chars_of(hex.as_str());
    string_between(&chars, 0, 16)
}

// ---------------------------------------------------------------------------
// The gallery document
// ---------------------------------------------------------------------------
/// One asset of a photo.
pub open spec fn asset_json(url: Seq<char>, width: u32, height: u32) -> JsonView {
    JsonView::Object(
        seq![
            ("height"@, JsonView::Integer(height as u64)),
            ("url"@, JsonView::Text(url)),
            ("width"@, JsonView::Integer(width as u64)),
        ],
    )
}

/// The preview of the photo with the given source digest.
pub open spec fn preview_url(sha256: Seq<char>) -> Seq<char> {
    "photos/preview/"@ + sha256 + ".jpg"@
}

/// The download of the photo with the given source digest.
pub open spec fn download_url(sha256: Seq<char>) -> Seq<char> {
    "photos/download/"@ + sha256 + ".jpg"@
}

/// One photo of the gallery, numbered from one.
pub open spec fn photo_json(photo: (SourcePhoto, ProcessedDimensions), index: int) -> JsonView {
    JsonView::Object(
        seq![
            (
                "download"@,
                asset_json(download_url(photo.0.sha256@), photo.1.orig_width, photo.1.orig_height),
            ),
            ("filename"@, JsonView::Text(after_last(photo.0.relative_path@, '/'))),
            ("id"@, JsonView::Text(photo_id_text(photo.0.relative_path@))),
            (
                "preview"@,
                asset_json(
                    preview_url(photo.0.sha256@),
                    photo.1.preview_width,
                    photo.1.preview_height,
                ),
            ),
            ("sequence"@, JsonView::Integer((index + 1) as u64)),
        ],
    )
}

/// The gallery of the given photos, in their order.
pub open spec fn gallery_json(
    title: Seq<char>,
    photos: Seq<(SourcePhoto, ProcessedDimensions)>,
) -> JsonView {
    JsonView::Object(
        seq![
            (
                "gallery"@,
                JsonView::Object(
                    seq![("id"@, JsonView::Text("gallery-local"@)), ("title"@, JsonView::Text(title))],
                ),
            ),
            (
                "photos"@,
                JsonView::Array(Seq::new(photos.len(), |i: int| photo_json(photos[i], i))),
            ),
            ("schemaVersion"@, JsonView::Integer(1)),
        ],
    )
}

/// Where the preview of a photo lies below the output directory.
pub fn preview_path(sha256: &str) -> (r: String)
    ensures
        r@ == preview_url(sha256@),
{
    joined3("photos/preview/", sha256, ".jpg")
}

/// Where the download of a photo lies below the output directory.
pub fn download_path(sha256: &str) -> (r: String)
    ensures
        r@ == download_url(sha256@),
{
    joined3("photos/download/", sha256, ".jpg")
}

fn asset_value(url: String, width: u32, height: u32) -> (r: Json)
    ensures
        r@ == asset_json(url@, width, height),
{
    let mut members: Vec<(String, Json)> = Vec::new();
    push_member(&mut members, "height", Json::Integer(height as u64));
    push_member(&mut members, "url", Json::Text(url));
    push_member(&mut members, "width", Json::Integer(width as u64));
    proof {
        assert(members_view(members@) =~= asset_json(url@, width, height)->Object_0);
    }
    object_of(members)
}

fn photo_value(photo: &(SourcePhoto, ProcessedDimensions), index: usize) -> (r: Json)
    requires
        index < usize::MAX,
    ensures
        r@ == photo_json(*photo, index as int),
{
    let id: String = generate_photo_id(photo.0.relative_path.as_str());
    let (_, filename) = split_at_last(photo.0.relative_path.as_str(), '/');
    let preview: String = preview_path(photo.0.sha256.as_str());
    let download: String = download_path(photo.0.sha256.as_str());
    let mut members: Vec<(String, Json)> = Vec::new();
    push_member(
        &mut members,
        "download",
        asset_value(download, photo.1.orig_width, photo.1.orig_height),
    );
    push_member(&mut members, "filename", Json::Text(filename));
    push_member(&mut members, "id", Json::Text(id));
    push_member(
        &mut members,
        "preview",
        asset_value(preview, photo.1.preview_width, photo.1.preview_height),
    );
    push_member(&mut members, "sequence", Json::Integer((index + 1) as u64));
    proof {
        assert(members_view(members@) =~= photo_json(*photo, index as int)->Object_0);
    }
    object_of(members)
}

/// The gallery document of the given photos, in their order.
pub fn create_gallery_json(title: &str, photos: &Vec<(SourcePhoto, ProcessedDimensions)>) -> (r:
    Json)
    ensures
        r@ == gallery_json(title@, photos@),
{
    let ghost shown = gallery_json(title@, photos@)->Object_0;
    let ghost all = shown[1].1->Array_0;
    let mut items: Vec<Json> = Vec::new();
    let mut i: usize = 0;
    while i < photos.len()
        invariant
            i <= photos@.len(),
            all == Seq::new(photos@.len(), |j: int| photo_json(photos@[j], j)),
            items_view(items@) == all.take(i as int),
        decreases photos@.len() - i,
    {
        let ghost before = items@;
        let photo: Json = photo_value(&photos[i], i);
        items.push(photo);
        i = i + 1;
        proof {
            assert(items_view(items@) =~= items_view(before).push(photo@));
            assert(all.take(i as int) =~= all.take(i - 1).push(all[i - 1]));
        }
    }
    proof {
        assert(all.take(photos@.len() as int) =~= all);
    }
    let mut gallery: Vec<(String, Json)> = Vec::new();
    push_member(&mut gallery, "id", text_value("gallery-local"));
    push_member(&mut gallery, "title", text_value(title));
    proof {
        assert(members_view(gallery@) =~= shown[0].1->Object_0);
    }
    let mut members: Vec<(String, Json)> = Vec::new();
    push_member(&mut members, "gallery", object_of(gallery));
    push_member(&mut members, "photos", array_of(items));
    push_member(&mut members, "schemaVersion", Json::Integer(1));
    proof {
        assert(members_view(members@) =~= shown);
    }
    object_of(members)
}

// ---------------------------------------------------------------------------
// Assets on disk
// ---------------------------------------------------------------------------
/// What was found where a gallery asset should be.
#[derive(Debug, PartialEq, Eq)]
pub struct AssetObservation {
    /// Whether a regular file is there.
    pub is_file: bool,
    /// The dimensions of the image in the file, where it is readable as one.
    pub dimensions: Option<(u32, u32)>,
    /// The digest of the file.
    pub sha256: String,
}

impl AssetObservation {
    /// The observation of a regular file.
    pub fn of_file(content: &[u8], dimensions: Option<(u32, u32)>) -> (r: AssetObservation)
        ensures
            r.is_file,
            r.dimensions == dimensions,
            r.sha256@ == hex_sha256(content@),
    {
        AssetObservation { is_file: true, dimensions, sha256: hex_digest(content) }
    }

    /// The observation that no regular file is there.
    pub fn missing() -> (r: AssetObservation)
        ensures
            !r.is_file,
            r.dimensions is None,
            r.sha256@ == Seq::<char>::empty(),
    {
        AssetObservation { is_file: false, dimensions: None, sha256: String::new() }
    }
}

/// Why the assets of a gallery do not match it.
#[derive(Debug, Clone, Copy, PartialEq, Eq, Structural)]
pub enum AssetError {
    PhotosNotAnArray,
    MissingUrl,
    NotRelative,
    MissingFile,
    UnreadableImage,
    MissingWidth,
    MissingHeight,
    WrongDimensions,
    WrongDigest,
}

/// The text of a JSON string.
pub open spec fn as_text(value: Option<JsonView>) -> Option<Seq<char>> {
    match value {
        Some(JsonView::Text(s)) => Some(s),
        _ => None,
    }
}

/// The items of a JSON array.
pub open spec fn as_items(value: Option<JsonView>) -> Option<Seq<JsonView>> {
    match value {
        Some(JsonView::Array(items)) => Some(items),
        _ => None,
    }
}

/// The value of a JSON number, where it is a non-negative integer.
pub open spec fn as_integer(value: Option<JsonView>) -> Option<u64> {
    match value {
        Some(JsonView::Integer(n)) => Some(n),
        _ => None,
    }
}

/// A member of a member.
pub open spec fn nested(value: JsonView, outer: Seq<char>, inner: Seq<char>) -> Option<JsonView> {
    match field(value, outer) {
        Some(v) => field(v, inner),
        None => None,
    }
}

/// The name of a file without its extension. A name that starts with its only
/// full stop has no extension.
pub open spec fn file_stem_text(name: Seq<char>) -> Seq<char> {
    match before_last(name, '.') {
        Some(stem) => if stem.len() == 0 {
            name
        } else {
            stem
        },
        None => name,
    }
}

/// What is wrong with one asset of a photo. Only a download is named after its
/// own digest.
pub open spec fn asset_error(
    photo: JsonView,
    key: Seq<char>,
    download: bool,
    seen: Option<AssetObservation>,
) -> Option<AssetError> {
    let url = as_text(nested(photo, key, "url"@));
    let width = as_integer(nested(photo, key, "width"@));
    let height = as_integer(nested(photo, key, "height"@));
    if url is None {
        Some(AssetError::MissingUrl)
    } else if !has_prefix(url->0, "photos/"@) {
        Some(AssetError::NotRelative)
    } else if seen is None || !seen->0.is_file {
        Some(AssetError::MissingFile)
    } else if seen->0.dimensions is None {
        Some(AssetError::UnreadableImage)
    } else if width is None {
        Some(AssetError::MissingWidth)
    } else if height is None {
        Some(AssetError::MissingHeight)
    } else if seen->0.dimensions->0 != (
        (width->0 % 0x1_0000_0000) as u32,
        (height->0 % 0x1_0000_0000) as u32,
    ) {
        Some(AssetError::WrongDimensions)
    } else if download && seen->0.sha256@ != file_stem_text(after_last(url->0, '/')) {
        Some(AssetError::WrongDigest)
    } else {
        None
    }
}

/// What was seen of the asset at a position; none where nothing was.
pub open spec fn seen_at(seen: Seq<AssetObservation>, i: int) -> Option<AssetObservation> {
    if 0 <= i < seen.len() {
        Some(seen[i])
    } else {
        None
    }
}

/// The first thing wrong with the assets of the photos from a position on. The
/// observations stand in pairs: the preview of a photo, then its download.
pub open spec fn assets_error(
    photos: Seq<JsonView>,
    seen: Seq<AssetObservation>,
    i: int,
) -> Option<AssetError>
    decreases photos.len() - i,
{
    if i >= photos.len() {
        None
    } else {
        match asset_error(photos[i], "preview"@, false, seen_at(seen, 2 * i)) {
            Some(e) => Some(e),
            None => match asset_error(photos[i], "download"@, true, seen_at(seen, 2 * i + 1)) {
                Some(e) => Some(e),
                None => assets_error(photos, seen, i + 1),
            },
        }
    }
}

/// What is wrong with the assets of a gallery.
pub open spec fn gallery_assets_error(gallery: JsonView, seen: Seq<AssetObservation>) -> Option<
    AssetError,
> {
    match as_items(field(gallery, "photos"@)) {
        None => Some(AssetError::PhotosNotAnArray),
        Some(photos) => assets_error(photos, seen, 0),
    }
}

/// The photos of a gallery.
pub fn photos_of(gallery: &Json) -> (r: Option<&Vec<Json>>)
    ensures
        match r {
            Some(items) => as_items(field(gallery@, "photos"@)) == Some(items_view(items@)),
            None => as_items(field(gallery@, "photos"@)) is None,
        },
{
    match get(gallery, "photos") {
        Some(value) => match value {
            Json::Array(items) => {
                proof {
                    lemma_array_view(*value);
                }
                Some(items)
            },
            _ => None,
        },
        None => None,
    }
}

/// A text member of a member.
pub fn nested_text<'a>(value: &'a Json, outer: &str, inner: &str) -> (r: Option<&'a String>)
    ensures
        match r {
            Some(s) => as_text(nested(value@, outer@, inner@)) == Some(s@),
            None => as_text(nested(value@, outer@, inner@)) is None,
        },
{
    match get(value, outer) {
        Some(v) => match get(v, inner) {
            Some(Json::Text(s)) => Some(s),
            _ => None,
        },
        None => None,
    }
}

fn nested_integer(value: &Json, outer: &str, inner: &str) -> (r: Option<u64>)
    ensures
        r == as_integer(nested(value@, outer@, inner@)),
{
    match get(value, outer) {
        Some(v) => match get(v, inner) {
            Some(Json::Integer(n)) => Some(*n),
            _ => None,
        },
        None => None,
    }
}

/// The name of a file without its extension.
pub fn file_stem(name: &str) -> (r: String)
    ensures
        r@ == file_stem_text(name@),
{
    match split_at_last(name, '.') {
        (Some(stem), _) => {
            if stem.as_str().is_empty() {
                name.to_owned()
            } else {
                stem
            }
        },
        (None, _) => name.to_owned(),
    }
}

/// The path below the output directory at which an asset of a photo should be.
pub fn asset_path(photo: &Json, key: &str) -> (r: Option<String>)
    ensures
        option_text(r) == match as_text(nested(photo@, key@, "url"@)) {
            Some(url) => if has_prefix(url, "photos/"@) {
                Some(url)
            } else {
                None
            },
            None => None,
        },
{
    match nested_text(photo, key, "url") {
        Some(url) => {
            if starts_with(url.as_str(), "photos/") {
                Some(url.clone())
            } else {
                None
            }
        },
        None => None,
    }
}

/// What was seen of the preview of a photo, or of its download.
fn observation(all: &Vec<AssetObservation>, photo: usize, download: bool) -> (r: Option<
    &AssetObservation,
>)
    ensures
        match r {
            Some(o) => seen_at(
                all@,
                2 * photo + if download {
                    1int
                } else {
                    0int
                },
            ) == Some(*o),
            None => seen_at(
                all@,
                2 * photo + if download {
                    1int
                } else {
                    0int
                },
            ) is None,
        },
{
    if all.len() == 0 || photo > (all.len() - 1) / 2 {
        return None;
    }
    let at: usize = if download {
        2 * photo + 1
    } else {
        2 * photo
    };
    if at < all.len() {
        Some(&all[at])
    } else {
        None
    }
}

fn verify_asset(
    photo: &Json,
    key: &str,
    download: bool,
    observed: Option<&AssetObservation>,
) -> (r: Result<(), AssetError>)
    ensures
        match asset_error(
            photo@,
            key@,
            download,
            match observed {
                Some(o) => Some(*o),
                None => None,
            },
        ) {
            Some(e) => r == Err::<(), AssetError>(e),
            None => r is Ok,
        },
{
    let url: &String = match nested_text(photo, key, "url") {
        Some(url) => url,
        None => {
            return Err(AssetError::MissingUrl);
        },
    };
    if !starts_with(url.as_str(), "photos/") {
        return Err(AssetError::NotRelative);
    }
    let seen: &AssetObservation = match observed {
        Some(seen) => seen,
        None => {
            return Err(AssetError::MissingFile);
        },
    };
    if !seen.is_file {
        return Err(AssetError::MissingFile);
    }
    let (width, height) = match seen.dimensions {
        Some(d) => d,
        None => {
            return Err(AssetError::UnreadableImage);
        },
    };
    let expected_width: u64 = match nested_integer(photo, key, "width") {
        Some(n) => n,
        None => {
            return Err(AssetError::MissingWidth);
        },
    };
    let expected_height: u64 = match nested_integer(photo, key, "height") {
        Some(n) => n,
        None => {
            return Err(AssetError::MissingHeight);
        },
    };
    if width != (expected_width % 0x1_0000_0000) as u32 || height != (expected_height
        % 0x1_0000_0000) as u32 {
        return Err(AssetError::WrongDimensions);
    }
    if download {
        let (_, name) = split_at_last(url.as_str(), '/');
        let stem: String = file_stem(name.as_str());
        if !same_text(seen.sha256.as_str(), stem.as_str()) {
            return Err(AssetError::WrongDigest);
        }
    }
    Ok(())
}

/// Checks the assets of a gallery against what was found on disk. The
/// observations stand in pairs: the preview of a photo, then its download.
pub fn verify_gallery_assets(gallery: &Json, seen: &Vec<AssetObservation>) -> (r: Result<
    (),
    AssetError,
>)
    ensures
        match gallery_assets_error(gallery@, seen@) {
            Some(e) => r == Err::<(), AssetError>(e),
            None => r is Ok,
        },
{
    let photos: &Vec<Json> = match photos_of(gallery) {
        Some(photos) => photos,
        None => {
            return Err(AssetError::PhotosNotAnArray);
        },
    };
    let ghost all = items_view(photos@);
    let mut i: usize = 0;
    while i < photos.len()
        invariant
            i <= photos@.len(),
            all == items_view(photos@),
            as_items(field(gallery@, "photos"@)) == Some(all),
            gallery_assets_error(gallery@, seen@) == assets_error(all, seen@, i as int),
        decreases photos@.len() - i,
    {
        match verify_asset(&photos[i], "preview", false, observation(seen, i, false)) {
            Ok(()) => {},
            Err(e) => {
                return Err(e);
            },
        }
        match verify_asset(&photos[i], "download", true, observation(seen, i, true)) {
            Ok(()) => {},
            Err(e) => {
                return Err(e);
            },
        }
        i = i + 1;
    }
    Ok(())
}

// ---------------------------------------------------------------------------
// Laws
// ---------------------------------------------------------------------------
/// Whether what was found of the assets of photos is what was made of them: a
/// preview and a download per photo, with their dimensions, and the download
/// with the digest of its source.
pub open spec fn assets_as_made(
    photos: Seq<(SourcePhoto, ProcessedDimensions)>,
    seen: Seq<AssetObservation>,
) -> bool {
    &&& seen.len() == 2 * photos.len()
    &&& forall|i: int|
        0 <= i < photos.len() ==> {
            let made = (#[trigger] photos[i]).1;
            &&& is_sha256_text(photos[i].0.sha256@)
            &&& seen[2 * i].is_file
            &&& seen[2 * i].dimensions == Some((made.preview_width, made.preview_height))
            &&& seen[2 * i + 1].is_file
            &&& seen[2 * i + 1].dimensions == Some((made.orig_width, made.orig_height))
            &&& seen[2 * i + 1].sha256@ == photos[i].0.sha256@
        }
}

/// What follows the last of a character is what was put behind it.
pub proof fn lemma_after_last(s: Seq<char>, tail: Seq<char>, c: char)
    requires
        s.len() > 0,
        s.last() == c,
        forall|i: int| 0 <= i < tail.len() ==> #[trigger] tail[i] != c,
    ensures
        after_last(s + tail, c) == tail,
    decreases tail.len(),
{
    let all = s + tail;
    if tail.len() == 0 {
        assert(all =~= s);
    } else {
        let rest = tail.drop_last();
        assert forall|i: int| 0 <= i < rest.len() implies #[trigger] rest[i] != c by {
            assert(rest[i] == tail[i]);
        }
        lemma_after_last(s, rest, c);
        assert(all.drop_last() =~= s + rest);
        assert(all.last() == tail[tail.len() - 1]);
        assert(rest.push(tail.last()) =~= tail);
    }
}

proof fn lemma_stem_of_digest(sha256: Seq<char>)
    requires
        is_sha256_text(sha256),
    ensures
        file_stem_text(sha256 + ".jpg"@) == sha256,
        after_last(download_url(sha256), '/') == sha256 + ".jpg"@,
        has_prefix(download_url(sha256), "photos/"@),
        has_prefix(preview_url(sha256), "photos/"@),
{
    reveal_strlit(".jpg");
    reveal_strlit("photos/download/");
    reveal_strlit("photos/preview/");
    reveal_strlit("photos/");
    let name = sha256 + ".jpg"@;
    assert(name.last() == 'g');
    assert(name.drop_last().last() == 'p');
    assert(name.drop_last().drop_last().last() == 'j');
    assert(name.drop_last().drop_last().drop_last().last() == '.');
    assert(name.drop_last().drop_last().drop_last().drop_last() =~= sha256);
    reveal_with_fuel(before_last, 5);
    assert forall|i: int| 0 <= i < name.len() implies #[trigger] name[i] != '/' by {
        if i < sha256.len() {
            assert(is_hex_digit(sha256[i]));
            assert(name[i] == sha256[i]);
        }
    }
    lemma_after_last("photos/download/"@, name, '/');
    assert(download_url(sha256) =~= "photos/download/"@ + name);
    assert(download_url(sha256).take(7) =~= "photos/"@);
    assert(preview_url(sha256).take(7) =~= "photos/"@);
}

/// What an asset holds.
pub proof fn lemma_asset_members(url: Seq<char>, width: u32, height: u32)
    ensures
        field(asset_json(url, width, height), "url"@) == Some(JsonView::Text(url)),
        field(asset_json(url, width, height), "width"@) == Some(JsonView::Integer(width as u64)),
        field(asset_json(url, width, height), "height"@) == Some(JsonView::Integer(height as u64)),
{
    let members = asset_json(url, width, height)->Object_0;
    reveal_strlit("height");
    reveal_strlit("url");
    reveal_strlit("width");
    assert("height"@.len() == 6 && "url"@.len() == 3 && "width"@.len() == 5);
    assert(members.drop_first()[0] == members[1]);
    assert(members.drop_first().drop_first()[0] == members[2]);
    reveal_with_fuel(member, 3);
}

/// What a photo holds of its assets.
pub proof fn lemma_photo_members(photo: (SourcePhoto, ProcessedDimensions), index: int)
    ensures
        field(photo_json(photo, index), "download"@) == Some(
            asset_json(download_url(photo.0.sha256@), photo.1.orig_width, photo.1.orig_height),
        ),
        field(photo_json(photo, index), "preview"@) == Some(
            asset_json(preview_url(photo.0.sha256@), photo.1.preview_width, photo.1.preview_height),
        ),
{
    let members = photo_json(photo, index)->Object_0;
    reveal_strlit("download");
    reveal_strlit("filename");
    reveal_strlit("id");
    reveal_strlit("preview");
    assert("download"@[0] == 'd' && "filename"@[0] == 'f' && "id"@[0] == 'i' && "preview"@[0]
        == 'p');
    assert(members.drop_first()[0] == members[1]);
    assert(members.drop_first().drop_first()[0] == members[2]);
    assert(members.drop_first().drop_first().drop_first()[0] == members[3]);
    reveal_with_fuel(member, 4);
}

proof fn lemma_photo_verifies(
    photos: Seq<(SourcePhoto, ProcessedDimensions)>,
    seen: Seq<AssetObservation>,
    i: int,
)
    requires
        assets_as_made(photos, seen),
        0 <= i < photos.len(),
    ensures
        asset_error(photo_json(photos[i], i), "preview"@, false, seen_at(seen, 2 * i)) is None,
        asset_error(photo_json(photos[i], i), "download"@, true, seen_at(seen, 2 * i + 1)) is None,
{
    let sha256 = photos[i].0.sha256@;
    let made = photos[i].1;
    lemma_photo_members(photos[i], i);
    lemma_asset_members(preview_url(sha256), made.preview_width, made.preview_height);
    lemma_asset_members(download_url(sha256), made.orig_width, made.orig_height);
    lemma_stem_of_digest(sha256);
}

proof fn lemma_photos_verify(
    photos: Seq<(SourcePhoto, ProcessedDimensions)>,
    seen: Seq<AssetObservation>,
    i: int,
)
    requires
        assets_as_made(photos, seen),
        0 <= i <= photos.len(),
    ensures
        assets_error(
            Seq::new(photos.len(), |j: int| photo_json(photos[j], j)),
            seen,
            i,
        ) is None,
    decreases photos.len() - i,
{
    if i < photos.len() {
        lemma_photo_verifies(photos, seen, i);
        lemma_photos_verify(photos, seen, i + 1);
    }
}

/// Texts with different first characters are ordered by them.
pub proof fn lemma_first_char_orders(a: Seq<char>, b: Seq<char>)
    requires
        a.len() > 0,
        b.len() > 0,
        a[0] < b[0],
    ensures
        text_lt(a, b),
{
}

proof fn lemma_asset_is_plain(url: Seq<char>, width: u32, height: u32, depth: nat)
    requires
        depth > 0,
    ensures
        is_plain(asset_json(url, width, height), depth),
{
    let members = asset_json(url, width, height)->Object_0;
    reveal_with_fuel(is_plain, 2);
    reveal_strlit("height");
    reveal_strlit("url");
    reveal_strlit("width");
    assert("height"@[0] == 'h' && "url"@[0] == 'u' && "width"@[0] == 'w');
    assert forall|i: int, j: int| 0 <= i < j < members.len() implies text_lt(
        #[trigger] members[i].0,
        #[trigger] members[j].0,
    ) by {
        lemma_first_char_orders(members[i].0, members[j].0);
    }
}

proof fn lemma_photo_is_plain(photo: (SourcePhoto, ProcessedDimensions), index: int, depth: nat)
    requires
        depth > 1,
    ensures
        is_plain(photo_json(photo, index), depth),
{
    let members = photo_json(photo, index)->Object_0;
    reveal_with_fuel(is_plain, 2);
    reveal_strlit("download");
    reveal_strlit("filename");
    reveal_strlit("id");
    reveal_strlit("preview");
    reveal_strlit("sequence");
    assert("download"@[0] == 'd' && "filename"@[0] == 'f' && "id"@[0] == 'i' && "preview"@[0]
        == 'p' && "sequence"@[0] == 's');
    assert forall|i: int, j: int| 0 <= i < j < members.len() implies text_lt(
        #[trigger] members[i].0,
        #[trigger] members[j].0,
    ) by {
        lemma_first_char_orders(members[i].0, members[j].0);
    }
    lemma_asset_is_plain(
        download_url(photo.0.sha256@),
        photo.1.orig_width,
        photo.1.orig_height,
        (depth - 1) as nat,
    );
    lemma_asset_is_plain(
        preview_url(photo.0.sha256@),
        photo.1.preview_width,
        photo.1.preview_height,
        (depth - 1) as nat,
    );
}

/// A gallery that was made of photos is plain, so it is read back from its
/// document as it was written.
pub proof fn law_created_gallery_is_plain(
    title: Seq<char>,
    photos: Seq<(SourcePhoto, ProcessedDimensions)>,
)
    ensures
        is_plain(gallery_json(title, photos), 127),
{
    let members = gallery_json(title, photos)->Object_0;
    reveal_with_fuel(is_plain, 2);
    reveal_strlit("gallery");
    reveal_strlit("photos");
    reveal_strlit("schemaVersion");
    reveal_strlit("id");
    reveal_strlit("title");
    assert("gallery"@[0] == 'g' && "photos"@[0] == 'p' && "schemaVersion"@[0] == 's');
    assert("id"@[0] == 'i' && "title"@[0] == 't');
    assert forall|i: int, j: int| 0 <= i < j < members.len() implies text_lt(
        #[trigger] members[i].0,
        #[trigger] members[j].0,
    ) by {
        lemma_first_char_orders(members[i].0, members[j].0);
    }
    let inner = members[0].1->Object_0;
    assert(is_plain(members[0].1, 126)) by {
        lemma_first_char_orders(inner[0].0, inner[1].0);
    }
    assert(is_plain(members[1].1, 126)) by {
        let items = members[1].1->Array_0;
        assert forall|i: int| 0 <= i < items.len() implies is_plain(#[trigger] items[i], 125) by {
            lemma_photo_is_plain(photos[i], i, 125);
        }
    }
}

/// What a gallery holds of its photos.
pub proof fn lemma_gallery_photos(
    title: Seq<char>,
    photos: Seq<(SourcePhoto, ProcessedDimensions)>,
)
    ensures
        field(gallery_json(title, photos), "photos"@) == Some(
            JsonView::Array(Seq::new(photos.len(), |i: int| photo_json(photos[i], i))),
        ),
{
    let members = gallery_json(title, photos)->Object_0;
    reveal_strlit("gallery");
    reveal_strlit("photos");
    assert("gallery"@[0] == 'g' && "photos"@[0] == 'p');
    assert(members.drop_first()[0] == members[1]);
    reveal_with_fuel(member, 2);
}

/// A gallery that was made of photos passes the check of its assets where they
/// are found as they were made.
pub proof fn law_created_gallery_verifies(
    title: Seq<char>,
    photos: Seq<(SourcePhoto, ProcessedDimensions)>,
    seen: Seq<AssetObservation>,
)
    requires
        assets_as_made(photos, seen),
    ensures
        gallery_assets_error(gallery_json(title, photos), seen) is None,
{
    lemma_gallery_photos(title, photos);
    lemma_photos_verify(photos, seen, 0);
}

} // verus!
