//! What the public manifest shows of a gallery, and which gallery has one.

use crate::digest::hex_sha256;
use crate::journal::{journal_error, JournalPhase, JournalView};
use crate::json::{field, member, JsonView};
use crate::laws::journal::{is_digest, lemma_digest};
use crate::laws::ledgers::says_something;
use crate::laws::texts::law_trailing_slashes_are_taken_off;
use crate::manifest::{
    public_asset, public_gallery, public_photo, public_photos, public_url_text, ManifestError,
};
use crate::paths::is_publication_path;
use crate::planner::{committed_pair_error, local_error, LocalView, PlannerError};
use crate::site::{
    law_public_asset_changes_its_url_only, law_public_gallery_changes_its_photos_only,
    law_public_photo_changes_its_assets_only, lemma_replaced,
};
use crate::text::without_trailing_slashes;
use vstd::prelude::*;

verus! {

/// The URL of an asset of a photo.
pub open spec fn url_of(photo: JsonView, asset: Seq<char>) -> Option<Seq<char>> {
    match field(photo, asset) {
        Some(value) => match field(value, "url"@) {
            Some(JsonView::Text(url)) => Some(url),
            _ => None,
        },
        None => None,
    }
}

/// The photos of a gallery.
pub open spec fn listed_photos(gallery: JsonView) -> Option<Seq<JsonView>> {
    match field(gallery, "photos"@) {
        Some(JsonView::Array(photos)) => Some(photos),
        _ => None,
    }
}

/// Whether a URL is that of a publication path below a base: the base without the
/// slashes at its end, one slash, and the path.
pub open spec fn is_below_base(url: Seq<char>, base: Seq<char>, path: Seq<char>) -> bool {
    exists|n: int|
        0 <= n <= base.len() && url == #[trigger] base.take(n) + seq!['/'] + path && (n > 0
            ==> base[n - 1] != '/') && forall|i: int|
            n <= i < base.len() ==> #[trigger] base[i] == '/'
}

/// Whether a photo is the public form of another: its preview is below the one base
/// and its download, where there is one, below the other.
pub open spec fn is_public_photo(
    made: JsonView,
    photo: JsonView,
    preview: Seq<char>,
    download: Seq<char>,
) -> bool {
    &&& url_of(photo, "preview"@) is Some
    &&& url_of(made, "preview"@) is Some
    &&& is_below_base(
        url_of(made, "preview"@)->0,
        preview,
        url_of(photo, "preview"@)->0,
    )
    &&& field(photo, "download"@) is Some <==> field(made, "download"@) is Some
    &&& field(photo, "download"@) is Some ==> url_of(photo, "download"@) is Some && url_of(
        made,
        "download"@,
    ) is Some && is_below_base(
        url_of(made, "download"@)->0,
        download,
        url_of(photo, "download"@)->0,
    )
}

/// Whether a gallery is the public form of another: the photos are in their places,
/// each in its public form, and everything else is as it was.
pub open spec fn is_public_form(
    made: JsonView,
    gallery: JsonView,
    preview: Seq<char>,
    download: Seq<char>,
) -> bool {
    &&& listed_photos(gallery) is Some
    &&& listed_photos(made) is Some
    &&& listed_photos(made)->0.len() == listed_photos(gallery)->0.len()
    &&& forall|i: int|
        0 <= i < listed_photos(gallery)->0.len() ==> is_public_photo(
            #[trigger] listed_photos(made)->0[i],
            listed_photos(gallery)->0[i],
            preview,
            download,
        )
    &&& forall|key: Seq<char>|
        key != "photos"@ ==> #[trigger] field(made, key) == field(gallery, key)
}

proof fn lemma_below_base(base: Seq<char>, path: Seq<char>)
    ensures
        is_below_base(public_url_text(base, path), base, path),
{
    let stem = without_trailing_slashes(base);
    let n = stem.len() as int;
    law_trailing_slashes_are_taken_off(base);
    reveal_strlit("/");
    assert("/"@ =~= seq!['/']);
    assert(public_url_text(base, path) == base.take(n) + seq!['/'] + path);
    if n > 0 {
        assert(stem.last() == base[n - 1]);
    }
}

/// In a public manifest the preview of every photo is below the preview base and its
/// download, where it has one, below the download base; nothing else but the URLs of
/// the photos' assets is changed.
pub proof fn law_manifest_shows_public_urls(
    gallery: JsonView,
    preview: Seq<char>,
    download: Seq<char>,
)
    requires
        public_gallery(gallery, preview, download) is Ok,
    ensures
        is_public_form(
            public_gallery(gallery, preview, download)->Ok_0,
            gallery,
            preview,
            download,
        ),
{
    let made = public_gallery(gallery, preview, download)->Ok_0;
    law_public_gallery_changes_its_photos_only(gallery, preview, download, made, "photos"@);
    let before = listed_photos(gallery)->0;
    let after = listed_photos(made)->0;
    assert forall|i: int| 0 <= i < before.len() implies is_public_photo(
        #[trigger] after[i],
        before[i],
        preview,
        download,
    ) by {
        assert(public_photo(before[i], preview, download) == Ok::<JsonView, ManifestError>(
            after[i],
        ));
        law_public_photo_changes_its_assets_only(
            before[i],
            preview,
            download,
            after[i],
            "preview"@,
        );
        let shown = field(before[i], "preview"@)->0;
        law_public_asset_changes_its_url_only(
            shown,
            preview,
            field(after[i], "preview"@)->0,
            "url"@,
        );
        lemma_below_base(preview, url_of(before[i], "preview"@)->0);
        if field(before[i], "download"@) is Some {
            law_public_asset_changes_its_url_only(
                field(before[i], "download"@)->0,
                download,
                field(after[i], "download"@)->0,
                "url"@,
            );
            lemma_below_base(download, url_of(before[i], "download"@)->0);
        }
    }
    assert forall|key: Seq<char>| key != "photos"@ implies #[trigger] field(made, key) == field(
        gallery,
        key,
    ) by {
        law_public_gallery_changes_its_photos_only(gallery, preview, download, made, key);
    }
}

/// Whether an asset of a photo can be made public: its URL is a publication path.
pub open spec fn has_public_path(photo: JsonView, asset: Seq<char>) -> bool {
    url_of(photo, asset) matches Some(url) && is_publication_path(url)
}

/// Whether a photo can be made public: it has a preview whose URL is a publication
/// path, and so has its download where it has one.
pub open spec fn can_go_public(photo: JsonView) -> bool {
    &&& has_public_path(photo, "preview"@)
    &&& field(photo, "download"@) is Some ==> has_public_path(photo, "download"@)
}

/// A gallery has a public form exactly where it lists photos and each of them can be
/// made public.
pub proof fn law_gallery_goes_public_iff(
    gallery: JsonView,
    preview: Seq<char>,
    download: Seq<char>,
)
    ensures
        public_gallery(gallery, preview, download) is Ok <==> {
            &&& listed_photos(gallery) is Some
            &&& forall|i: int|
                0 <= i < listed_photos(gallery)->0.len() ==> can_go_public(
                    #[trigger] listed_photos(gallery)->0[i],
                )
        },
        listed_photos(gallery) is None ==> public_gallery(gallery, preview, download) == Err::<
            JsonView,
            ManifestError,
        >(ManifestError::NoPhotosArray),
{
    if listed_photos(gallery) is Some {
        lemma_photos_go_public(listed_photos(gallery)->0, preview, download, 0);
    }
}

proof fn lemma_photos_go_public(
    photos: Seq<JsonView>,
    preview: Seq<char>,
    download: Seq<char>,
    i: int,
)
    requires
        0 <= i <= photos.len(),
    ensures
        public_photos(photos, preview, download, i) is Ok <==> forall|j: int|
            i <= j < photos.len() ==> can_go_public(#[trigger] photos[j]),
    decreases photos.len() - i,
{
    if i < photos.len() {
        lemma_photos_go_public(photos, preview, download, i + 1);
        lemma_photo_goes_public(photos[i], preview, download);
    }
}

proof fn lemma_photo_goes_public(photo: JsonView, preview: Seq<char>, download: Seq<char>)
    ensures
        public_photo(photo, preview, download) is Ok <==> can_go_public(photo),
{
    match photo {
        JsonView::Object(members) => {
            reveal_strlit("preview");
            reveal_strlit("download");
            assert("preview"@.len() != "download"@.len());
            if member(members, "preview"@) is Some {
                let shown = member(members, "preview"@)->0;
                match public_asset(shown, preview) {
                    Ok(asset) => {
                        lemma_replaced(members, "preview"@, asset, "download"@);
                    },
                    Err(_) => {},
                }
            }
        },
        _ => {},
    }
}

/// The active pair is the committed one exactly where the record is valid and
/// committed, and both files are there with its digests.
pub proof fn law_committed_pair_iff(
    journal: JournalView,
    gallery: Option<Seq<u8>>,
    state: Option<Seq<u8>>,
)
    ensures
        committed_pair_error(journal, gallery, state) is None <==> {
            &&& journal_error(journal) is None
            &&& journal.phase == JournalPhase::Committed
            &&& gallery matches Some(shown)
            &&& hex_sha256(shown) == journal.gallery_sha256
            &&& state matches Some(kept)
            &&& hex_sha256(kept) == journal.state_sha256
        },
        committed_pair_error(journal, gallery, state) == Some(PlannerError::NotCommitted)
            ==> journal_error(journal) is None && journal.phase != JournalPhase::Committed,
        committed_pair_error(journal, gallery, state) == Some(
            PlannerError::HashesDifferFromJournal,
        ) ==> journal.phase == JournalPhase::Committed && !({
            &&& gallery matches Some(shown)
            &&& hex_sha256(shown) == journal.gallery_sha256
            &&& state matches Some(kept)
            &&& hex_sha256(kept) == journal.state_sha256
        }),
{
}

/// A local publication is named by a generation and two digests, and by nothing less.
pub proof fn law_local_publication_iff(v: LocalView)
    ensures
        local_error(v) is None <==> says_something(v.generation) && is_digest(v.state_hash)
            && is_digest(v.manifest_hash),
        local_error(v) == Some(PlannerError::MissingGeneration) <==> !says_something(v.generation),
        local_error(v) == Some(PlannerError::InvalidStateHash) ==> !is_digest(v.state_hash),
        local_error(v) == Some(PlannerError::InvalidManifestHash) ==> !is_digest(v.manifest_hash),
{
    lemma_digest(v.state_hash);
    lemma_digest(v.manifest_hash);
}

} // verus!
