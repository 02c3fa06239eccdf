//! What the public manifest and the composed bundle promise: every asset URL is
//! public and nothing else changes, and the site holds the manifest and the
//! template.

use crate::bundle::{bundle_of, content_at, given_file_error, given_files_error, keys_distinct};
use crate::committed::path_error;
use crate::config::ProjectPublicationConfig;
use crate::gallery::{as_items, as_text};
use crate::inventory::{
    entries_map, has_key, is_listed, key_position, keys_ascend, lemma_empty_listed, lemma_listed,
};
use crate::json::{field, is_plain, json_document, member, JsonView};
use crate::manifest::{
    composed_files, public_asset, public_gallery, public_manifest, public_photo, public_photos,
    public_url_text, with_member, ManifestError,
};
use crate::paths::{is_component, is_plain_component, is_portable_path};
use crate::text::{lemma_text_lt_irreflexive, text_lt, without_trailing_slashes};
use vstd::prelude::*;

verus! {

// ---------------------------------------------------------------------------
// Public URLs
// ---------------------------------------------------------------------------
proof fn lemma_stripped(base: Seq<char>)
    ensures
        without_trailing_slashes(base).len() <= base.len(),
        without_trailing_slashes(base) == base.take(without_trailing_slashes(base).len() as int),
        without_trailing_slashes(base).len() > 0 ==> without_trailing_slashes(base).last() != '/',
        forall|i: int|
            without_trailing_slashes(base).len() <= i < base.len() ==> #[trigger] base[i] == '/',
    decreases base.len(),
{
    if base.len() > 0 && base.last() == '/' {
        let rest = base.drop_last();
        lemma_stripped(rest);
        let n = without_trailing_slashes(base).len() as int;
        assert(rest.take(n) =~= base.take(n));
        assert forall|i: int| n <= i < base.len() implies #[trigger] base[i] == '/' by {
            if i < rest.len() {
                assert(rest[i] == base[i]);
            }
        }
    } else {
        assert(base.take(base.len() as int) =~= base);
    }
}

/// A public URL is the base without its trailing slashes, one slash, and the
/// publication path, which starts with none.
pub proof fn law_public_url_has_one_slash_at_the_join(base: Seq<char>, path: Seq<char>)
    requires
        path_error(path) is None,
    ensures
        ({
            let url = public_url_text(base, path);
            let n = without_trailing_slashes(base).len() as int;
            &&& n <= base.len()
            &&& url == base.take(n) + "/"@ + path
            &&& n > 0 ==> base[n - 1] != '/'
            &&& forall|i: int| n <= i < base.len() ==> #[trigger] base[i] == '/'
            &&& path[0] == 'p'
        }),
{
    lemma_stripped(base);
    reveal_strlit("photos/");
    let n = without_trailing_slashes(base).len() as int;
    if n > 0 {
        assert(without_trailing_slashes(base).last() == base[n - 1]);
    }
    assert(path.take(7)[0] == "photos/"@[0]);
}

// ---------------------------------------------------------------------------
// The manifest
// ---------------------------------------------------------------------------
/// The members with another value under a key have that value there, and what
/// they had under any other.
pub proof fn lemma_replaced(
    members: Seq<(Seq<char>, JsonView)>,
    key: Seq<char>,
    value: JsonView,
    other: Seq<char>,
)
    ensures
        member(with_member(members, key, value), key) == Some(value),
        other != key ==> member(with_member(members, key, value), other) == member(members, other),
    decreases members.len(),
{
    let made = with_member(members, key, value);
    if members.len() == 0 {
        assert(made.drop_first() =~= members);
        assert(member(made.drop_first(), other) is None);
    } else if members[0].0 == key {
        assert(made.drop_first() =~= members.drop_first());
    } else {
        lemma_replaced(members.drop_first(), key, value, other);
        assert(made.drop_first() =~= with_member(members.drop_first(), key, value));
        assert(made[0] == members[0]);
    }
}

proof fn lemma_replaced_in_place(
    members: Seq<(Seq<char>, JsonView)>,
    key: Seq<char>,
    value: JsonView,
)
    requires
        member(members, key) is Some,
    ensures
        ({
            let made = with_member(members, key, value);
            &&& made.len() == members.len()
            &&& forall|i: int|
                0 <= i < made.len() ==> (#[trigger] made[i]).0 == members[i].0 && (made[i].1
                    == members[i].1 || made[i].1 == value)
        }),
        exists|i: int| 0 <= i < members.len() && (#[trigger] members[i]).1 == member(members, key)->0,
    decreases members.len(),
{
    let made = with_member(members, key, value);
    if members[0].0 == key {
        assert(members[0].1 == member(members, key)->0);
    } else {
        let rest = members.drop_first();
        lemma_replaced_in_place(rest, key, value);
        let found = choose|i: int| 0 <= i < rest.len() && (#[trigger] rest[i]).1 == member(rest, key)->0;
        assert(members[found + 1].1 == member(members, key)->0);
        assert forall|i: int| 0 <= i < made.len() implies (#[trigger] made[i]).0 == members[i].0
            && (made[i].1 == members[i].1 || made[i].1 == value) by {
            if i > 0 {
                assert(made[i] == with_member(rest, key, value)[i - 1]);
                assert(members[i] == rest[i - 1]);
            }
        }
    }
}

/// A plain value of which one member is replaced by a plain one stays plain.
proof fn lemma_replaced_is_plain(
    members: Seq<(Seq<char>, JsonView)>,
    key: Seq<char>,
    value: JsonView,
    depth: nat,
)
    requires
        member(members, key) is Some,
        is_plain(JsonView::Object(members), depth),
        is_plain(value, (depth - 1) as nat),
    ensures
        is_plain(JsonView::Object(with_member(members, key, value)), depth),
{
    let made = with_member(members, key, value);
    lemma_replaced_in_place(members, key, value);
    assert forall|i: int| 0 <= i < made.len() implies is_plain(
        (#[trigger] made[i]).1,
        (depth - 1) as nat,
    ) by {
        assert(is_plain(members[i].1, (depth - 1) as nat));
    }
    assert forall|i: int, j: int| 0 <= i < j < made.len() implies text_lt(
        #[trigger] made[i].0,
        #[trigger] made[j].0,
    ) by {
        assert(text_lt(members[i].0, members[j].0));
    }
}

/// A member of a plain value is plain.
proof fn lemma_member_is_plain(
    members: Seq<(Seq<char>, JsonView)>,
    key: Seq<char>,
    depth: nat,
)
    requires
        member(members, key) is Some,
        is_plain(JsonView::Object(members), depth),
    ensures
        depth > 0,
        is_plain(member(members, key)->0, (depth - 1) as nat),
{
    lemma_replaced_in_place(members, key, JsonView::Null);
    let i = choose|i: int|
        0 <= i < members.len() && (#[trigger] members[i]).1 == member(members, key)->0;
    assert(is_plain(members[i].1, (depth - 1) as nat));
}

proof fn lemma_public_asset_is_plain(asset: JsonView, base: Seq<char>, depth: nat)
    requires
        is_plain(asset, depth),
        public_asset(asset, base) is Ok,
    ensures
        is_plain(public_asset(asset, base)->Ok_0, depth),
{
    match asset {
        JsonView::Object(members) => {
            let url = as_text(member(members, "url"@))->0;
            lemma_replaced_is_plain(
                members,
                "url"@,
                JsonView::Text(public_url_text(base, url)),
                depth,
            );
        },
        _ => {},
    }
}

proof fn lemma_public_photo_is_plain(
    photo: JsonView,
    preview: Seq<char>,
    download: Seq<char>,
    depth: nat,
)
    requires
        is_plain(photo, depth),
        public_photo(photo, preview, download) is Ok,
    ensures
        is_plain(public_photo(photo, preview, download)->Ok_0, depth),
{
    match photo {
        JsonView::Object(members) => {
            let first = public_asset(member(members, "preview"@)->0, preview)->Ok_0;
            let next = with_member(members, "preview"@, first);
            lemma_member_is_plain(members, "preview"@, depth);
            lemma_public_asset_is_plain(
                member(members, "preview"@)->0,
                preview,
                (depth - 1) as nat,
            );
            lemma_replaced_is_plain(members, "preview"@, first, depth);
            if member(next, "download"@) is Some {
                let second = public_asset(member(next, "download"@)->0, download)->Ok_0;
                lemma_member_is_plain(next, "download"@, depth);
                lemma_public_asset_is_plain(
                    member(next, "download"@)->0,
                    download,
                    (depth - 1) as nat,
                );
                lemma_replaced_is_plain(next, "download"@, second, depth);
            }
        },
        _ => {},
    }
}

/// A public asset has the public URL, and everything else of it is as it was.
pub proof fn law_public_asset_changes_its_url_only(
    asset: JsonView,
    base: Seq<char>,
    made: JsonView,
    key: Seq<char>,
)
    requires
        public_asset(asset, base) == Ok::<JsonView, ManifestError>(made),
    ensures
        as_text(field(asset, "url"@)) is Some,
        as_text(field(made, "url"@)) == Some(
            public_url_text(base, as_text(field(asset, "url"@))->0),
        ),
        key != "url"@ ==> field(made, key) == field(asset, key),
{
    match asset {
        JsonView::Object(members) => {
            let url = as_text(member(members, "url"@))->0;
            lemma_replaced(members, "url"@, JsonView::Text(public_url_text(base, url)), key);
        },
        _ => {},
    }
}

/// A public photo has its preview below the one base and its download, where it
/// has one, below the other, and everything else of it is as it was.
pub proof fn law_public_photo_changes_its_assets_only(
    photo: JsonView,
    preview: Seq<char>,
    download: Seq<char>,
    made: JsonView,
    key: Seq<char>,
)
    requires
        public_photo(photo, preview, download) == Ok::<JsonView, ManifestError>(made),
    ensures
        field(photo, "preview"@) is Some,
        field(made, "preview"@) is Some,
        public_asset(field(photo, "preview"@)->0, preview) == Ok::<JsonView, ManifestError>(
            field(made, "preview"@)->0,
        ),
        field(photo, "download"@) is Some <==> field(made, "download"@) is Some,
        field(photo, "download"@) is Some ==> public_asset(
            field(photo, "download"@)->0,
            download,
        ) == Ok::<JsonView, ManifestError>(field(made, "download"@)->0),
        key != "preview"@ && key != "download"@ ==> field(made, key) == field(photo, key),
{
    reveal_strlit("preview");
    reveal_strlit("download");
    assert("preview"@ != "download"@) by {
        assert("preview"@.len() != "download"@.len());
    }
    match photo {
        JsonView::Object(members) => {
            let first = public_asset(member(members, "preview"@)->0, preview)->Ok_0;
            let next = with_member(members, "preview"@, first);
            lemma_replaced(members, "preview"@, first, key);
            lemma_replaced(members, "preview"@, first, "download"@);
            if member(next, "download"@) is Some {
                let second = public_asset(member(next, "download"@)->0, download)->Ok_0;
                lemma_replaced(next, "download"@, second, key);
                lemma_replaced(next, "download"@, second, "preview"@);
            }
        },
        _ => {},
    }
}

proof fn lemma_public_photos(
    photos: Seq<JsonView>,
    preview: Seq<char>,
    download: Seq<char>,
    i: int,
)
    requires
        0 <= i <= photos.len(),
        public_photos(photos, preview, download, i) is Ok,
    ensures
        ({
            let made = public_photos(photos, preview, download, i)->Ok_0;
            &&& made.len() == photos.len() - i
            &&& forall|j: int|
                i <= j < photos.len() ==> public_photo(#[trigger] photos[j], preview, download)
                    == Ok::<JsonView, ManifestError>(made[j - i])
        }),
    decreases photos.len() - i,
{
    if i < photos.len() {
        lemma_public_photos(photos, preview, download, i + 1);
        let made = public_photos(photos, preview, download, i)->Ok_0;
        let rest = public_photos(photos, preview, download, i + 1)->Ok_0;
        assert forall|j: int| i <= j < photos.len() implies public_photo(
            #[trigger] photos[j],
            preview,
            download,
        ) == Ok::<JsonView, ManifestError>(made[j - i]) by {
            if j > i {
                assert(made[j - i] == rest[j - (i + 1)]);
            }
        }
    }
}

/// A public gallery has every photo made public, in its place, and everything
/// else of it is as it was.
pub proof fn law_public_gallery_changes_its_photos_only(
    gallery: JsonView,
    preview: Seq<char>,
    download: Seq<char>,
    made: JsonView,
    key: Seq<char>,
)
    requires
        public_gallery(gallery, preview, download) == Ok::<JsonView, ManifestError>(made),
    ensures
        as_items(field(gallery, "photos"@)) is Some,
        as_items(field(made, "photos"@)) is Some,
        ({
            let before = as_items(field(gallery, "photos"@))->0;
            let after = as_items(field(made, "photos"@))->0;
            &&& after.len() == before.len()
            &&& forall|i: int|
                0 <= i < before.len() ==> public_photo(#[trigger] before[i], preview, download)
                    == Ok::<JsonView, ManifestError>(after[i])
        }),
        key != "photos"@ ==> field(made, key) == field(gallery, key),
{
    match gallery {
        JsonView::Object(members) => {
            let photos = as_items(member(members, "photos"@))->0;
            let after = public_photos(photos, preview, download, 0)->Ok_0;
            lemma_public_photos(photos, preview, download, 0);
            lemma_replaced(members, "photos"@, JsonView::Array(after), key);
        },
        _ => {},
    }
}

/// The public form of a plain gallery is plain, so it is read back from the
/// public manifest as it was written.
pub proof fn law_public_gallery_is_plain(
    gallery: JsonView,
    preview: Seq<char>,
    download: Seq<char>,
    depth: nat,
)
    requires
        is_plain(gallery, depth),
        public_gallery(gallery, preview, download) is Ok,
    ensures
        is_plain(public_gallery(gallery, preview, download)->Ok_0, depth),
{
    match gallery {
        JsonView::Object(members) => {
            let photos = as_items(member(members, "photos"@))->0;
            let after = public_photos(photos, preview, download, 0)->Ok_0;
            lemma_public_photos(photos, preview, download, 0);
            lemma_member_is_plain(members, "photos"@, depth);
            assert(is_plain(JsonView::Array(after), (depth - 1) as nat)) by {
                assert forall|i: int| 0 <= i < after.len() implies is_plain(
                    #[trigger] after[i],
                    (depth - 2) as nat,
                ) by {
                    assert(is_plain(photos[i], (depth - 2) as nat));
                    lemma_public_photo_is_plain(
                        photos[i],
                        preview,
                        download,
                        (depth - 2) as nat,
                    );
                }
            }
            lemma_replaced_is_plain(members, "photos"@, JsonView::Array(after), depth);
        },
        _ => {},
    }
}

// ---------------------------------------------------------------------------
// The composed bundle
// ---------------------------------------------------------------------------
proof fn lemma_distinct_position(s: Seq<(Seq<char>, Seq<u8>)>, i: int)
    requires
        keys_distinct(s),
        0 <= i < s.len(),
    ensures
        has_key(s, s[i].0),
        entries_map(s).dom().contains(s[i].0),
        entries_map(s)[s[i].0] == s[i].1,
{
    assert(has_key(s, s[i].0));
    let p = key_position(s, s[i].0);
    assert(s[p].0 == s[i].0);
    if p < i {
        assert(s[p].0 != s[i].0);
    } else if i < p {
        assert(s[i].0 != s[p].0);
    }
}

proof fn lemma_distinct_listed(s: Seq<(Seq<char>, Seq<u8>)>)
    requires
        keys_distinct(s),
    ensures
        is_listed(entries_map(s)),
    decreases s.len(),
{
    if s.len() == 0 {
        assert(entries_map(s) =~= Map::<Seq<char>, Seq<u8>>::empty());
        lemma_empty_listed::<Seq<u8>>();
    } else {
        let rest = s.drop_last();
        let last = s.last();
        assert(keys_distinct(rest)) by {
            assert forall|i: int, j: int| 0 <= i < j < rest.len() implies #[trigger] rest[i].0
                != #[trigger] rest[j].0 by {
                assert(s[i].0 != s[j].0);
            }
        }
        lemma_distinct_listed(rest);
        lemma_listed(entries_map(rest), last.0, last.1);
        let m = entries_map(rest).insert(last.0, last.1);
        assert forall|k: Seq<char>| #[trigger] entries_map(s).dom().contains(k)
            == m.dom().contains(k) && (m.dom().contains(k) ==> entries_map(s)[k] == m[k]) by {
            if has_key(s, k) {
                let i = key_position(s, k);
                lemma_distinct_position(s, i);
                if i < rest.len() {
                    assert(rest[i] == s[i]);
                    lemma_distinct_position(rest, i);
                    assert(s[i].0 != s[s.len() - 1].0);
                }
            }
            if has_key(rest, k) {
                let i = key_position(rest, k);
                assert(s[i].0 == k);
                lemma_distinct_position(s, i);
                lemma_distinct_position(rest, i);
            }
            if k == last.0 {
                assert(s[s.len() - 1].0 == k);
                lemma_distinct_position(s, s.len() - 1);
            }
        }
        assert(entries_map(s) =~= m);
    }
}

proof fn lemma_kept_distinct(
    s: Seq<(Seq<char>, Seq<u8>)>,
    p: spec_fn((Seq<char>, Seq<u8>)) -> bool,
)
    requires
        keys_distinct(s),
    ensures
        keys_distinct(s.filter(p)),
    decreases s.len(),
{
    reveal(Seq::filter);
    if s.len() > 0 {
        let rest = s.drop_last();
        assert(keys_distinct(rest)) by {
            assert forall|i: int, j: int| 0 <= i < j < rest.len() implies #[trigger] rest[i].0
                != #[trigger] rest[j].0 by {
                assert(s[i].0 != s[j].0);
            }
        }
        lemma_kept_distinct(rest, p);
        let kept = rest.filter(p);
        assert forall|i: int| 0 <= i < kept.len() implies #[trigger] kept[i].0 != s.last().0 by {
            assert(kept.contains(kept[i]));
            rest.lemma_filter_contains_rev(p, kept[i]);
            let j = choose|j: int| 0 <= j < rest.len() && rest[j] == kept[i];
            assert(s[j].0 != s[s.len() - 1].0);
        }
    }
}

proof fn lemma_manifest_path()
    ensures
        is_portable_path("gallery.json"@),
{
    let s = "gallery.json"@;
    reveal_strlit("gallery.json");
    assert forall|i: int, j: int| #[trigger] is_component(s, i, j) implies is_plain_component(
        s.subrange(i, j),
    ) by {
        assert(i == 0);
        assert(j == s.len());
        assert(s.subrange(i, j) =~= s);
    }
}

proof fn lemma_no_error(given: Seq<(Seq<char>, Seq<u8>)>, i: int)
    requires
        0 <= i <= given.len(),
        given.len() > 0,
        forall|j: int| 0 <= j < given.len() ==> #[trigger] given_file_error(given, j) is None,
    ensures
        given_files_error(given, i) is None,
    decreases given.len() - i,
{
    if i < given.len() {
        lemma_no_error(given, i + 1);
    }
}

/// Composing the site out of a template always succeeds, and the site holds the
/// manifest at its canonical path and the template's content everywhere else.
pub proof fn law_composed_site_holds_manifest_and_template(
    template: Seq<(Seq<char>, Seq<u8>)>,
    manifest: Seq<u8>,
    path: Seq<char>,
)
    requires
        keys_ascend(template),
        forall|i: int| 0 <= i < template.len() ==> is_portable_path((#[trigger] template[i]).0),
    ensures
        given_files_error(composed_files(template, manifest), 0) is None,
        content_at(bundle_of(composed_files(template, manifest)).files, "gallery.json"@) == Some(
            manifest,
        ),
        path != "gallery.json"@ ==> content_at(
            bundle_of(composed_files(template, manifest)).files,
            path,
        ) == content_at(template, path),
{
    let p = |f: (Seq<char>, Seq<u8>)| f.0 != "gallery.json"@;
    let kept = template.filter(p);
    let files = composed_files(template, manifest);
    assert(keys_distinct(template)) by {
        assert forall|i: int, j: int| 0 <= i < j < template.len() implies #[trigger] template[i].0
            != #[trigger] template[j].0 by {
            assert(text_lt(template[i].0, template[j].0));
            lemma_text_lt_irreflexive(template[i].0);
        }
    }
    lemma_kept_distinct(template, p);
    assert forall|i: int| 0 <= i < kept.len() implies (#[trigger] kept[i]).0 != "gallery.json"@
        && template.contains(kept[i]) by {
        template.lemma_filter_pred(p, i);
        assert(kept.contains(kept[i]));
        template.lemma_filter_contains_rev(p, kept[i]);
    }
    assert(keys_distinct(files));
    lemma_manifest_path();
    assert forall|i: int| 0 <= i < files.len() implies #[trigger] given_file_error(
        files,
        i,
    ) is None by {
        if i < kept.len() {
            assert(files[i] == kept[i]);
            let j = choose|j: int| 0 <= j < template.len() && template[j] == kept[i];
            assert(is_portable_path(template[j].0));
        }
        if has_key(files.take(i), files[i].0) {
            let j = key_position(files.take(i), files[i].0);
            assert(files.take(i)[j] == files[j]);
            assert(files[j].0 != files[i].0);
        }
    }
    lemma_no_error(files, 0);
    lemma_distinct_listed(files);
    let made = bundle_of(files).files;
    assert(entries_map(made) == entries_map(files));
    assert forall|k: Seq<char>| #[trigger] has_key(made, k) == has_key(files, k) by {
        assert(entries_map(made).dom().contains(k) == entries_map(files).dom().contains(k));
    }
    assert(files[kept.len() as int] == ("gallery.json"@, manifest));
    lemma_distinct_position(files, kept.len() as int);
    if path != "gallery.json"@ {
        if has_key(template, path) {
            let i = key_position(template, path);
            lemma_distinct_position(template, i);
            template.lemma_filter_contains(p, i);
            let j = choose|j: int| 0 <= j < kept.len() && kept[j] == template[i];
            assert(files[j] == kept[j]);
            lemma_distinct_position(files, j);
        }
        if has_key(files, path) {
            let j = key_position(files, path);
            assert(j < kept.len());
            assert(files[j] == kept[j]);
            let i = choose|i: int| 0 <= i < template.len() && template[i] == kept[j];
            assert(template[i].0 == path);
        }
    }
}

// ---------------------------------------------------------------------------
// What the manifest depends on
// ---------------------------------------------------------------------------
proof fn lemma_bases_of_photos(
    photos: Seq<JsonView>,
    preview: Seq<char>,
    download: Seq<char>,
    other_preview: Seq<char>,
    other_download: Seq<char>,
    i: int,
)
    requires
        without_trailing_slashes(preview) == without_trailing_slashes(other_preview),
        without_trailing_slashes(download) == without_trailing_slashes(other_download),
        0 <= i <= photos.len(),
    ensures
        public_photos(photos, preview, download, i) == public_photos(
            photos,
            other_preview,
            other_download,
            i,
        ),
    decreases photos.len() - i,
{
    if i < photos.len() {
        lemma_bases_of_photos(
            photos,
            preview,
            download,
            other_preview,
            other_download,
            i + 1,
        );
    }
}

/// Slashes at the end of a base URL do not change the manifest.
pub proof fn law_trailing_slashes_do_not_enter_the_manifest(
    local: Seq<u8>,
    preview: Seq<char>,
    download: Seq<char>,
    other_preview: Seq<char>,
    other_download: Seq<char>,
)
    requires
        without_trailing_slashes(preview) == without_trailing_slashes(other_preview),
        without_trailing_slashes(download) == without_trailing_slashes(other_download),
    ensures
        public_manifest(local, preview, download) == public_manifest(
            local,
            other_preview,
            other_download,
        ),
{
    match json_document(local) {
        Some(JsonView::Object(members)) => match as_items(member(members, "photos"@)) {
            Some(photos) => {
                lemma_bases_of_photos(
                    photos,
                    preview,
                    download,
                    other_preview,
                    other_download,
                    0,
                );
            },
            None => {},
        },
        _ => {},
    }
}

/// A base URL and the same with slashes at its end have the same part before
/// them.
pub proof fn law_more_trailing_slashes(base: Seq<char>, n: nat)
    ensures
        without_trailing_slashes(base + Seq::new(n, |i: int| '/')) == without_trailing_slashes(
            base,
        ),
    decreases n,
{
    let longer = base + Seq::new(n, |i: int| '/');
    if n > 0 {
        let before = base + Seq::new((n - 1) as nat, |i: int| '/');
        law_more_trailing_slashes(base, (n - 1) as nat);
        assert(longer.drop_last() =~= before);
        assert(longer.last() == '/');
    } else {
        assert(longer =~= base);
    }
}

/// Local manifests that are read as the same document, such as the compact and
/// the indented form of one, have the same public manifest: how a document is
/// laid out does not enter it.
pub proof fn law_layout_does_not_enter_the_manifest(
    local: Seq<u8>,
    other: Seq<u8>,
    preview: Seq<char>,
    download: Seq<char>,
)
    requires
        json_document(local) == json_document(other),
    ensures
        public_manifest(local, preview, download) == public_manifest(other, preview, download),
{
}

/// The public manifest of a document depends on the two public base URLs of a
/// configuration alone: neither the prefixes nor anything else enters it.
pub proof fn law_prefixes_do_not_enter_the_manifest(
    local: Seq<u8>,
    configuration: ProjectPublicationConfig,
    other: ProjectPublicationConfig,
)
    requires
        without_trailing_slashes(configuration.preview_public_base_url@)
            == without_trailing_slashes(other.preview_public_base_url@),
        without_trailing_slashes(configuration.high_resolution_public_base_url@)
            == without_trailing_slashes(other.high_resolution_public_base_url@),
    ensures
        public_manifest(
            local,
            configuration.preview_public_base_url@,
            configuration.high_resolution_public_base_url@,
        ) == public_manifest(
            local,
            other.preview_public_base_url@,
            other.high_resolution_public_base_url@,
        ),
{
    law_trailing_slashes_do_not_enter_the_manifest(
        local,
        configuration.preview_public_base_url@,
        configuration.high_resolution_public_base_url@,
        other.preview_public_base_url@,
        other.high_resolution_public_base_url@,
    );
}

} // verus!
