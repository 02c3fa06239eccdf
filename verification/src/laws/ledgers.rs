//! When a ledger is valid, and what each change of it does to its entries.

use crate::digest::hex_sha256;
use crate::inventory::{ascending_entries, is_listed, lemma_empty_listed, lemma_listed_entries};
use crate::json::json_encoding;
use crate::laws::journal::{is_digest, lemma_digest};
use crate::ledger::{
    first_github_error, first_r2_error, github_entry_error, github_recorded, github_removed,
    law_recorded_file_accepted, law_recorded_hosting_accepted, law_recorded_object_accepted,
    law_removed_file_accepted, law_removed_object_accepted, law_reseal_idempotent,
    law_valid_iff_no_error, ledger_error, ledger_json, ledger_valid, new_ledger, r2_entry_error,
    r2_entry_of, r2_recorded, r2_removed, vercel_error, vercel_recorded, vercel_removed,
    with_header, with_vercel, GitHubEntryView, LedgerErrorView, LedgerView, OperationState,
    R2EntryView, VercelView,
};
use crate::paths::is_portable_path;
use crate::provider::StorageObjectView;
use crate::text::{is_blank_text, is_white_space};
use vstd::prelude::*;

verus! {

/// Whether a text holds more than white space.
pub open spec fn says_something(text: Seq<char>) -> bool {
    exists|i: int| 0 <= i < text.len() && !is_white_space(#[trigger] text[i])
}

/// Whether an optional text is there and holds more than white space.
pub open spec fn is_given(text: Option<Seq<char>>) -> bool {
    text matches Some(t) && says_something(t)
}

/// A ledger is valid exactly where it has the first version of the schema, digests
/// for the configuration and the published pair, and a generation; where every
/// object has a portable key and a digest, every file a portable path, a digest and
/// a revision; where the deployment has a digest and, once confirmed, an id and an
/// address; and where the digest that it carries is that of its content.
pub proof fn law_valid_ledger_iff(v: LedgerView)
    requires
        is_listed(v.r2_inventory),
        is_listed(v.github_inventory),
    ensures
        ledger_error(v) is None <==> {
            &&& v.schema_version == 1
            &&& is_digest(v.configuration_fingerprint)
            &&& is_digest(v.state_hash)
            &&& is_digest(v.manifest_hash)
            &&& says_something(v.local_generation)
            &&& forall|key: Seq<char>| #[trigger]
                v.r2_inventory.dom().contains(key) ==> is_portable_path(key) && is_digest(
                    v.r2_inventory[key].sha256,
                )
            &&& forall|path: Seq<char>| #[trigger]
                v.github_inventory.dom().contains(path) ==> is_portable_path(path) && is_digest(
                    v.github_inventory[path].sha256,
                ) && says_something(v.github_inventory[path].revision)
            &&& v.vercel matches Some(p) ==> is_digest(p.bundle_fingerprint) && (p.status
                == OperationState::Confirmed ==> is_given(p.deployment_id) && is_given(p.url))
            &&& v.record_sha256 == hex_sha256(json_encoding(ledger_json(v)))
        },
{
    law_valid_iff_no_error(v);
    lemma_digest(v.configuration_fingerprint);
    lemma_digest(v.state_hash);
    lemma_digest(v.manifest_hash);
    lemma_says_something(v.local_generation);
    if v.vercel is Some {
        lemma_digest(v.vercel->0.bundle_fingerprint);
        if v.vercel->0.deployment_id is Some {
            lemma_says_something(v.vercel->0.deployment_id->0);
        }
        if v.vercel->0.url is Some {
            lemma_says_something(v.vercel->0.url->0);
        }
    }
    assert forall|key: Seq<char>| #[trigger] v.r2_inventory.dom().contains(key) implies (
    r2_entry_error(key, v.r2_inventory[key]) is None <==> is_portable_path(key) && is_digest(
        v.r2_inventory[key].sha256,
    )) by {
        lemma_digest(v.r2_inventory[key].sha256);
    }
    assert forall|path: Seq<char>| #[trigger] v.github_inventory.dom().contains(path) implies (
    github_entry_error(path, v.github_inventory[path]) is None <==> is_portable_path(path)
        && is_digest(v.github_inventory[path].sha256) && says_something(
        v.github_inventory[path].revision,
    )) by {
        lemma_digest(v.github_inventory[path].sha256);
        lemma_says_something(v.github_inventory[path].revision);
    }
}

proof fn lemma_says_something(text: Seq<char>)
    ensures
        says_something(text) <==> !is_blank_text(text),
{
}

/// What a ledger is refused for is wrong with it.
pub proof fn law_ledger_error_has_its_cause(v: LedgerView)
    requires
        is_listed(v.r2_inventory),
        is_listed(v.github_inventory),
    ensures
        match ledger_error(v) {
            None => true,
            Some(LedgerErrorView::UnsupportedSchemaVersion) => v.schema_version != 1,
            Some(LedgerErrorView::InvalidConfigurationFingerprint) => !is_digest(
                v.configuration_fingerprint,
            ),
            Some(LedgerErrorView::InvalidStateHash) => !is_digest(v.state_hash),
            Some(LedgerErrorView::InvalidManifestHash) => !is_digest(v.manifest_hash),
            Some(LedgerErrorView::MissingGeneration) => !says_something(v.local_generation),
            Some(LedgerErrorView::InvalidStorageKey) => exists|key: Seq<char>| #[trigger]
                v.r2_inventory.dom().contains(key) && !is_portable_path(key),
            Some(LedgerErrorView::InvalidStorageDigest) => exists|key: Seq<char>| #[trigger]
                v.r2_inventory.dom().contains(key) && !is_digest(v.r2_inventory[key].sha256),
            Some(LedgerErrorView::InvalidRepositoryPath) => exists|path: Seq<char>| #[trigger]
                v.github_inventory.dom().contains(path) && !is_portable_path(path),
            Some(LedgerErrorView::InvalidRepositoryDigest) => exists|path: Seq<char>| #[trigger]
                v.github_inventory.dom().contains(path) && !is_digest(
                    v.github_inventory[path].sha256,
                ),
            Some(LedgerErrorView::MissingRevision) => exists|path: Seq<char>| #[trigger]
                v.github_inventory.dom().contains(path) && !says_something(
                    v.github_inventory[path].revision,
                ),
            Some(LedgerErrorView::InvalidBundleFingerprint) => v.vercel is Some && !is_digest(
                v.vercel->0.bundle_fingerprint,
            ),
            Some(LedgerErrorView::IncompleteDeployment) => v.vercel is Some && v.vercel->0.status
                == OperationState::Confirmed && !(is_given(v.vercel->0.deployment_id) && is_given(
                v.vercel->0.url,
            )),
            Some(LedgerErrorView::DigestMismatch) => v.record_sha256 != hex_sha256(
                json_encoding(ledger_json(v)),
            ),
            _ => false,
        },
{
    lemma_digest(v.configuration_fingerprint);
    lemma_digest(v.state_hash);
    lemma_digest(v.manifest_hash);
    lemma_says_something(v.local_generation);
    let objects = ascending_entries(v.r2_inventory);
    let files = ascending_entries(v.github_inventory);
    lemma_listed_entries(v.r2_inventory);
    lemma_listed_entries(v.github_inventory);
    if first_r2_error(objects) is Some {
        let i = lemma_first_object(objects);
        let key = objects[i].0;
        assert(v.r2_inventory.dom().contains(key));
        lemma_digest(v.r2_inventory[key].sha256);
    }
    if first_github_error(files) is Some {
        let i = lemma_first_file(files);
        let path = files[i].0;
        assert(v.github_inventory.dom().contains(path));
        lemma_digest(v.github_inventory[path].sha256);
        lemma_says_something(v.github_inventory[path].revision);
    }
    if v.vercel is Some {
        lemma_digest(v.vercel->0.bundle_fingerprint);
        if v.vercel->0.deployment_id is Some {
            lemma_says_something(v.vercel->0.deployment_id->0);
        }
        if v.vercel->0.url is Some {
            lemma_says_something(v.vercel->0.url->0);
        }
    }
}

proof fn lemma_first_object(s: Seq<(Seq<char>, R2EntryView)>) -> (i: int)
    requires
        first_r2_error(s) is Some,
    ensures
        0 <= i < s.len(),
        first_r2_error(s) == r2_entry_error(s[i].0, s[i].1),
    decreases s.len(),
{
    if r2_entry_error(s[0].0, s[0].1) is Some {
        0
    } else {
        let i = lemma_first_object(s.drop_first());
        i + 1
    }
}

proof fn lemma_first_file(s: Seq<(Seq<char>, GitHubEntryView)>) -> (i: int)
    requires
        first_github_error(s) is Some,
    ensures
        0 <= i < s.len(),
        first_github_error(s) == github_entry_error(s[i].0, s[i].1),
    decreases s.len(),
{
    if github_entry_error(s[0].0, s[0].1) is Some {
        0
    } else {
        let i = lemma_first_file(s.drop_first());
        i + 1
    }
}

/// Whether two ledgers are of the same publication: same version, configuration,
/// generation and published pair.
pub open spec fn same_publication(a: LedgerView, b: LedgerView) -> bool {
    &&& a.schema_version == b.schema_version
    &&& a.configuration_fingerprint == b.configuration_fingerprint
    &&& a.local_generation == b.local_generation
    &&& a.state_hash == b.state_hash
    &&& a.manifest_hash == b.manifest_hash
}

/// Whether two ledgers say the same of every object but one.
pub open spec fn same_objects_but(a: LedgerView, b: LedgerView, key: Seq<char>) -> bool {
    forall|other: Seq<char>|
        other != key ==> (#[trigger] a.r2_inventory.dom().contains(other)
            <==> b.r2_inventory.dom().contains(other)) && (a.r2_inventory.dom().contains(other)
            ==> a.r2_inventory[other] == b.r2_inventory[other])
}

/// Whether two ledgers say the same of every file but one.
pub open spec fn same_files_but(a: LedgerView, b: LedgerView, path: Seq<char>) -> bool {
    forall|other: Seq<char>|
        other != path ==> (#[trigger] a.github_inventory.dom().contains(other)
            <==> b.github_inventory.dom().contains(other)) && (a.github_inventory.dom().contains(
            other,
        ) ==> a.github_inventory[other] == b.github_inventory[other])
}

/// An object is recorded under its key with its digest, size and media type and the
/// given state; nothing else is recorded, and an object with another key is refused.
pub proof fn law_object_is_recorded(
    v: LedgerView,
    key: Seq<char>,
    object: StorageObjectView,
    status: OperationState,
)
    ensures
        object.key != key ==> r2_recorded(v, key, object, status)
            == Err::<LedgerView, LedgerErrorView>(LedgerErrorView::KeyMismatch),
        ledger_valid(v) && object.key == key && is_portable_path(key) && is_digest(object.sha256)
            ==> r2_recorded(v, key, object, status) is Ok,
        r2_recorded(v, key, object, status) matches Ok(next) ==> {
            &&& next.r2_inventory.dom().contains(key)
            &&& next.r2_inventory[key].sha256 == object.sha256
            &&& next.r2_inventory[key].size_bytes == object.size_bytes
            &&& next.r2_inventory[key].content_type == object.content_type
            &&& next.r2_inventory[key].status == status
            &&& same_objects_but(v, next, key)
            &&& next.github_inventory == v.github_inventory
            &&& next.vercel == v.vercel
            &&& same_publication(v, next)
        },
{
    lemma_digest(object.sha256);
    if ledger_valid(v) && object.key == key && is_portable_path(key) && is_digest(object.sha256) {
        law_recorded_object_accepted(v, key, r2_entry_of(object, status));
    }
}

/// A recorded object is removed, and nothing else is; one that is not recorded is
/// not removed.
pub proof fn law_object_is_removed(v: LedgerView, key: Seq<char>)
    ensures
        !v.r2_inventory.dom().contains(key) ==> r2_removed(v, key)
            == Err::<LedgerView, LedgerErrorView>(LedgerErrorView::UnrecordedStorageKey(key)),
        ledger_valid(v) && v.r2_inventory.dom().contains(key) ==> r2_removed(v, key) is Ok,
        r2_removed(v, key) matches Ok(next) ==> {
            &&& !next.r2_inventory.dom().contains(key)
            &&& same_objects_but(v, next, key)
            &&& next.github_inventory == v.github_inventory
            &&& next.vercel == v.vercel
            &&& same_publication(v, next)
        },
{
    if ledger_valid(v) {
        law_removed_object_accepted(v, key);
    }
}

/// A file is recorded under its path as given, and nothing else is recorded.
pub proof fn law_file_is_recorded(v: LedgerView, path: Seq<char>, entry: GitHubEntryView)
    ensures
        ledger_valid(v) && is_portable_path(path) && is_digest(entry.sha256) && says_something(
            entry.revision,
        ) ==> github_recorded(v, path, entry) is Ok,
        github_recorded(v, path, entry) matches Ok(next) ==> {
            &&& next.github_inventory.dom().contains(path)
            &&& next.github_inventory[path] == entry
            &&& same_files_but(v, next, path)
            &&& next.r2_inventory == v.r2_inventory
            &&& next.vercel == v.vercel
            &&& same_publication(v, next)
        },
{
    lemma_digest(entry.sha256);
    lemma_says_something(entry.revision);
    if ledger_valid(v) && github_entry_error(path, entry) is None {
        law_recorded_file_accepted(v, path, entry);
    }
}

/// A recorded file is removed, and nothing else is; one that is not recorded is not
/// removed.
pub proof fn law_file_is_removed(v: LedgerView, path: Seq<char>)
    ensures
        !v.github_inventory.dom().contains(path) ==> github_removed(v, path)
            == Err::<LedgerView, LedgerErrorView>(LedgerErrorView::UnrecordedRepositoryPath(path)),
        ledger_valid(v) && v.github_inventory.dom().contains(path) ==> github_removed(v, path)
            is Ok,
        github_removed(v, path) matches Ok(next) ==> {
            &&& !next.github_inventory.dom().contains(path)
            &&& same_files_but(v, next, path)
            &&& next.r2_inventory == v.r2_inventory
            &&& next.vercel == v.vercel
            &&& same_publication(v, next)
        },
{
    if ledger_valid(v) {
        law_removed_file_accepted(v, path);
    }
}

/// A deployment is recorded as given, and nothing else is recorded; a confirmed one
/// needs an id and an address.
pub proof fn law_deployment_is_recorded(v: LedgerView, p: VercelView)
    ensures
        ledger_valid(v) ==> (vercel_recorded(v, p) is Ok <==> is_digest(p.bundle_fingerprint) && (
        p.status == OperationState::Confirmed ==> is_given(p.deployment_id) && is_given(p.url))),
        vercel_recorded(v, p) matches Ok(next) ==> {
            &&& next.vercel == Some(p)
            &&& next.r2_inventory == v.r2_inventory
            &&& next.github_inventory == v.github_inventory
            &&& same_publication(v, next)
        },
{
    lemma_digest(p.bundle_fingerprint);
    if p.deployment_id is Some {
        lemma_says_something(p.deployment_id->0);
    }
    if p.url is Some {
        lemma_says_something(p.url->0);
    }
    if ledger_valid(v) {
        if vercel_error(Some(p)) is None {
            law_recorded_hosting_accepted(v, Some(p));
        } else {
            law_valid_iff_no_error(with_vercel(v, Some(p)));
        }
    }
}

/// A recorded deployment is removed, and nothing else is; where none is recorded,
/// none is removed.
pub proof fn law_deployment_is_removed(v: LedgerView)
    ensures
        v.vercel is None ==> vercel_removed(v) == Err::<LedgerView, LedgerErrorView>(
            LedgerErrorView::UnrecordedDeployment,
        ),
        ledger_valid(v) && v.vercel is Some ==> vercel_removed(v) is Ok,
        vercel_removed(v) matches Ok(next) ==> {
            &&& next.vercel is None
            &&& next.r2_inventory == v.r2_inventory
            &&& next.github_inventory == v.github_inventory
            &&& same_publication(v, next)
        },
{
    if ledger_valid(v) {
        law_recorded_hosting_accepted(v, None);
    }
}

/// A ledger that adopts a publication takes over its configuration, generation and
/// published pair, and keeps what it knows of the objects, files and deployment.
pub proof fn law_adopted_publication_is_named(
    v: LedgerView,
    configuration_fingerprint: Seq<char>,
    local_generation: Seq<char>,
    state_hash: Seq<char>,
    manifest_hash: Seq<char>,
)
    ensures
        ({
            let next = with_header(
                v,
                configuration_fingerprint,
                local_generation,
                state_hash,
                manifest_hash,
            );
            &&& next.schema_version == v.schema_version
            &&& next.configuration_fingerprint == configuration_fingerprint
            &&& next.local_generation == local_generation
            &&& next.state_hash == state_hash
            &&& next.manifest_hash == manifest_hash
            &&& next.r2_inventory == v.r2_inventory
            &&& next.github_inventory == v.github_inventory
            &&& next.vercel == v.vercel
        }),
{
}

/// A new ledger names its publication and knows of no object, no file and no
/// deployment. It is valid exactly where its digests are digests and the generation
/// is named.
pub proof fn law_new_ledger_knows_nothing(
    configuration_fingerprint: Seq<char>,
    local_generation: Seq<char>,
    state_hash: Seq<char>,
    manifest_hash: Seq<char>,
)
    ensures
        ({
            let v = new_ledger(
                configuration_fingerprint,
                local_generation,
                state_hash,
                manifest_hash,
            );
            &&& v.schema_version == 1
            &&& v.configuration_fingerprint == configuration_fingerprint
            &&& v.local_generation == local_generation
            &&& v.state_hash == state_hash
            &&& v.manifest_hash == manifest_hash
            &&& forall|key: Seq<char>| !#[trigger] v.r2_inventory.dom().contains(key)
            &&& forall|path: Seq<char>| !#[trigger] v.github_inventory.dom().contains(path)
            &&& v.vercel is None
            &&& ledger_error(v) is None <==> is_digest(configuration_fingerprint) && is_digest(
                state_hash,
            ) && is_digest(manifest_hash) && says_something(local_generation)
        }),
{
    let v = new_ledger(configuration_fingerprint, local_generation, state_hash, manifest_hash);
    lemma_empty_listed::<R2EntryView>();
    lemma_empty_listed::<GitHubEntryView>();
    law_reseal_idempotent(v);
    law_valid_ledger_iff(v);
}

} // verus!
