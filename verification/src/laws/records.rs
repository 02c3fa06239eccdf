//! What the documents that are digested say, member by member.

use crate::config::{
    configuration_fingerprint_text, configuration_json, lemma_configuration_is_plain,
    ProjectPublicationConfig,
};
use crate::digest::hex_sha256;
use crate::inventory::{ascending_entries, is_listed, lemma_listed_entries};
use crate::journal::{
    artifact_json, journal_json, phase_text, ArtifactView, JournalPhase, JournalView,
};
use crate::json::{field, json_encoding, JsonView};
use crate::laws::lookup::lemma_plain_member;
use crate::ledger::{
    github_entry_json, github_inventory_json, ledger_json, r2_entry_json, r2_inventory_json,
    status_text, LedgerView, OperationState,
};
use crate::sealing::{lemma_artifact_is_plain, lemma_journal_is_plain, lemma_ledger_is_plain};
use crate::text::option_text;
use vstd::prelude::*;

verus! {

/// An optional text in a document: the text, or nothing.
pub open spec fn shown(text: Option<Seq<char>>) -> JsonView {
    match text {
        Some(t) => JsonView::Text(t),
        None => JsonView::Null,
    }
}

/// The digested content of a journal record is the record without its digest, each
/// field under its name.
pub proof fn law_journal_content(v: JournalView)
    ensures
        ({
            let content = journal_json(v);
            &&& content->Object_0.len() == 13
            &&& field(content, "schemaVersion"@) == Some(
                JsonView::Integer(v.schema_version as u64),
            )
            &&& field(content, "journalSequence"@) == Some(JsonView::Integer(v.journal_sequence))
            &&& field(content, "generation"@) == Some(JsonView::Text(v.generation))
            &&& field(content, "previousGeneration"@) == Some(shown(v.previous_generation))
            &&& field(content, "phase"@) == Some(JsonView::Text(phase_text(v.phase)))
            &&& field(content, "gallerySha256"@) == Some(JsonView::Text(v.gallery_sha256))
            &&& field(content, "stateSha256"@) == Some(JsonView::Text(v.state_sha256))
            &&& field(content, "galleryPath"@) == Some(JsonView::Text(v.gallery_path))
            &&& field(content, "statePath"@) == Some(JsonView::Text(v.state_path))
            &&& field(content, "stagingDirectory"@) == Some(JsonView::Text(v.staging_directory))
            &&& field(content, "backupDirectory"@) == Some(JsonView::Text(v.backup_directory))
            &&& field(content, "previousGallerySha256"@) == Some(shown(v.previous_gallery_sha256))
            &&& field(content, "previousStateSha256"@) == Some(shown(v.previous_state_sha256))
        }),
{
    let content = journal_json(v);
    lemma_journal_is_plain(v);
    lemma_plain_member(content, 127, 0);
    lemma_plain_member(content, 127, 1);
    lemma_plain_member(content, 127, 2);
    lemma_plain_member(content, 127, 3);
    lemma_plain_member(content, 127, 4);
    lemma_plain_member(content, 127, 5);
    lemma_plain_member(content, 127, 6);
    lemma_plain_member(content, 127, 7);
    lemma_plain_member(content, 127, 8);
    lemma_plain_member(content, 127, 9);
    lemma_plain_member(content, 127, 10);
    lemma_plain_member(content, 127, 11);
    lemma_plain_member(content, 127, 12);
}

/// The digested content of the record of a pair is its generation and both digests,
/// each under its name.
pub proof fn law_artifact_content(v: ArtifactView)
    ensures
        ({
            let content = artifact_json(v);
            &&& content->Object_0.len() == 3
            &&& field(content, "generation"@) == Some(JsonView::Text(v.generation))
            &&& field(content, "gallerySha256"@) == Some(JsonView::Text(v.gallery_sha256))
            &&& field(content, "stateSha256"@) == Some(JsonView::Text(v.state_sha256))
        }),
{
    let content = artifact_json(v);
    lemma_artifact_is_plain(v);
    lemma_plain_member(content, 127, 0);
    lemma_plain_member(content, 127, 1);
    lemma_plain_member(content, 127, 2);
}

/// The digested content of a configuration is everything but the bundle directory,
/// each part under its name.
pub proof fn law_configuration_content(c: ProjectPublicationConfig)
    ensures
        ({
            let content = configuration_json(c);
            let repository = field(content, "repository"@)->0;
            let preview = field(content, "preview"@)->0;
            let storage = field(content, "highResolution"@)->0;
            let hosting = field(content, "hosting"@)->0;
            &&& content->Object_0.len() == 5
            &&& repository->Object_0.len() == 3
            &&& preview->Object_0.len() == 2
            &&& storage->Object_0.len() == 4
            &&& hosting->Object_0.len() == 2
            &&& field(content, "projectId"@) == Some(JsonView::Text(c.project_id@))
            &&& field(repository, "provider"@) == Some(JsonView::Text(c.repository_provider@))
            &&& field(repository, "repository"@) == Some(JsonView::Text(c.repository@))
            &&& field(repository, "branch"@) == Some(shown(option_text(c.branch)))
            &&& field(preview, "prefix"@) == Some(shown(option_text(c.preview_prefix)))
            &&& field(preview, "publicBaseUrl"@) == Some(
                JsonView::Text(c.preview_public_base_url@),
            )
            &&& field(storage, "accountId"@) == Some(
                JsonView::Text(c.high_resolution_account_id@),
            )
            &&& field(storage, "bucket"@) == Some(shown(option_text(c.high_resolution_bucket)))
            &&& field(storage, "prefix"@) == Some(shown(option_text(c.high_resolution_prefix)))
            &&& field(storage, "publicBaseUrl"@) == Some(
                JsonView::Text(c.high_resolution_public_base_url@),
            )
            &&& field(hosting, "projectId"@) == Some(JsonView::Text(c.hosting.project_id@))
            &&& field(hosting, "teamId"@) == Some(shown(option_text(c.hosting.team_id)))
            &&& configuration_fingerprint_text(c) == hex_sha256(json_encoding(content))
        }),
{
    let content = configuration_json(c);
    lemma_configuration_is_plain(c);
    lemma_plain_member(content, 127, 0);
    lemma_plain_member(content, 127, 1);
    lemma_plain_member(content, 127, 2);
    lemma_plain_member(content, 127, 3);
    lemma_plain_member(content, 127, 4);
    let storage = content->Object_0[0].1;
    let hosting = content->Object_0[1].1;
    let preview = content->Object_0[2].1;
    let repository = content->Object_0[4].1;
    lemma_plain_member(storage, 126, 0);
    lemma_plain_member(storage, 126, 1);
    lemma_plain_member(storage, 126, 2);
    lemma_plain_member(storage, 126, 3);
    lemma_plain_member(hosting, 126, 0);
    lemma_plain_member(hosting, 126, 1);
    lemma_plain_member(preview, 126, 0);
    lemma_plain_member(preview, 126, 1);
    lemma_plain_member(repository, 126, 0);
    lemma_plain_member(repository, 126, 1);
    lemma_plain_member(repository, 126, 2);
}

/// The digested content of a ledger is the ledger without its digest, each field under
/// its name.
pub proof fn law_ledger_content(v: LedgerView)
    requires
        is_listed(v.r2_inventory),
        is_listed(v.github_inventory),
    ensures
        ({
            let content = ledger_json(v);
            &&& content->Object_0.len() == 8
            &&& field(content, "schemaVersion"@) == Some(
                JsonView::Integer(v.schema_version as u64),
            )
            &&& field(content, "configurationFingerprint"@) == Some(
                JsonView::Text(v.configuration_fingerprint),
            )
            &&& field(content, "localGeneration"@) == Some(JsonView::Text(v.local_generation))
            &&& field(content, "stateHash"@) == Some(JsonView::Text(v.state_hash))
            &&& field(content, "manifestHash"@) == Some(JsonView::Text(v.manifest_hash))
            &&& field(content, "r2Inventory"@) == Some(r2_inventory_json(v.r2_inventory))
            &&& field(content, "githubInventory"@) == Some(
                github_inventory_json(v.github_inventory),
            )
            &&& v.vercel is None ==> field(content, "vercel"@) == Some(JsonView::Null)
            &&& v.vercel matches Some(p) ==> {
                let entry = field(content, "vercel"@)->0;
                &&& entry->Object_0.len() == 4
                &&& field(entry, "bundleFingerprint"@) == Some(
                    JsonView::Text(p.bundle_fingerprint),
                )
                &&& field(entry, "status"@) == Some(JsonView::Text(status_text(p.status)))
                &&& field(entry, "deploymentId"@) == Some(shown(p.deployment_id))
                &&& field(entry, "url"@) == Some(shown(p.url))
            }
        }),
{
    let content = ledger_json(v);
    lemma_ledger_is_plain(v);
    lemma_plain_member(content, 127, 0);
    lemma_plain_member(content, 127, 1);
    lemma_plain_member(content, 127, 2);
    lemma_plain_member(content, 127, 3);
    lemma_plain_member(content, 127, 4);
    lemma_plain_member(content, 127, 5);
    lemma_plain_member(content, 127, 6);
    lemma_plain_member(content, 127, 7);
    if v.vercel is Some {
        let entry = content->Object_0[7].1;
        lemma_plain_member(entry, 126, 0);
        lemma_plain_member(entry, 126, 1);
        lemma_plain_member(entry, 126, 2);
        lemma_plain_member(entry, 126, 3);
    }
}

/// The digested content of a ledger has every object under its key, with its digest,
/// size, media type and state.
pub proof fn law_ledger_object_content(v: LedgerView, key: Seq<char>)
    requires
        is_listed(v.r2_inventory),
        is_listed(v.github_inventory),
        v.r2_inventory.dom().contains(key),
    ensures
        ({
            let entry = field(r2_inventory_json(v.r2_inventory), key)->0;
            let e = v.r2_inventory[key];
            &&& field(r2_inventory_json(v.r2_inventory), key) is Some
            &&& entry->Object_0.len() == 4
            &&& field(entry, "sha256"@) == Some(JsonView::Text(e.sha256))
            &&& field(entry, "sizeBytes"@) == Some(JsonView::Integer(e.size_bytes))
            &&& field(entry, "contentType"@) == Some(shown(e.content_type))
            &&& field(entry, "status"@) == Some(JsonView::Text(status_text(e.status)))
        }),
{
    let content = ledger_json(v);
    lemma_ledger_is_plain(v);
    lemma_plain_member(content, 127, 4);
    let objects = r2_inventory_json(v.r2_inventory);
    let listed = ascending_entries(v.r2_inventory);
    lemma_listed_entries(v.r2_inventory);
    let i = choose|i: int| 0 <= i < listed.len() && (#[trigger] listed[i]).0 == key;
    assert(objects->Object_0[i] == (key, r2_entry_json(v.r2_inventory[key])));
    lemma_plain_member(objects, 126, i);
    let entry = objects->Object_0[i].1;
    lemma_plain_member(entry, 125, 0);
    lemma_plain_member(entry, 125, 1);
    lemma_plain_member(entry, 125, 2);
    lemma_plain_member(entry, 125, 3);
}

/// The digested content of a ledger has every file under its path, with its digest,
/// revision and state.
pub proof fn law_ledger_file_content(v: LedgerView, path: Seq<char>)
    requires
        is_listed(v.r2_inventory),
        is_listed(v.github_inventory),
        v.github_inventory.dom().contains(path),
    ensures
        ({
            let entry = field(github_inventory_json(v.github_inventory), path)->0;
            let e = v.github_inventory[path];
            &&& field(github_inventory_json(v.github_inventory), path) is Some
            &&& entry->Object_0.len() == 3
            &&& field(entry, "sha256"@) == Some(JsonView::Text(e.sha256))
            &&& field(entry, "revision"@) == Some(JsonView::Text(e.revision))
            &&& field(entry, "status"@) == Some(JsonView::Text(status_text(e.status)))
        }),
{
    let content = ledger_json(v);
    lemma_ledger_is_plain(v);
    lemma_plain_member(content, 127, 1);
    let files = github_inventory_json(v.github_inventory);
    let listed = ascending_entries(v.github_inventory);
    lemma_listed_entries(v.github_inventory);
    let i = choose|i: int| 0 <= i < listed.len() && (#[trigger] listed[i]).0 == path;
    assert(files->Object_0[i] == (path, github_entry_json(v.github_inventory[path])));
    lemma_plain_member(files, 126, i);
    let entry = files->Object_0[i].1;
    lemma_plain_member(entry, 125, 0);
    lemma_plain_member(entry, 125, 1);
    lemma_plain_member(entry, 125, 2);
}

/// States and phases are named in the documents by their names, no two alike.
pub proof fn law_names_in_documents(
    a: OperationState,
    b: OperationState,
    p: JournalPhase,
    q: JournalPhase,
)
    ensures
        status_text(OperationState::Pending) == "pending"@,
        status_text(OperationState::Confirmed) == "confirmed"@,
        status_text(OperationState::Unknown) == "unknown"@,
        phase_text(JournalPhase::Prepared) == "PREPARED"@,
        phase_text(JournalPhase::BackupCreated) == "BACKUP_CREATED"@,
        phase_text(JournalPhase::GalleryInstalled) == "GALLERY_INSTALLED"@,
        phase_text(JournalPhase::StateInstalled) == "STATE_INSTALLED"@,
        phase_text(JournalPhase::Committed) == "COMMITTED"@,
        phase_text(JournalPhase::RolledBack) == "ROLLED_BACK"@,
        status_text(a) == status_text(b) ==> a == b,
        phase_text(p) == phase_text(q) ==> p == q,
{
    reveal_strlit("pending");
    reveal_strlit("confirmed");
    reveal_strlit("unknown");
    reveal_strlit("PREPARED");
    reveal_strlit("BACKUP_CREATED");
    reveal_strlit("GALLERY_INSTALLED");
    reveal_strlit("STATE_INSTALLED");
    reveal_strlit("COMMITTED");
    reveal_strlit("ROLLED_BACK");
    assert(status_text(a)[0] == status_text(b)[0] ==> a == b);
    assert(phase_text(p)[0] == phase_text(q)[0] ==> p == q);
}

} // verus!
