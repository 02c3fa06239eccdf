//! What the digest that a record carries finds out: a record that was altered
//! after it was sealed is refused, unless SHA-256 collides on the two contents.

use crate::digest::{collide, hex_sha256};
use crate::gallery::lemma_first_char_orders;
use crate::inventory::{ascending_entries, is_listed, keys_ascend};
use crate::journal::{
    artifact_digest, artifact_json, artifact_of, artifact_valid, is_generation_text,
    journal_digest, journal_error, journal_json, phase_text, ArtifactView, JournalPhase,
    JournalView,
};
use crate::json::{is_plain, json_encoding, optional_text_json, reads_back, JsonView};
use crate::ledger::{
    github_entry_json, github_inventory_json, ledger_digest, ledger_error, ledger_json,
    r2_entry_json, r2_inventory_json, status_text, vercel_json, GitHubEntryView, LedgerView,
    OperationState, R2EntryView, VercelView,
};
use crate::text::{is_sha256_text, lemma_text_lt_transitive, text_lt};
use vstd::prelude::*;

verus! {

// ---------------------------------------------------------------------------
// Order of keys
// ---------------------------------------------------------------------------
/// Texts that share a start are ordered by what follows.
proof fn lemma_shared_start(p: Seq<char>, x: Seq<char>, y: Seq<char>)
    requires
        x.len() > 0,
        y.len() > 0,
        x[0] < y[0],
    ensures
        text_lt(p + x, p + y),
    decreases p.len(),
{
    if p.len() == 0 {
        assert(p + x =~= x);
        assert(p + y =~= y);
        lemma_first_char_orders(x, y);
    } else {
        lemma_shared_start(p.drop_first(), x, y);
        assert((p + x).drop_first() =~= p.drop_first() + x);
        assert((p + y).drop_first() =~= p.drop_first() + y);
        assert((p + x)[0] == (p + y)[0]);
    }
}

proof fn lemma_neighbours_ascend(members: Seq<(Seq<char>, JsonView)>, i: int, j: int)
    requires
        0 <= i < j < members.len(),
        forall|k: int|
            0 <= k < members.len() - 1 ==> text_lt((#[trigger] members[k]).0, members[k + 1].0),
    ensures
        text_lt(members[i].0, members[j].0),
    decreases j - i,
{
    assert(text_lt(members[j - 1].0, members[j].0));
    if i < j - 1 {
        lemma_neighbours_ascend(members, i, j - 1);
        lemma_text_lt_transitive(members[i].0, members[j - 1].0, members[j].0);
    }
}

/// Keys ascend where every key comes before the next one.
proof fn lemma_keys_ascend(members: Seq<(Seq<char>, JsonView)>)
    requires
        forall|k: int|
            0 <= k < members.len() - 1 ==> text_lt((#[trigger] members[k]).0, members[k + 1].0),
    ensures
        keys_ascend(members),
{
    assert forall|i: int, j: int| 0 <= i < j < members.len() implies text_lt(
        #[trigger] members[i].0,
        #[trigger] members[j].0,
    ) by {
        lemma_neighbours_ascend(members, i, j);
    }
}

// ---------------------------------------------------------------------------
// Artifact records
// ---------------------------------------------------------------------------
/// The canonical content of an artifact record is plain.
pub proof fn lemma_artifact_is_plain(v: ArtifactView)
    ensures
        is_plain(artifact_json(v), 127),
{
    let members = artifact_json(v)->Object_0;
    reveal_with_fuel(is_plain, 2);
    reveal_strlit("g");
    reveal_strlit("allerySha256");
    reveal_strlit("eneration");
    reveal_strlit("gallerySha256");
    reveal_strlit("generation");
    reveal_strlit("stateSha256");
    assert("gallerySha256"@ =~= "g"@ + "allerySha256"@);
    assert("generation"@ =~= "g"@ + "eneration"@);
    lemma_shared_start("g"@, "allerySha256"@, "eneration"@);
    lemma_first_char_orders("generation"@, "stateSha256"@);
    lemma_keys_ascend(members);
}

/// A new artifact record is valid exactly where its generation and digests are
/// well formed.
pub proof fn law_new_artifact_is_valid(
    generation: Seq<char>,
    gallery_sha256: Seq<char>,
    state_sha256: Seq<char>,
)
    ensures
        artifact_valid(artifact_of(generation, gallery_sha256, state_sha256)) <==> (
        is_generation_text(generation) && is_sha256_text(gallery_sha256) && is_sha256_text(
            state_sha256,
        )),
{
    let v = artifact_of(generation, gallery_sha256, state_sha256);
    assert(artifact_json(v) == artifact_json(ArtifactView { record_sha256: Seq::empty(), ..v }));
}

/// Whether two values that are read back and have the same digest are the same,
/// which they are where SHA-256 does not collide on their texts.
proof fn lemma_same_digest(a: JsonView, b: JsonView)
    requires
        reads_back(a),
        reads_back(b),
        hex_sha256(json_encoding(a)) == hex_sha256(json_encoding(b)),
        !collide(json_encoding(a), json_encoding(b)),
    ensures
        a == b,
{
}

proof fn lemma_artifact_content(v: ArtifactView, w: ArtifactView)
    requires
        artifact_json(v) == artifact_json(w),
        v.record_sha256 == w.record_sha256,
    ensures
        v == w,
{
    let a = artifact_json(v)->Object_0;
    let b = artifact_json(w)->Object_0;
    assert(a[0] == b[0] && a[1] == b[1] && a[2] == b[2]);
}

/// A valid artifact record of which one field is altered, its digest or any
/// other, is not valid, unless SHA-256 collides. Every record that was made or
/// checked is read back from its canonical text.
pub proof fn law_altered_artifact_is_refused(v: ArtifactView, w: ArtifactView)
    requires
        artifact_valid(v),
        v != w,
        v.record_sha256 == w.record_sha256 || artifact_json(v) == artifact_json(w),
        reads_back(artifact_json(v)),
        reads_back(artifact_json(w)),
        !collide(json_encoding(artifact_json(v)), json_encoding(artifact_json(w))),
    ensures
        !artifact_valid(w),
{
    if artifact_valid(w) {
        assert(artifact_digest(v) == v.record_sha256 && artifact_digest(w) == w.record_sha256);
        if v.record_sha256 == w.record_sha256 {
            lemma_same_digest(artifact_json(v), artifact_json(w));
        }
        lemma_artifact_content(v, w);
    }
}

// ---------------------------------------------------------------------------
// Journal records
// ---------------------------------------------------------------------------
proof fn lemma_journal_keys_first()
    ensures
        text_lt("backupDirectory"@, "galleryPath"@),
        text_lt("galleryPath"@, "gallerySha256"@),
        text_lt("gallerySha256"@, "generation"@),
        text_lt("generation"@, "journalSequence"@),
        text_lt("journalSequence"@, "phase"@),
{
    reveal_strlit("backupDirectory");
    reveal_strlit("galleryPath");
    reveal_strlit("gallerySha256");
    reveal_strlit("generation");
    reveal_strlit("journalSequence");
    reveal_strlit("phase");
    reveal_strlit("gallery");
    reveal_strlit("Path");
    reveal_strlit("Sha256");
    reveal_strlit("g");
    reveal_strlit("allerySha256");
    reveal_strlit("eneration");
    lemma_first_char_orders("backupDirectory"@, "galleryPath"@);
    assert("galleryPath"@ =~= "gallery"@ + "Path"@);
    assert("gallerySha256"@ =~= "gallery"@ + "Sha256"@);
    lemma_shared_start("gallery"@, "Path"@, "Sha256"@);
    assert("gallerySha256"@ =~= "g"@ + "allerySha256"@);
    assert("generation"@ =~= "g"@ + "eneration"@);
    lemma_shared_start("g"@, "allerySha256"@, "eneration"@);
    lemma_first_char_orders("generation"@, "journalSequence"@);
    lemma_first_char_orders("journalSequence"@, "phase"@);
}

proof fn lemma_journal_keys_previous()
    ensures
        text_lt("phase"@, "previousGallerySha256"@),
        text_lt("previousGallerySha256"@, "previousGeneration"@),
        text_lt("previousGeneration"@, "previousStateSha256"@),
        text_lt("previousStateSha256"@, "schemaVersion"@),
{
    reveal_strlit("phase");
    reveal_strlit("previousGallerySha256");
    reveal_strlit("previousGeneration");
    reveal_strlit("previousStateSha256");
    reveal_strlit("schemaVersion");
    reveal_strlit("p");
    reveal_strlit("hase");
    reveal_strlit("reviousGallerySha256");
    reveal_strlit("previousG");
    reveal_strlit("allerySha256");
    reveal_strlit("eneration");
    reveal_strlit("previous");
    reveal_strlit("Generation");
    reveal_strlit("StateSha256");
    assert("phase"@ =~= "p"@ + "hase"@);
    assert("previousGallerySha256"@ =~= "p"@ + "reviousGallerySha256"@);
    lemma_shared_start("p"@, "hase"@, "reviousGallerySha256"@);
    assert("previousGallerySha256"@ =~= "previousG"@ + "allerySha256"@);
    assert("previousGeneration"@ =~= "previousG"@ + "eneration"@);
    lemma_shared_start("previousG"@, "allerySha256"@, "eneration"@);
    assert("previousGeneration"@ =~= "previous"@ + "Generation"@);
    assert("previousStateSha256"@ =~= "previous"@ + "StateSha256"@);
    lemma_shared_start("previous"@, "Generation"@, "StateSha256"@);
    lemma_first_char_orders("previousStateSha256"@, "schemaVersion"@);
}

proof fn lemma_journal_keys_last()
    ensures
        text_lt("schemaVersion"@, "stagingDirectory"@),
        text_lt("stagingDirectory"@, "statePath"@),
        text_lt("statePath"@, "stateSha256"@),
{
    reveal_strlit("schemaVersion");
    reveal_strlit("stagingDirectory");
    reveal_strlit("statePath");
    reveal_strlit("stateSha256");
    reveal_strlit("s");
    reveal_strlit("chemaVersion");
    reveal_strlit("tagingDirectory");
    reveal_strlit("sta");
    reveal_strlit("gingDirectory");
    reveal_strlit("tePath");
    reveal_strlit("state");
    reveal_strlit("Path");
    reveal_strlit("Sha256");
    assert("schemaVersion"@ =~= "s"@ + "chemaVersion"@);
    assert("stagingDirectory"@ =~= "s"@ + "tagingDirectory"@);
    lemma_shared_start("s"@, "chemaVersion"@, "tagingDirectory"@);
    assert("stagingDirectory"@ =~= "sta"@ + "gingDirectory"@);
    assert("statePath"@ =~= "sta"@ + "tePath"@);
    lemma_shared_start("sta"@, "gingDirectory"@, "tePath"@);
    assert("statePath"@ =~= "state"@ + "Path"@);
    assert("stateSha256"@ =~= "state"@ + "Sha256"@);
    lemma_shared_start("state"@, "Path"@, "Sha256"@);
}

/// The canonical content of a journal record is plain.
pub proof fn lemma_journal_is_plain(v: JournalView)
    ensures
        is_plain(journal_json(v), 127),
{
    let members = journal_json(v)->Object_0;
    lemma_journal_keys_first();
    lemma_journal_keys_previous();
    lemma_journal_keys_last();
    reveal_with_fuel(is_plain, 2);
    lemma_keys_ascend(members);
}

proof fn lemma_phase_texts_differ(a: JournalPhase, b: JournalPhase)
    requires
        phase_text(a) == phase_text(b),
    ensures
        a == b,
{
    reveal_strlit("PREPARED");
    reveal_strlit("BACKUP_CREATED");
    reveal_strlit("GALLERY_INSTALLED");
    reveal_strlit("STATE_INSTALLED");
    reveal_strlit("COMMITTED");
    reveal_strlit("ROLLED_BACK");
    assert("PREPARED"@[0] == 'P' && "BACKUP_CREATED"@[0] == 'B' && "GALLERY_INSTALLED"@[0] == 'G');
    assert("STATE_INSTALLED"@[0] == 'S' && "COMMITTED"@[0] == 'C' && "ROLLED_BACK"@[0] == 'R');
    assert(phase_text(a)[0] == phase_text(b)[0]);
}

proof fn lemma_optional_texts_differ(a: Option<Seq<char>>, b: Option<Seq<char>>)
    requires
        optional_text_json(a) == optional_text_json(b),
    ensures
        a == b,
{
}

proof fn lemma_journal_content(v: JournalView, w: JournalView)
    requires
        journal_json(v) == journal_json(w),
        v.record_sha256 == w.record_sha256,
    ensures
        v == w,
{
    let a = journal_json(v)->Object_0;
    let b = journal_json(w)->Object_0;
    assert(a[0] == b[0] && a[1] == b[1] && a[2] == b[2] && a[3] == b[3] && a[4] == b[4]);
    assert(a[5] == b[5] && a[6] == b[6] && a[7] == b[7] && a[8] == b[8] && a[9] == b[9]);
    assert(a[10] == b[10] && a[11] == b[11] && a[12] == b[12]);
    lemma_phase_texts_differ(v.phase, w.phase);
    lemma_optional_texts_differ(v.previous_gallery_sha256, w.previous_gallery_sha256);
    lemma_optional_texts_differ(v.previous_generation, w.previous_generation);
    lemma_optional_texts_differ(v.previous_state_sha256, w.previous_state_sha256);
}

/// A valid journal record of which one field is altered, its digest or any other,
/// is not valid, unless SHA-256 collides. Every record that was made or checked is
/// read back from its canonical text.
pub proof fn law_altered_journal_is_refused(v: JournalView, w: JournalView)
    requires
        journal_error(v) is None,
        v != w,
        v.record_sha256 == w.record_sha256 || journal_json(v) == journal_json(w),
        reads_back(journal_json(v)),
        reads_back(journal_json(w)),
        !collide(json_encoding(journal_json(v)), json_encoding(journal_json(w))),
    ensures
        journal_error(w) is Some,
{
    if journal_error(w) is None {
        assert(journal_digest(v) == v.record_sha256 && journal_digest(w) == w.record_sha256);
        if v.record_sha256 == w.record_sha256 {
            lemma_same_digest(journal_json(v), journal_json(w));
        }
        lemma_journal_content(v, w);
    }
}

// ---------------------------------------------------------------------------
// The ledger
// ---------------------------------------------------------------------------
proof fn lemma_object_entry_is_plain(e: R2EntryView)
    ensures
        is_plain(r2_entry_json(e), 125),
{
    let members = r2_entry_json(e)->Object_0;
    reveal_with_fuel(is_plain, 2);
    reveal_strlit("contentType");
    reveal_strlit("sha256");
    reveal_strlit("sizeBytes");
    reveal_strlit("status");
    reveal_strlit("s");
    reveal_strlit("ha256");
    reveal_strlit("izeBytes");
    reveal_strlit("tatus");
    lemma_first_char_orders("contentType"@, "sha256"@);
    assert("sha256"@ =~= "s"@ + "ha256"@);
    assert("sizeBytes"@ =~= "s"@ + "izeBytes"@);
    assert("status"@ =~= "s"@ + "tatus"@);
    lemma_shared_start("s"@, "ha256"@, "izeBytes"@);
    lemma_shared_start("s"@, "izeBytes"@, "tatus"@);
    lemma_keys_ascend(members);
}

proof fn lemma_file_entry_is_plain(e: GitHubEntryView)
    ensures
        is_plain(github_entry_json(e), 125),
{
    let members = github_entry_json(e)->Object_0;
    reveal_with_fuel(is_plain, 2);
    reveal_strlit("revision");
    reveal_strlit("sha256");
    reveal_strlit("status");
    reveal_strlit("s");
    reveal_strlit("ha256");
    reveal_strlit("tatus");
    lemma_first_char_orders("revision"@, "sha256"@);
    assert("sha256"@ =~= "s"@ + "ha256"@);
    assert("status"@ =~= "s"@ + "tatus"@);
    lemma_shared_start("s"@, "ha256"@, "tatus"@);
    lemma_keys_ascend(members);
}

proof fn lemma_hosting_is_plain(p: Option<VercelView>)
    ensures
        is_plain(vercel_json(p), 126),
{
    reveal_with_fuel(is_plain, 2);
    if p is Some {
        let members = vercel_json(p)->Object_0;
        reveal_strlit("bundleFingerprint");
        reveal_strlit("deploymentId");
        reveal_strlit("status");
        reveal_strlit("url");
        lemma_first_char_orders("bundleFingerprint"@, "deploymentId"@);
        lemma_first_char_orders("deploymentId"@, "status"@);
        lemma_first_char_orders("status"@, "url"@);
        lemma_keys_ascend(members);
    }
}

proof fn lemma_inventories_are_plain(v: LedgerView)
    requires
        is_listed(v.r2_inventory),
        is_listed(v.github_inventory),
    ensures
        is_plain(r2_inventory_json(v.r2_inventory), 126),
        is_plain(github_inventory_json(v.github_inventory), 126),
{
    let objects = r2_inventory_json(v.r2_inventory)->Object_0;
    let files = github_inventory_json(v.github_inventory)->Object_0;
    let listed_objects = ascending_entries(v.r2_inventory);
    let listed_files = ascending_entries(v.github_inventory);
    assert forall|i: int, j: int| 0 <= i < j < objects.len() implies text_lt(
        #[trigger] objects[i].0,
        #[trigger] objects[j].0,
    ) by {
        assert(text_lt(listed_objects[i].0, listed_objects[j].0));
    }
    assert forall|i: int, j: int| 0 <= i < j < files.len() implies text_lt(
        #[trigger] files[i].0,
        #[trigger] files[j].0,
    ) by {
        assert(text_lt(listed_files[i].0, listed_files[j].0));
    }
    assert forall|i: int| 0 <= i < objects.len() implies is_plain((#[trigger] objects[i]).1, 125) by {
        lemma_object_entry_is_plain(listed_objects[i].1);
    }
    assert forall|i: int| 0 <= i < files.len() implies is_plain((#[trigger] files[i]).1, 125) by {
        lemma_file_entry_is_plain(listed_files[i].1);
    }
}

proof fn lemma_ledger_keys()
    ensures
        text_lt("configurationFingerprint"@, "githubInventory"@),
        text_lt("githubInventory"@, "localGeneration"@),
        text_lt("localGeneration"@, "manifestHash"@),
        text_lt("manifestHash"@, "r2Inventory"@),
        text_lt("r2Inventory"@, "schemaVersion"@),
        text_lt("schemaVersion"@, "stateHash"@),
        text_lt("stateHash"@, "vercel"@),
{
    reveal_strlit("configurationFingerprint");
    reveal_strlit("githubInventory");
    reveal_strlit("localGeneration");
    reveal_strlit("manifestHash");
    reveal_strlit("r2Inventory");
    reveal_strlit("schemaVersion");
    reveal_strlit("stateHash");
    reveal_strlit("vercel");
    reveal_strlit("s");
    reveal_strlit("chemaVersion");
    reveal_strlit("tateHash");
    lemma_first_char_orders("configurationFingerprint"@, "githubInventory"@);
    lemma_first_char_orders("githubInventory"@, "localGeneration"@);
    lemma_first_char_orders("localGeneration"@, "manifestHash"@);
    lemma_first_char_orders("manifestHash"@, "r2Inventory"@);
    lemma_first_char_orders("r2Inventory"@, "schemaVersion"@);
    assert("schemaVersion"@ =~= "s"@ + "chemaVersion"@);
    assert("stateHash"@ =~= "s"@ + "tateHash"@);
    lemma_shared_start("s"@, "chemaVersion"@, "tateHash"@);
    lemma_first_char_orders("stateHash"@, "vercel"@);
}

/// The canonical content of a ledger is plain.
pub proof fn lemma_ledger_is_plain(v: LedgerView)
    requires
        is_listed(v.r2_inventory),
        is_listed(v.github_inventory),
    ensures
        is_plain(ledger_json(v), 127),
{
    let members = ledger_json(v)->Object_0;
    lemma_ledger_keys();
    lemma_inventories_are_plain(v);
    lemma_hosting_is_plain(v.vercel);
    lemma_keys_ascend(members);
    assert forall|i: int| 0 <= i < members.len() implies is_plain((#[trigger] members[i]).1, 126) by {}
}

proof fn lemma_status_texts_differ(a: OperationState, b: OperationState)
    requires
        status_text(a) == status_text(b),
    ensures
        a == b,
{
    reveal_strlit("pending");
    reveal_strlit("confirmed");
    reveal_strlit("unknown");
    assert("pending"@[0] == 'p' && "confirmed"@[0] == 'c' && "unknown"@[0] == 'u');
    assert(status_text(a)[0] == status_text(b)[0]);
}

proof fn lemma_object_entry_content(a: R2EntryView, b: R2EntryView)
    requires
        r2_entry_json(a) == r2_entry_json(b),
    ensures
        a == b,
{
    let x = r2_entry_json(a)->Object_0;
    let y = r2_entry_json(b)->Object_0;
    assert(x[0] == y[0] && x[1] == y[1] && x[2] == y[2] && x[3] == y[3]);
    lemma_status_texts_differ(a.status, b.status);
    lemma_optional_texts_differ(a.content_type, b.content_type);
}

proof fn lemma_file_entry_content(a: GitHubEntryView, b: GitHubEntryView)
    requires
        github_entry_json(a) == github_entry_json(b),
    ensures
        a == b,
{
    let x = github_entry_json(a)->Object_0;
    let y = github_entry_json(b)->Object_0;
    assert(x[0] == y[0] && x[1] == y[1] && x[2] == y[2]);
    lemma_status_texts_differ(a.status, b.status);
}

proof fn lemma_hosting_content(a: Option<VercelView>, b: Option<VercelView>)
    requires
        vercel_json(a) == vercel_json(b),
    ensures
        a == b,
{
    if a is Some && b is Some {
        let x = vercel_json(a)->Object_0;
        let y = vercel_json(b)->Object_0;
        assert(x[0] == y[0] && x[1] == y[1] && x[2] == y[2] && x[3] == y[3]);
        lemma_status_texts_differ(a->0.status, b->0.status);
        lemma_optional_texts_differ(a->0.deployment_id, b->0.deployment_id);
        lemma_optional_texts_differ(a->0.url, b->0.url);
    }
}

proof fn lemma_objects_content(
    a: Map<Seq<char>, R2EntryView>,
    b: Map<Seq<char>, R2EntryView>,
)
    requires
        is_listed(a),
        is_listed(b),
        r2_inventory_json(a) == r2_inventory_json(b),
    ensures
        a == b,
{
    let x = ascending_entries(a);
    let y = ascending_entries(b);
    let shown = r2_inventory_json(a)->Object_0;
    let other = r2_inventory_json(b)->Object_0;
    assert(x.len() == shown.len() && y.len() == other.len());
    assert forall|i: int| 0 <= i < x.len() implies x[i] == y[i] by {
        assert(shown[i] == other[i]);
        lemma_object_entry_content(x[i].1, y[i].1);
    }
    assert(x =~= y);
}

proof fn lemma_files_content(
    a: Map<Seq<char>, GitHubEntryView>,
    b: Map<Seq<char>, GitHubEntryView>,
)
    requires
        is_listed(a),
        is_listed(b),
        github_inventory_json(a) == github_inventory_json(b),
    ensures
        a == b,
{
    let x = ascending_entries(a);
    let y = ascending_entries(b);
    let shown = github_inventory_json(a)->Object_0;
    let other = github_inventory_json(b)->Object_0;
    assert(x.len() == shown.len() && y.len() == other.len());
    assert forall|i: int| 0 <= i < x.len() implies x[i] == y[i] by {
        assert(shown[i] == other[i]);
        lemma_file_entry_content(x[i].1, y[i].1);
    }
    assert(x =~= y);
}

proof fn lemma_ledger_content(v: LedgerView, w: LedgerView)
    requires
        is_listed(v.r2_inventory),
        is_listed(v.github_inventory),
        is_listed(w.r2_inventory),
        is_listed(w.github_inventory),
        ledger_json(v) == ledger_json(w),
        v.record_sha256 == w.record_sha256,
    ensures
        v == w,
{
    let a = ledger_json(v)->Object_0;
    let b = ledger_json(w)->Object_0;
    assert(a[0] == b[0] && a[1] == b[1] && a[2] == b[2] && a[3] == b[3]);
    assert(a[4] == b[4] && a[5] == b[5] && a[6] == b[6] && a[7] == b[7]);
    lemma_objects_content(v.r2_inventory, w.r2_inventory);
    lemma_files_content(v.github_inventory, w.github_inventory);
    lemma_hosting_content(v.vercel, w.vercel);
}

/// A valid ledger of which one field is altered, its digest or any other, is not
/// valid, unless SHA-256 collides. Every ledger that was made or checked has
/// listed inventories and is read back from its canonical text.
pub proof fn law_altered_ledger_is_refused(v: LedgerView, w: LedgerView)
    requires
        is_listed(v.r2_inventory),
        is_listed(v.github_inventory),
        is_listed(w.r2_inventory),
        is_listed(w.github_inventory),
        ledger_error(v) is None,
        v != w,
        v.record_sha256 == w.record_sha256 || ledger_json(v) == ledger_json(w),
        reads_back(ledger_json(v)),
        reads_back(ledger_json(w)),
        !collide(json_encoding(ledger_json(v)), json_encoding(ledger_json(w))),
    ensures
        ledger_error(w) is Some,
{
    if ledger_error(w) is None {
        assert(ledger_digest(v) == v.record_sha256 && ledger_digest(w) == w.record_sha256);
        if v.record_sha256 == w.record_sha256 {
            lemma_same_digest(ledger_json(v), ledger_json(w));
        }
        lemma_ledger_content(v, w);
    }
}

} // verus!
