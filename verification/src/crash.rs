//! What recovery promises of a publication that was interrupted: the active pair
//! is the old one or the new one, never a mixture, and recovering once more
//! changes nothing.

use crate::digest::{hex_sha256, law_digest_is_well_formed};
use crate::gallery::{
    assets_as_made, law_created_gallery_verifies, ProcessedDimensions, SourcePhoto,
};
use crate::generations::{
    law_first_generation, law_generation_name_is_valid, law_next_generation_advances,
};
use crate::journal::{
    artifact_json, artifact_of, artifact_valid, in_phase, is_safe_relative, journal_error,
    journal_json, law_next_phase_is_valid, ArtifactView, JournalPhase, JournalView,
};
use crate::publish::{
    active_generation, built, committed_record, generation_name, installing_record,
    is_publication_fault, last_number, lemma_publication_faults, place_of, played,
    preparation_steps, prepared_record, publication_due, publication_steps, publish_script, stops,
    BuiltPublication,
};
use crate::recovery::{
    backup_error, chain_error, completion_plan, document_error, is_ambiguous, is_newest, keep,
    latest_committed, law_newest_record_is_unique, leaves_room, newest_record, promotion_plan,
    publication_recovery, recovery_plan, rollback_plan, sequence_goes_on, staging_error,
    usable_records, ArtifactFileView, BackupView, OutputView, RecoveryError, StagingView,
};
use crate::steps::{digest_of, step_error, steps_view, FaultPoint, PlanView, StepView};
use crate::text::{has_dot_dot, is_sha256_text};
use vstd::prelude::*;

verus! {

// ---------------------------------------------------------------------------
// What the steps do
// ---------------------------------------------------------------------------
/// What an output directory holds: the current journal, the active pair, and
/// the staging and backup directories of the publication.
pub struct Disk {
    pub journal: Option<JournalView>,
    pub gallery: Option<Seq<u8>>,
    pub state: Option<Seq<u8>>,
    pub staging: StagingView,
    pub backup: BackupView,
}

/// An output directory after a step.
pub open spec fn carried_out(disk: Disk, step: StepView) -> Disk {
    match step {
        StepView::WriteJournal(record) => Disk { journal: Some(record), ..disk },
        StepView::CreateBackup(generation) => Disk {
            backup: BackupView {
                gallery: disk.gallery,
                state: disk.state,
                record: ArtifactFileView::Read(
                    artifact_of(
                        generation,
                        hex_sha256(disk.gallery->0),
                        hex_sha256(disk.state->0),
                    ),
                ),
            },
            ..disk
        },
        StepView::InstallGallery(_) => Disk { gallery: disk.staging.gallery, ..disk },
        StepView::InstallState(_) => Disk { state: disk.staging.state, ..disk },
        StepView::RestoreGallery(_) => Disk { gallery: disk.backup.gallery, ..disk },
        StepView::RestoreState(_) => Disk { state: disk.backup.state, ..disk },
        StepView::CleanStaging => Disk {
            staging: StagingView { directory: false, ..disk.staging },
            ..disk
        },
        StepView::VerifyActive(_, _) => disk,
        StepView::Fault(_) => disk,
    }
}

/// An output directory after the first of several steps.
pub open spec fn after_steps(disk: Disk, steps: Seq<StepView>, n: int) -> Disk
    decreases n,
{
    if n <= 0 {
        disk
    } else {
        carried_out(after_steps(disk, steps, n - 1), steps[n - 1])
    }
}

/// What recovery sees of an output directory whose record names the usual
/// places, with what it finds of the staged gallery document and its assets.
pub open spec fn seen_by_recovery(disk: Disk) -> OutputView {
    OutputView {
        named_gallery: disk.gallery,
        named_state: disk.state,
        gallery: disk.gallery,
        conforms: disk.staging.conforms,
        assets: disk.staging.assets,
        state: disk.state,
        staging: disk.staging,
        backup: disk.backup,
    }
}

/// An output directory in which a publication is prepared: the staged pair is
/// that of the record, and the active pair is the one it replaces.
pub open spec fn is_prepared(disk: Disk, prepared: JournalView) -> bool {
    &&& journal_error(prepared) is None
    &&& prepared.phase == JournalPhase::Prepared
    &&& prepared.journal_sequence < u64::MAX - 10
    &&& staging_error(disk.staging, prepared) is None
    &&& digest_of(disk.gallery) == prepared.previous_gallery_sha256
    &&& digest_of(disk.state) == prepared.previous_state_sha256
}

// ---------------------------------------------------------------------------
// The steps one by one
// ---------------------------------------------------------------------------
proof fn lemma_played_next(script: Seq<StepView>, i: int)
    requires
        0 <= i < script.len(),
    ensures
        played(script.take(i + 1), None) == match script[i] {
            StepView::Fault(_) => played(script.take(i), None),
            step => played(script.take(i), None).push(step),
        },
{
    assert(script.take(i + 1).drop_last() =~= script.take(i));
}

/// A script without a fault: its steps without the points of failure.
pub open spec fn plain_script(journal: JournalView) -> Seq<StepView> {
    let gallery_installed = in_phase(journal, JournalPhase::GalleryInstalled);
    let state_installed = in_phase(gallery_installed, JournalPhase::StateInstalled);
    let committed = in_phase(state_installed, JournalPhase::Committed);
    seq![
        StepView::InstallGallery(journal.gallery_sha256),
        StepView::WriteJournal(gallery_installed),
        StepView::InstallState(journal.state_sha256),
        StepView::WriteJournal(state_installed),
        StepView::VerifyActive(journal.gallery_sha256, journal.state_sha256),
        StepView::WriteJournal(committed),
    ]
}

/// Without a fault a publication plays its script without the points of
/// failure.
pub proof fn law_unfaulted_script(journal: JournalView)
    ensures
        played(publish_script(journal), None) == plain_script(journal),
{
    let s = publish_script(journal);
    assert(played(s.take(0), None) =~= Seq::empty());
    lemma_played_next(s, 0);
    lemma_played_next(s, 1);
    lemma_played_next(s, 2);
    lemma_played_next(s, 3);
    lemma_played_next(s, 4);
    lemma_played_next(s, 5);
    lemma_played_next(s, 6);
    lemma_played_next(s, 7);
    lemma_played_next(s, 8);
    lemma_played_next(s, 9);
    lemma_played_next(s, 10);
    lemma_played_next(s, 11);
    lemma_played_next(s, 12);
    lemma_played_next(s, 13);
    lemma_played_next(s, 14);
    lemma_played_next(s, 15);
    assert(s.take(16) =~= s);
    assert(played(s, None) =~= plain_script(journal));
}

/// The record that is current while a publication is carried out, by how many
/// of its records are written.
pub open spec fn record_after(prepared: JournalView, written: int) -> JournalView {
    let installing = installing_record(prepared);
    let gallery_installed = in_phase(installing, JournalPhase::GalleryInstalled);
    let state_installed = in_phase(gallery_installed, JournalPhase::StateInstalled);
    let committed = in_phase(state_installed, JournalPhase::Committed);
    if written <= 0 {
        prepared
    } else if written == 1 {
        installing
    } else if written == 2 {
        gallery_installed
    } else if written == 3 {
        state_installed
    } else {
        committed
    }
}

/// The steps of a publication that replaces a generation.
proof fn lemma_replacement_steps(prepared: JournalView)
    requires
        prepared.previous_generation is Some,
    ensures
        publication_steps(prepared, None) == seq![
            StepView::WriteJournal(prepared),
            StepView::CreateBackup(prepared.previous_generation->0),
            StepView::WriteJournal(record_after(prepared, 1)),
            StepView::InstallGallery(prepared.gallery_sha256),
            StepView::WriteJournal(record_after(prepared, 2)),
            StepView::InstallState(prepared.state_sha256),
            StepView::WriteJournal(record_after(prepared, 3)),
            StepView::VerifyActive(prepared.gallery_sha256, prepared.state_sha256),
            StepView::WriteJournal(record_after(prepared, 4)),
            StepView::CleanStaging,
        ],
{
    law_unfaulted_script(installing_record(prepared));
    assert(publication_steps(prepared, None) =~= preparation_steps(prepared) + plain_script(
        installing_record(prepared),
    ) + seq![StepView::CleanStaging]);
    assert(publication_steps(prepared, None) =~= seq![
        StepView::WriteJournal(prepared),
        StepView::CreateBackup(prepared.previous_generation->0),
        StepView::WriteJournal(record_after(prepared, 1)),
        StepView::InstallGallery(prepared.gallery_sha256),
        StepView::WriteJournal(record_after(prepared, 2)),
        StepView::InstallState(prepared.state_sha256),
        StepView::WriteJournal(record_after(prepared, 3)),
        StepView::VerifyActive(prepared.gallery_sha256, prepared.state_sha256),
        StepView::WriteJournal(record_after(prepared, 4)),
        StepView::CleanStaging,
    ]);
}

/// The steps of a first publication.
proof fn lemma_first_steps(prepared: JournalView)
    requires
        prepared.previous_generation is None,
    ensures
        publication_steps(prepared, None) == seq![
            StepView::WriteJournal(prepared),
            StepView::InstallGallery(prepared.gallery_sha256),
            StepView::WriteJournal(record_after(prepared, 2)),
            StepView::InstallState(prepared.state_sha256),
            StepView::WriteJournal(record_after(prepared, 3)),
            StepView::VerifyActive(prepared.gallery_sha256, prepared.state_sha256),
            StepView::WriteJournal(record_after(prepared, 4)),
            StepView::CleanStaging,
        ],
{
    law_unfaulted_script(installing_record(prepared));
    assert(publication_steps(prepared, None) =~= preparation_steps(prepared) + plain_script(
        installing_record(prepared),
    ) + seq![StepView::CleanStaging]);
    assert(publication_steps(prepared, None) =~= seq![
        StepView::WriteJournal(prepared),
        StepView::InstallGallery(prepared.gallery_sha256),
        StepView::WriteJournal(record_after(prepared, 2)),
        StepView::InstallState(prepared.state_sha256),
        StepView::WriteJournal(record_after(prepared, 3)),
        StepView::VerifyActive(prepared.gallery_sha256, prepared.state_sha256),
        StepView::WriteJournal(record_after(prepared, 4)),
        StepView::CleanStaging,
    ]);
}

/// The backup that a publication makes of the pair it replaces.
pub open spec fn backup_made(disk: Disk, generation: Seq<char>) -> BackupView {
    carried_out(disk, StepView::CreateBackup(generation)).backup
}

/// Whether an output directory is in the course of replacing a generation,
/// after so many steps.
pub open spec fn replacing(disk: Disk, prepared: JournalView, n: int, now: Disk) -> bool {
    &&& n >= 1 ==> now.journal == Some(
        record_after(
            prepared,
            if n < 3 {
                0
            } else if n < 5 {
                1
            } else if n < 7 {
                2
            } else if n < 9 {
                3
            } else {
                4
            },
        ),
    )
    &&& now.backup == if n >= 2 {
        backup_made(disk, prepared.previous_generation->0)
    } else {
        disk.backup
    }
    &&& now.gallery == if n >= 4 {
        disk.staging.gallery
    } else {
        disk.gallery
    }
    &&& now.state == if n >= 6 {
        disk.staging.state
    } else {
        disk.state
    }
    &&& now.staging == if n >= 10 {
        StagingView { directory: false, ..disk.staging }
    } else {
        disk.staging
    }
}

proof fn lemma_replacing(disk: Disk, prepared: JournalView, n: int)
    requires
        prepared.previous_generation is Some,
        0 <= n <= publication_steps(prepared, None).len(),
    ensures
        publication_steps(prepared, None).len() == 10,
        replacing(disk, prepared, n, after_steps(disk, publication_steps(prepared, None), n)),
    decreases n,
{
    lemma_replacement_steps(prepared);
    if n > 0 {
        lemma_replacing(disk, prepared, n - 1);
    }
}

/// Whether an output directory is in the course of a first publication, after
/// so many steps.
pub open spec fn publishing_first(disk: Disk, prepared: JournalView, n: int, now: Disk) -> bool {
    &&& n >= 1 ==> now.journal == Some(
        record_after(
            prepared,
            if n < 3 {
                0
            } else if n < 5 {
                2
            } else if n < 7 {
                3
            } else {
                4
            },
        ),
    )
    &&& now.backup == disk.backup
    &&& now.gallery == if n >= 2 {
        disk.staging.gallery
    } else {
        disk.gallery
    }
    &&& now.state == if n >= 4 {
        disk.staging.state
    } else {
        disk.state
    }
    &&& now.staging == if n >= 8 {
        StagingView { directory: false, ..disk.staging }
    } else {
        disk.staging
    }
}

proof fn lemma_publishing_first(disk: Disk, prepared: JournalView, n: int)
    requires
        prepared.previous_generation is None,
        0 <= n <= publication_steps(prepared, None).len(),
    ensures
        publication_steps(prepared, None).len() == 8,
        publishing_first(disk, prepared, n, after_steps(disk, publication_steps(prepared, None), n)),
    decreases n,
{
    lemma_first_steps(prepared);
    if n > 0 {
        lemma_publishing_first(disk, prepared, n - 1);
    }
}

// ---------------------------------------------------------------------------
// Laws
// ---------------------------------------------------------------------------
/// Every step of a prepared publication passes its check.
pub proof fn law_publication_passes_its_checks(disk: Disk, prepared: JournalView, i: int)
    requires
        is_prepared(disk, prepared),
        0 <= i < publication_steps(prepared, None).len(),
    ensures
        ({
            let steps = publication_steps(prepared, None);
            let now = after_steps(disk, steps, i + 1);
            step_error(steps[i], now.gallery, now.state) is None
        }),
{
    if prepared.previous_generation is Some {
        lemma_replacement_steps(prepared);
        lemma_replacing(disk, prepared, i + 1);
    } else {
        lemma_first_steps(prepared);
        lemma_publishing_first(disk, prepared, i + 1);
    }
}

/// A publication that is carried out to its end leaves the new pair active and
/// a committed record of it.
pub proof fn law_publication_commits(disk: Disk, prepared: JournalView)
    requires
        is_prepared(disk, prepared),
    ensures
        ({
            let steps = publication_steps(prepared, None);
            let end = after_steps(disk, steps, steps.len() as int);
            &&& end.journal == Some(committed_record(prepared))
            &&& committed_record(prepared).phase == JournalPhase::Committed
            &&& committed_record(prepared).generation == prepared.generation
            &&& end.gallery == disk.staging.gallery
            &&& end.state == disk.staging.state
            &&& digest_of(end.gallery) == Some(prepared.gallery_sha256)
            &&& digest_of(end.state) == Some(prepared.state_sha256)
        }),
{
    let n = publication_steps(prepared, None).len() as int;
    if prepared.previous_generation is Some {
        lemma_replacing(disk, prepared, n);
    } else {
        lemma_publishing_first(disk, prepared, n);
    }
}

/// The committed record is written after both files are replaced and checked
/// once more.
pub proof fn law_commit_comes_last(prepared: JournalView, i: int)
    requires
        0 <= i < publication_steps(prepared, None).len(),
        publication_steps(prepared, None)[i] matches StepView::WriteJournal(record)
            && record.phase == JournalPhase::Committed,
        prepared.phase == JournalPhase::Prepared,
    ensures
        i >= 1,
        publication_steps(prepared, None)[i - 1] == StepView::VerifyActive(
            prepared.gallery_sha256,
            prepared.state_sha256,
        ),
        exists|a: int|
            0 <= a < i && #[trigger] publication_steps(prepared, None)[a]
                == StepView::InstallGallery(prepared.gallery_sha256),
        exists|b: int|
            0 <= b < i && #[trigger] publication_steps(prepared, None)[b]
                == StepView::InstallState(prepared.state_sha256),
{
    let steps = publication_steps(prepared, None);
    if prepared.previous_generation is Some {
        lemma_replacement_steps(prepared);
        assert(steps[3] == StepView::InstallGallery(prepared.gallery_sha256));
        assert(steps[5] == StepView::InstallState(prepared.state_sha256));
    } else {
        lemma_first_steps(prepared);
        assert(steps[1] == StepView::InstallGallery(prepared.gallery_sha256));
        assert(steps[3] == StepView::InstallState(prepared.state_sha256));
    }
}

proof fn lemma_below_directory(directory: Seq<char>, name: Seq<char>)
    requires
        directory.len() > 0,
        directory[0] != '/',
        !has_dot_dot(directory),
        directory.last() != '.',
        !has_dot_dot(name),
    ensures
        is_safe_relative(directory + name),
{
    let path = directory + name;
    if has_dot_dot(path) {
        let i = choose|i: int|
            0 <= i && i + 1 < path.len() && #[trigger] path[i] == '.' && path[i + 1] == '.';
        if i + 1 < directory.len() {
            assert(directory[i] == '.' && directory[i + 1] == '.');
        } else if i + 1 == directory.len() {
            assert(directory.last() == path[i]);
        } else {
            let k = i - directory.len();
            assert(name[k] == '.' && name[k + 1] == '.');
        }
    }
}

/// The record that a publication starts with is valid, whatever record recovery
/// left, unless the generations have run out.
pub proof fn law_prepared_record_is_valid(
    left: Option<JournalView>,
    gallery_sha256: Seq<char>,
    state_sha256: Seq<char>,
    gallery: Option<Seq<u8>>,
    state: Option<Seq<u8>>,
)
    requires
        left is Some ==> journal_error(left->0) is None && left->0.journal_sequence < u64::MAX,
        last_number(left) < 999999,
        is_sha256_text(gallery_sha256),
        is_sha256_text(state_sha256),
        active_generation(left) is Some <==> gallery is Some,
        active_generation(left) is Some <==> state is Some,
        active_generation(left) != Some(generation_name((last_number(left) + 1) as nat)),
    ensures
        journal_error(prepared_record(left, gallery_sha256, state_sha256, gallery, state)) is None,
{
    let record = prepared_record(left, gallery_sha256, state_sha256, gallery, state);
    if gallery is Some {
        law_digest_is_well_formed(gallery->0);
    }
    if state is Some {
        law_digest_is_well_formed(state->0);
    }
    match left {
        Some(r) => law_next_generation_advances(r),
        None => law_first_generation(),
    }
    reveal_strlit("gallery.json");
    reveal_strlit(".publisher/state.json");
    reveal_strlit(".publisher/staging/");
    reveal_strlit(".publisher/backups/");
    reveal_strlit("none");
    lemma_below_directory(".publisher/staging/"@, record.generation);
    lemma_below_directory(
        ".publisher/backups/"@,
        match record.previous_generation {
            Some(generation) => generation,
            None => "none"@,
        },
    );
    assert(journal_json(record) == journal_json(
        JournalView { record_sha256: Seq::empty(), ..record },
    ));
}

/// What is built from photos, once it is staged as it was built and its assets
/// are found as they were made, is a prepared publication, and its plan is the
/// one that publishes it.
pub proof fn law_built_publication_is_prepared(
    b: BuiltPublication,
    title: Seq<char>,
    photos: Seq<(SourcePhoto, ProcessedDimensions)>,
    state_document: Seq<u8>,
    left: Option<JournalView>,
    fault: Option<FaultPoint>,
    disk: Disk,
)
    requires
        built(b, title, photos, state_document, left, disk.gallery, disk.state, fault),
        left is Some ==> journal_error(left->0) is None && left->0.journal_sequence < u64::MAX - 11,
        last_number(left) < 999999,
        active_generation(left) is Some <==> disk.gallery is Some,
        active_generation(left) is Some <==> disk.state is Some,
        active_generation(left) != Some(generation_name((last_number(left) + 1) as nat)),
        disk.staging.directory,
        disk.staging.conforms,
        disk.staging.state_readable,
        disk.staging.gallery == Some(b.gallery_document@),
        disk.staging.state == Some(state_document),
        disk.staging.record == ArtifactFileView::Read(b.artifact@),
        assets_as_made(photos, disk.staging.assets),
    ensures
        ({
            let prepared = prepared_record(
                left,
                hex_sha256(b.gallery_document@),
                hex_sha256(state_document),
                disk.gallery,
                disk.state,
            );
            &&& is_prepared(disk, prepared)
            &&& steps_view(b.plan.steps@) == publication_steps(prepared, fault)
            &&& b.plan.record@ == committed_record(prepared)
        }),
{
    law_digest_is_well_formed(b.gallery_document@);
    law_digest_is_well_formed(state_document);
    law_prepared_record_is_valid(
        left,
        hex_sha256(b.gallery_document@),
        hex_sha256(state_document),
        disk.gallery,
        disk.state,
    );
    law_created_gallery_verifies(title, photos, disk.staging.assets);
    law_generation_name_is_valid((last_number(left) + 1) as nat);
    assert(artifact_json(b.artifact@) == artifact_json(
        ArtifactView { record_sha256: Seq::empty(), ..b.artifact@ },
    ));
}

/// Whether an output directory holds one generation whole: the new one, and
/// its record says committed, or the one before, and its record says rolled
/// back.
pub open spec fn is_whole(prepared: JournalView, end: Disk) -> bool {
    &&& end.journal is Some
    &&& end.journal->0.generation == prepared.generation
    &&& match end.journal->0.phase {
        JournalPhase::Committed => digest_of(end.gallery) == Some(prepared.gallery_sha256)
            && digest_of(end.state) == Some(prepared.state_sha256),
        JournalPhase::RolledBack => digest_of(end.gallery) == prepared.previous_gallery_sha256
            && digest_of(end.state) == prepared.previous_state_sha256,
        _ => false,
    }
}

/// An output directory after recovery.
pub open spec fn recovered(disk: Disk, plan: PlanView) -> Disk {
    after_steps(disk, plan.steps, plan.steps.len() as int)
}

proof fn lemma_backup_made(disk: Disk, prepared: JournalView, record: JournalView)
    requires
        is_prepared(disk, prepared),
        prepared.previous_generation is Some,
        record.previous_generation == prepared.previous_generation,
        record.previous_gallery_sha256 == prepared.previous_gallery_sha256,
        record.previous_state_sha256 == prepared.previous_state_sha256,
    ensures
        backup_error(backup_made(disk, prepared.previous_generation->0), record) is None,
{
    let made = backup_made(disk, prepared.previous_generation->0);
    let a = made.record->Read_0;
    assert(artifact_json(a) == artifact_json(
        ArtifactView { record_sha256: Seq::empty(), ..a },
    ));
    assert(artifact_valid(a));
}

proof fn lemma_rollback_restores(disk: Disk, record: JournalView)
    requires
        record.previous_generation is Some,
        backup_error(disk.backup, record) is None,
    ensures
        ({
            let plan = rollback_plan(record, seen_by_recovery(disk), None);
            &&& plan is Ok
            &&& plan->Ok_0.record == in_phase(record, JournalPhase::RolledBack)
            &&& recovered(disk, plan->Ok_0) == (Disk {
                journal: Some(in_phase(record, JournalPhase::RolledBack)),
                gallery: disk.backup.gallery,
                state: disk.backup.state,
                ..disk
            })
        }),
{
    let plan = rollback_plan(record, seen_by_recovery(disk), None)->Ok_0;
    assert(plan.steps.len() == 3);
    reveal_with_fuel(after_steps, 4);
}

proof fn lemma_promotion_commits(disk: Disk, record: JournalView)
    ensures
        promotion_plan(record).record.phase == JournalPhase::Committed,
        promotion_plan(record).record.generation == record.generation,
        recovered(disk, promotion_plan(record)) == (Disk {
            journal: Some(promotion_plan(record).record),
            ..disk
        }),
{
    reveal_with_fuel(after_steps, 3);
}

proof fn lemma_completion_commits(disk: Disk, record: JournalView)
    ensures
        completion_plan(record).record.phase == JournalPhase::Committed,
        completion_plan(record).record.generation == record.generation,
        recovered(disk, completion_plan(record)) == (Disk {
            journal: Some(completion_plan(record).record),
            state: disk.staging.state,
            ..disk
        }),
{
    reveal_with_fuel(after_steps, 4);
}

proof fn lemma_nothing_to_do(disk: Disk, record: JournalView)
    requires
        disk.journal == Some(record),
    ensures
        recovered(disk, keep(record)) == disk,
{
}

/// A publication that replaces a generation and is interrupted at any point
/// after the backup was made is recovered to the old or to the new generation,
/// whole.
#[verifier::rlimit(40)]
pub proof fn law_interrupted_replacement_recovers(
    disk: Disk,
    prepared: JournalView,
    candidates: Seq<JournalView>,
    n: int,
)
    requires
        is_prepared(disk, prepared),
        prepared.previous_generation is Some,
        2 <= n <= publication_steps(prepared, None).len(),
        chain_error(
            after_steps(disk, publication_steps(prepared, None), n).journal->0,
            candidates,
        ) is None,
    ensures
        ({
            let now = after_steps(disk, publication_steps(prepared, None), n);
            let plan = recovery_plan(now.journal->0, candidates, seen_by_recovery(now), None);
            &&& plan is Ok
            &&& recovered(now, plan->Ok_0).journal == Some(plan->Ok_0.record)
            &&& is_whole(prepared, recovered(now, plan->Ok_0))
        }),
{
    lemma_replacing(disk, prepared, n);
    let now = after_steps(disk, publication_steps(prepared, None), n);
    let record = now.journal->0;
    lemma_backup_made(disk, prepared, record);
    lemma_rollback_restores(now, record);
    lemma_promotion_commits(now, record);
    if n >= 9 {
        lemma_nothing_to_do(now, record);
        assert(document_error(disk.staging.gallery->0, disk.staging.conforms, disk.staging.assets)
            is None);
    }
}

/// A first publication that is interrupted at any point but right after its
/// first record of the installed gallery is recovered to no generation or to
/// the new one, whole.
pub proof fn law_interrupted_first_publication_recovers(
    disk: Disk,
    prepared: JournalView,
    candidates: Seq<JournalView>,
    n: int,
)
    requires
        is_prepared(disk, prepared),
        prepared.previous_generation is None,
        1 <= n <= publication_steps(prepared, None).len(),
        n != 3,
        chain_error(
            after_steps(disk, publication_steps(prepared, None), n).journal->0,
            candidates,
        ) is None,
    ensures
        ({
            let now = after_steps(disk, publication_steps(prepared, None), n);
            let plan = recovery_plan(now.journal->0, candidates, seen_by_recovery(now), None);
            &&& plan is Ok
            &&& recovered(now, plan->Ok_0).journal == Some(plan->Ok_0.record)
            &&& is_whole(prepared, recovered(now, plan->Ok_0))
        }),
{
    lemma_publishing_first(disk, prepared, n);
    let now = after_steps(disk, publication_steps(prepared, None), n);
    let record = now.journal->0;
    lemma_promotion_commits(now, record);
    lemma_completion_commits(now, record);
    assert(backup_error(now.backup, record) is None);
    if n == 1 {
        let plan = rollback_plan(record, seen_by_recovery(now), None)->Ok_0;
        assert(plan.steps.len() == 1);
        reveal_with_fuel(after_steps, 2);
    }
    if n >= 7 {
        lemma_nothing_to_do(now, record);
        assert(document_error(disk.staging.gallery->0, disk.staging.conforms, disk.staging.assets)
            is None);
    }
}

/// A committed generation is never rolled back: recovery keeps it or refuses.
pub proof fn law_committed_is_never_rolled_back(
    record: JournalView,
    candidates: Seq<JournalView>,
    output: OutputView,
    fault: Option<FaultPoint>,
)
    requires
        record.phase == JournalPhase::Committed,
    ensures
        recovery_plan(record, candidates, output, fault) is Err || recovery_plan(
            record,
            candidates,
            output,
            fault,
        ) == Ok::<PlanView, RecoveryError>(keep(record)),
{
}

/// Recovery promotes a generation only where the staged pair and, for one that
/// replaces another, the backup are intact.
pub proof fn law_promotion_needs_evidence(
    record: JournalView,
    candidates: Seq<JournalView>,
    output: OutputView,
    plan: PlanView,
)
    requires
        recovery_plan(record, candidates, output, None) == Ok::<PlanView, RecoveryError>(plan),
        record.phase != JournalPhase::Committed,
        plan.record.phase == JournalPhase::Committed,
    ensures
        staging_error(output.staging, record) is None,
        record.previous_generation is Some ==> backup_error(output.backup, record) is None,
        digest_of(output.named_gallery) == Some(record.gallery_sha256),
{
}

// ---------------------------------------------------------------------------
// Journal records of several runs
// ---------------------------------------------------------------------------
/// The records that the first of several steps write, in their order. Every one
/// of them is found later: the current one as the journal, the others in the
/// history.
pub open spec fn written(steps: Seq<StepView>, n: int) -> Seq<JournalView>
    decreases n,
{
    if n <= 0 {
        Seq::empty()
    } else {
        match steps[n - 1] {
            StepView::WriteJournal(record) => written(steps, n - 1).push(record),
            _ => written(steps, n - 1),
        }
    }
}

/// Whether every record is valid.
#[verifier::opaque]
pub open spec fn all_valid(records: Seq<JournalView>) -> bool {
    forall|i: int| 0 <= i < records.len() ==> journal_error(#[trigger] records[i]) is None
}

/// Whether records are valid and follow each other, all after a number.
pub open spec fn follow(more: Seq<JournalView>, last: int) -> bool {
    &&& all_valid(more)
    &&& forall|i: int| 0 <= i < more.len() ==> (#[trigger] more[i]).journal_sequence > last
    &&& forall|i: int, j: int|
        0 <= i < j < more.len() ==> (#[trigger] more[i]).journal_sequence < (
        #[trigger] more[j]).journal_sequence
}

/// Whether records are valid, not ambiguous and none of them is after a number.
pub open spec fn precede(found: Seq<JournalView>, last: int) -> bool {
    &&& all_valid(found)
    &&& forall|i: int| 0 <= i < found.len() ==> (#[trigger] found[i]).journal_sequence <= last
    &&& !is_ambiguous(found)
}

proof fn lemma_all_usable(records: Seq<JournalView>)
    requires
        all_valid(records),
    ensures
        usable_records(records) == records,
    decreases records.len(),
{
    reveal(Seq::filter);
    reveal(all_valid);
    if records.len() > 0 {
        let before = records.drop_last();
        assert(all_valid(before)) by {
            assert forall|i: int| 0 <= i < before.len() implies journal_error(
                #[trigger] before[i],
            ) is None by {
                assert(before[i] == records[i]);
            }
        }
        lemma_all_usable(before);
        assert(journal_error(records[records.len() - 1]) is None);
        assert(before.push(records.last()) =~= records);
    } else {
        assert(usable_records(records) =~= records);
    }
}

proof fn lemma_usable_are_valid(found: Seq<JournalView>, i: int)
    requires
        0 <= i < usable_records(found).len(),
    ensures
        journal_error(usable_records(found)[i]) is None,
        found.contains(usable_records(found)[i]),
{
    let p = |v: JournalView| journal_error(v) is None;
    found.lemma_filter_pred(p, i);
    assert(usable_records(found).contains(usable_records(found)[i]));
    found.lemma_filter_contains_rev(p, usable_records(found)[i]);
}

proof fn lemma_all_valid_joined(found: Seq<JournalView>, more: Seq<JournalView>)
    requires
        all_valid(found),
        all_valid(more),
    ensures
        all_valid(found + more),
{
    reveal(all_valid);
    let all = found + more;
    assert forall|i: int| 0 <= i < all.len() implies journal_error(#[trigger] all[i]) is None by {
        if i < found.len() {
            assert(all[i] == found[i]);
        } else {
            assert(all[i] == more[i - found.len()]);
        }
    }
}

/// Records and later ones are not ambiguous together.
proof fn lemma_later_not_ambiguous(found: Seq<JournalView>, more: Seq<JournalView>, last: int)
    requires
        precede(found, last),
        follow(more, last),
    ensures
        !is_ambiguous(found + more),
{
    let all = found + more;
    let n = found.len() as int;
    assert forall|i: int, j: int|
        0 <= i < j < all.len() && (#[trigger] all[i]).journal_sequence == (
        #[trigger] all[j]).journal_sequence implies all[i] == all[j] by {
        if j < n {
            let (a, b) = (found[i], found[j]);
            assert(a == all[i] && b == all[j]);
            assert(a.journal_sequence == b.journal_sequence);
        } else if i < n {
            let (a, b) = (found[i], more[j - n]);
            assert(a == all[i] && b == all[j]);
            assert(a.journal_sequence <= last && b.journal_sequence > last);
        } else {
            let (a, b) = (more[i - n], more[j - n]);
            assert(a == all[i] && b == all[j]);
            assert(a.journal_sequence < b.journal_sequence);
        }
    }
}

/// The last of later records is the newest.
proof fn lemma_last_is_newest(found: Seq<JournalView>, more: Seq<JournalView>, last: int)
    requires
        precede(found, last),
        follow(more, last),
        more.len() > 0,
    ensures
        is_newest(found + more, more.last()),
{
    let all = found + more;
    let n = found.len() as int;
    let newest = more[more.len() - 1];
    assert(all[all.len() - 1] == newest);
    assert forall|i: int| 0 <= i < all.len() implies (#[trigger] all[i]).journal_sequence
        <= newest.journal_sequence by {
        if i < n {
            let a = found[i];
            assert(a == all[i]);
            assert(a.journal_sequence <= last && newest.journal_sequence > last);
        } else {
            let a = more[i - n];
            assert(a == all[i]);
            if i - n < more.len() - 1 {
                assert(a.journal_sequence < newest.journal_sequence);
            }
        }
    }
}

/// Among records and later ones, the last of the later ones is the newest.
proof fn lemma_newest_of_later(found: Seq<JournalView>, more: Seq<JournalView>, last: int)
    requires
        precede(found, last),
        follow(more, last),
        more.len() > 0,
    ensures
        usable_records(found + more) == found + more,
        !is_ambiguous(found + more),
        newest_record(found + more) == more.last(),
{
    lemma_all_valid_joined(found, more);
    lemma_all_usable(found + more);
    lemma_later_not_ambiguous(found, more, last);
    lemma_last_is_newest(found, more, last);
    law_newest_record_is_unique(found + more, more.last());
}

/// Records that are not committed before a number do not change which committed
/// record is the last before it.
proof fn lemma_latest_among_more(found: Seq<JournalView>, more: Seq<JournalView>, bound: u64)
    requires
        forall|i: int|
            0 <= i < more.len() ==> (#[trigger] more[i]).journal_sequence >= bound || more[i].phase
                != JournalPhase::Committed,
    ensures
        latest_committed(found + more, bound) == latest_committed(found, bound),
    decreases more.len(),
{
    if more.len() > 0 {
        let before = more.drop_last();
        assert((found + more).drop_last() =~= found + before);
        assert((found + more).last() == more[more.len() - 1]);
        assert forall|i: int| 0 <= i < before.len() implies (#[trigger] before[i]).journal_sequence
            >= bound || before[i].phase != JournalPhase::Committed by {
            assert(before[i] == more[i]);
        }
        lemma_latest_among_more(found, before, bound);
    } else {
        assert(found + more =~= found);
    }
}

/// The last committed record is the same before two numbers between which no
/// record is committed.
proof fn lemma_latest_between(records: Seq<JournalView>, from: u64, bound: u64)
    requires
        from <= bound,
        forall|i: int|
            0 <= i < records.len() ==> (#[trigger] records[i]).journal_sequence < from
                || records[i].phase != JournalPhase::Committed,
    ensures
        latest_committed(records, bound) == latest_committed(records, from),
    decreases records.len(),
{
    if records.len() > 0 {
        let before = records.drop_last();
        assert(records[records.len() - 1] == records.last());
        assert forall|i: int| 0 <= i < before.len() implies (#[trigger] before[i]).journal_sequence
            < from || before[i].phase != JournalPhase::Committed by {
            assert(before[i] == records[i]);
        }
        lemma_latest_between(before, from, bound);
    }
}

/// A later record of the same publication keeps its place after the committed
/// ones.
proof fn lemma_chain_goes_on(
    records: Seq<JournalView>,
    more: Seq<JournalView>,
    newest: JournalView,
    later: JournalView,
)
    requires
        chain_error(newest, records) is None,
        newest.phase != JournalPhase::Committed,
        precede(records, newest.journal_sequence as int),
        records.contains(newest),
        later.journal_sequence > newest.journal_sequence,
        later.previous_generation == newest.previous_generation,
        later.previous_gallery_sha256 == newest.previous_gallery_sha256,
        later.previous_state_sha256 == newest.previous_state_sha256,
        forall|i: int|
            0 <= i < more.len() ==> (#[trigger] more[i]).journal_sequence >= later.journal_sequence
                || more[i].phase != JournalPhase::Committed,
    ensures
        chain_error(later, records + more) is None,
{
    let n = choose|n: int| 0 <= n < records.len() && records[n] == newest;
    assert forall|i: int| 0 <= i < records.len() implies (#[trigger] records[i]).journal_sequence
        < newest.journal_sequence || records[i].phase != JournalPhase::Committed by {
        if records[i].journal_sequence == newest.journal_sequence && records[i] != newest {
            if i < n {
                assert(records[i].journal_sequence == records[n].journal_sequence);
            } else {
                assert(records[n].journal_sequence == records[i].journal_sequence);
            }
            assert(is_ambiguous(records));
        }
    }
    lemma_latest_between(records, newest.journal_sequence, later.journal_sequence);
    lemma_latest_among_more(records, more, later.journal_sequence);
}

// ---------------------------------------------------------------------------
// What any recovery leaves
// ---------------------------------------------------------------------------
/// An output directory, whose records name the usual places, after recovery
/// carried out its steps.
pub open spec fn output_after(output: OutputView, steps: Seq<StepView>, n: int) -> OutputView
    decreases n,
{
    if n <= 0 {
        output
    } else {
        let before = output_after(output, steps, n - 1);
        match steps[n - 1] {
            StepView::InstallState(_) => OutputView {
                state: output.staging.state,
                named_state: output.staging.state,
                ..before
            },
            StepView::RestoreGallery(_) => OutputView {
                gallery: output.backup.gallery,
                named_gallery: output.backup.gallery,
                ..before
            },
            StepView::RestoreState(_) => OutputView {
                state: output.backup.state,
                named_state: output.backup.state,
                ..before
            },
            _ => before,
        }
    }
}

/// Whether the active pair is the generation that a record stands for: its own
/// where it is committed, the one before where it was rolled back, and none
/// where a first publication was.
pub open spec fn stands_for(
    record: JournalView,
    gallery: Option<Seq<u8>>,
    state: Option<Seq<u8>>,
) -> bool {
    match record.phase {
        JournalPhase::Committed => digest_of(gallery) == Some(record.gallery_sha256) && digest_of(
            state,
        ) == Some(record.state_sha256),
        JournalPhase::RolledBack => digest_of(gallery) == record.previous_gallery_sha256
            && digest_of(state) == record.previous_state_sha256 && (record.previous_generation is None
            ==> gallery is None && state is None),
        _ => false,
    }
}

/// Whether the records of an output directory name the usual places.
pub open spec fn at_usual_places(output: OutputView) -> bool {
    output.named_gallery == output.gallery && output.named_state == output.state
}

/// The records that recovery selects from are valid and not ambiguous, and the
/// newest is one of them.
proof fn lemma_selected(found: Seq<JournalView>, output: OutputView, plan: PlanView)
    requires
        publication_recovery(found, output, None) == Ok::<Option<PlanView>, RecoveryError>(
            Some(plan),
        ),
    ensures
        ({
            let records = usable_records(found);
            let newest = newest_record(records);
            &&& journal_error(newest) is None
            &&& found.contains(newest)
            &&& precede(records, newest.journal_sequence as int)
            &&& recovery_plan(newest, records, output, None) == Ok::<PlanView, RecoveryError>(plan)
        }),
{
    let records = usable_records(found);
    let newest = newest_record(records);
    law_newest_record_is_unique(records, newest);
    let i = choose|i: int| 0 <= i < records.len() && records[i] == newest;
    lemma_usable_are_valid(found, i);
    assert(all_valid(records)) by {
        reveal(all_valid);
        assert forall|j: int| 0 <= j < records.len() implies journal_error(#[trigger] records[j])
            is None by {
            lemma_usable_are_valid(found, j);
        }
    }
}

/// Whatever records and files recovery accepts, it leaves one generation whole:
/// a committed record with the pair it names, or a rolled back one with the pair
/// before it, or with none where there was none before.
#[verifier::rlimit(40)]
pub proof fn law_recovery_leaves_a_whole_pair(
    found: Seq<JournalView>,
    output: OutputView,
    plan: PlanView,
)
    requires
        at_usual_places(output),
        publication_recovery(found, output, None) == Ok::<Option<PlanView>, RecoveryError>(
            Some(plan),
        ),
    ensures
        ({
            let after = output_after(output, plan.steps, plan.steps.len() as int);
            stands_for(plan.record, after.gallery, after.state)
        }),
{
    lemma_selected(found, output, plan);
    reveal_with_fuel(output_after, 4);
}

/// What recovery does with records among which one is the newest.
proof fn lemma_recovers_newest(all: Seq<JournalView>, record: JournalView, output: OutputView)
    requires
        all.len() > 0,
        usable_records(all) == all,
        !is_ambiguous(all),
        newest_record(all) == record,
    ensures
        publication_recovery(all, output, None) == match recovery_plan(record, all, output, None) {
            Ok(plan) => Ok::<Option<PlanView>, RecoveryError>(Some(plan)),
            Err(e) => Err(e),
        },
{
}

/// What recovery kept is kept again.
proof fn lemma_kept_is_kept(
    newest: JournalView,
    records: Seq<JournalView>,
    output: OutputView,
    plan: PlanView,
)
    requires
        recovery_plan(newest, records, output, None) == Ok::<PlanView, RecoveryError>(plan),
        plan.steps.len() == 0,
    ensures
        plan == keep(newest),
        output_after(output, plan.steps, 0) == output,
{
    assert(plan.steps =~= Seq::empty());
}

/// The records that recovery leaves: those from before that are valid, and those
/// that it wrote. They are not ambiguous, and the one that it left is the newest,
/// in its place after the committed ones.
#[verifier::rlimit(40)]
proof fn lemma_records_left(found: Seq<JournalView>, output: OutputView, plan: PlanView)
    requires
        publication_recovery(found, output, None) == Ok::<Option<PlanView>, RecoveryError>(
            Some(plan),
        ),
        sequence_goes_on(found),
    ensures
        ({
            let all = usable_records(found) + written(plan.steps, plan.steps.len() as int);
            &&& all.len() > 0
            &&& usable_records(all) == all
            &&& newest_record(all) == plan.record
            &&& is_newest(all, plan.record)
            &&& precede(all, plan.record.journal_sequence as int)
            &&& chain_error(plan.record, all) is None
            &&& journal_error(plan.record) is None
        }),
{
    lemma_selected(found, output, plan);
    let records = usable_records(found);
    let newest = newest_record(records);
    let n = plan.steps.len() as int;
    let more = written(plan.steps, n);
    law_newest_record_is_unique(records, newest);
    if n == 0 {
        lemma_kept_is_kept(newest, records, output, plan);
        assert(records + more =~= records);
        lemma_all_usable(records);
    } else {
        lemma_recovery_writes(newest, records, output, plan);
        lemma_newest_of_later(records, more, newest.journal_sequence as int);
        lemma_last_is_newest(records, more, newest.journal_sequence as int);
        lemma_all_valid_joined(records, more);
        lemma_chain_goes_on(records, more, newest, plan.record);
        assert(journal_error(plan.record) is None) by {
            reveal(all_valid);
            assert(more[more.len() - 1] == plan.record);
        }
    }
}

/// What a second recovery does with the record that the first one left.
#[verifier::rlimit(40)]
proof fn lemma_left_is_kept(
    newest: JournalView,
    records: Seq<JournalView>,
    output: OutputView,
    plan: PlanView,
    after: OutputView,
)
    requires
        at_usual_places(output),
        journal_error(newest) is None,
        leaves_room(newest),
        recovery_plan(newest, records, output, None) == Ok::<PlanView, RecoveryError>(plan),
        after == (OutputView {
            conforms: after.conforms,
            assets: after.assets,
            ..output_after(output, plan.steps, plan.steps.len() as int)
        }),
        after.gallery == output.gallery && plan.steps.len() == 0 ==> after.conforms
            == output.conforms && after.assets == output.assets,
        after.gallery == output.staging.gallery && plan.steps.len() > 0 ==> after.conforms
            == output.staging.conforms && after.assets == output.staging.assets,
        output.gallery is Some && output.staging.gallery is Some && hex_sha256(output.gallery->0)
            == hex_sha256(output.staging.gallery->0) ==> output.gallery == output.staging.gallery,
        chain_error(plan.record, records + written(plan.steps, plan.steps.len() as int)) is None,
    ensures
        recovery_plan(
            plan.record,
            records + written(plan.steps, plan.steps.len() as int),
            after,
            None,
        ) == Ok::<PlanView, RecoveryError>(keep(plan.record)),
{
    let n = plan.steps.len() as int;
    let all = records + written(plan.steps, n);
    if n == 0 {
        lemma_kept_is_kept(newest, records, output, plan);
        assert(after == output);
        assert(all =~= records);
    } else {
        lemma_recovered_is_kept(newest, records, output, plan, after, all);
    }
}

/// Recovering what was recovered changes nothing, whatever records and files the
/// first recovery accepted: it finds the record that the first one left, plans no
/// step and leaves that record. The second recovery finds the records that the
/// first one wrote beside those from before, and the files as the first one left
/// them. What it sees of the active gallery is what was seen of the same bytes
/// before, and the active gallery has the digest of the staged one only where it
/// is the same.
#[verifier::rlimit(40)]
pub proof fn law_second_recovery_changes_nothing(
    found: Seq<JournalView>,
    output: OutputView,
    plan: PlanView,
    after: OutputView,
)
    requires
        at_usual_places(output),
        publication_recovery(found, output, None) == Ok::<Option<PlanView>, RecoveryError>(
            Some(plan),
        ),
        sequence_goes_on(found),
        after == (OutputView {
            conforms: after.conforms,
            assets: after.assets,
            ..output_after(output, plan.steps, plan.steps.len() as int)
        }),
        after.gallery == output.gallery && plan.steps.len() == 0 ==> after.conforms
            == output.conforms && after.assets == output.assets,
        after.gallery == output.staging.gallery && plan.steps.len() > 0 ==> after.conforms
            == output.staging.conforms && after.assets == output.staging.assets,
        output.gallery is Some && output.staging.gallery is Some && hex_sha256(output.gallery->0)
            == hex_sha256(output.staging.gallery->0) ==> output.gallery == output.staging.gallery,
    ensures
        publication_recovery(
            usable_records(found) + written(plan.steps, plan.steps.len() as int),
            after,
            None,
        ) == Ok::<Option<PlanView>, RecoveryError>(Some(keep(plan.record))),
{
    let records = usable_records(found);
    let newest = newest_record(records);
    let all = records + written(plan.steps, plan.steps.len() as int);
    assert(recovery_plan(plan.record, all, after, None) == Ok::<PlanView, RecoveryError>(
        keep(plan.record),
    )) by {
        lemma_selected(found, output, plan);
        lemma_records_left(found, output, plan);
        lemma_left_is_kept(newest, records, output, plan, after);
    }
    assert(publication_recovery(all, after, None) == Ok::<Option<PlanView>, RecoveryError>(
        Some(keep(plan.record)),
    )) by {
        lemma_records_left(found, output, plan);
        lemma_recovers_newest(all, plan.record, after);
    }
}

/// What a recovery that does something writes into the journal.
#[verifier::rlimit(40)]
proof fn lemma_recovery_writes(
    newest: JournalView,
    records: Seq<JournalView>,
    output: OutputView,
    plan: PlanView,
)
    requires
        journal_error(newest) is None,
        leaves_room(newest),
        recovery_plan(newest, records, output, None) == Ok::<PlanView, RecoveryError>(plan),
        plan.steps.len() > 0,
    ensures
        ({
            let more = written(plan.steps, plan.steps.len() as int);
            &&& follow(more, newest.journal_sequence as int)
            &&& more.len() > 0
            &&& more.last() == plan.record
            &&& newest.phase != JournalPhase::Committed
            &&& plan.record.journal_sequence > newest.journal_sequence
            &&& plan.record.previous_generation == newest.previous_generation
            &&& plan.record.previous_gallery_sha256 == newest.previous_gallery_sha256
            &&& plan.record.previous_state_sha256 == newest.previous_state_sha256
            &&& forall|i: int|
                0 <= i < more.len() ==> (#[trigger] more[i]).journal_sequence
                    >= plan.record.journal_sequence || more[i].phase != JournalPhase::Committed
        }),
{
    let more = written(plan.steps, plan.steps.len() as int);
    let installed = in_phase(newest, JournalPhase::StateInstalled);
    law_next_phase_is_valid(newest, JournalPhase::RolledBack);
    law_next_phase_is_valid(newest, JournalPhase::StateInstalled);
    law_next_phase_is_valid(newest, JournalPhase::Committed);
    if newest.phase != JournalPhase::StateInstalled {
        law_next_phase_is_valid(installed, JournalPhase::Committed);
    }
    reveal_with_fuel(written, 4);
    reveal(all_valid);
    if plan == promotion_plan(newest) || plan == completion_plan(newest) {
        if newest.phase == JournalPhase::StateInstalled {
            assert(more =~= seq![plan.record]);
        } else {
            assert(more =~= seq![installed, plan.record]);
        }
    } else {
        assert(more =~= seq![plan.record]);
    }
}

/// What recovery left is kept as it is.
#[verifier::rlimit(40)]
proof fn lemma_recovered_is_kept(
    newest: JournalView,
    records: Seq<JournalView>,
    output: OutputView,
    plan: PlanView,
    after: OutputView,
    later: Seq<JournalView>,
)
    requires
        at_usual_places(output),
        journal_error(newest) is None,
        leaves_room(newest),
        recovery_plan(newest, records, output, None) == Ok::<PlanView, RecoveryError>(plan),
        plan.steps.len() > 0,
        after == (OutputView {
            conforms: after.conforms,
            assets: after.assets,
            ..output_after(output, plan.steps, plan.steps.len() as int)
        }),
        after.gallery == output.staging.gallery ==> after.conforms == output.staging.conforms
            && after.assets == output.staging.assets,
        output.gallery is Some && output.staging.gallery is Some && hex_sha256(output.gallery->0)
            == hex_sha256(output.staging.gallery->0) ==> output.gallery == output.staging.gallery,
        chain_error(plan.record, later) is None,
    ensures
        recovery_plan(plan.record, later, after, None) == Ok::<PlanView, RecoveryError>(
            keep(plan.record),
        ),
{
    let installed = in_phase(newest, JournalPhase::StateInstalled);
    law_next_phase_is_valid(newest, JournalPhase::RolledBack);
    law_next_phase_is_valid(newest, JournalPhase::StateInstalled);
    law_next_phase_is_valid(newest, JournalPhase::Committed);
    if newest.phase != JournalPhase::StateInstalled {
        law_next_phase_is_valid(installed, JournalPhase::Committed);
    }
    reveal_with_fuel(output_after, 4);
}

// ---------------------------------------------------------------------------
// Faults
// ---------------------------------------------------------------------------
/// How many steps of the installation come before a fault.
pub open spec fn steps_before(fault: FaultPoint) -> int {
    match fault {
        FaultPoint::BeforeGalleryReplacement => 0,
        FaultPoint::AfterGalleryReplacement | FaultPoint::BeforeGalleryJournal => 1,
        FaultPoint::AfterGalleryJournal | FaultPoint::BeforeStateReplacement => 2,
        FaultPoint::AfterStateReplacement | FaultPoint::BeforeStateJournal => 3,
        FaultPoint::AfterStateJournal | FaultPoint::BeforeCommitted => 4,
        FaultPoint::AfterCommitted => 6,
        FaultPoint::AfterRestoreGallery | FaultPoint::BeforeRestoreState => 6,
    }
}

proof fn lemma_played_until(script: Seq<StepView>, fault: FaultPoint, i: int)
    requires
        0 <= i <= script.len(),
        forall|j: int| 0 <= j < i ==> #[trigger] script[j] != StepView::Fault(fault),
    ensures
        !stops(script.take(i), Some(fault)),
        played(script.take(i), Some(fault)) == played(script.take(i), None),
    decreases i,
{
    let before = script.take(i);
    if before.contains(StepView::Fault(fault)) {
        let j = choose|j: int| 0 <= j < before.len() && before[j] == StepView::Fault(fault);
        assert(script[j] == StepView::Fault(fault));
    }
    if i > 0 {
        lemma_played_until(script, fault, i - 1);
        assert(before.drop_last() =~= script.take(i - 1));
        assert(before.last() == script[i - 1]);
    }
}

proof fn lemma_played_to_fault(script: Seq<StepView>, fault: FaultPoint, k: int, i: int)
    requires
        0 <= k < i <= script.len(),
        script[k] == StepView::Fault(fault),
        forall|j: int| 0 <= j < k ==> #[trigger] script[j] != StepView::Fault(fault),
    ensures
        played(script.take(i), Some(fault)) == played(script.take(k), None).push(
            StepView::Fault(fault),
        ),
    decreases i,
{
    let before = script.take(i);
    assert(before.drop_last() =~= script.take(i - 1));
    assert(before.last() == script[i - 1]);
    if i - 1 == k {
        lemma_played_until(script, fault, k);
    } else {
        lemma_played_to_fault(script, fault, k, i - 1);
        assert(script.take(i - 1)[k] == StepView::Fault(fault));
    }
}

proof fn lemma_unfaulted_prefix(journal: JournalView, fault: FaultPoint)
    requires
        is_publication_fault(fault),
    ensures
        played(publish_script(journal).take(place_of(fault)), None) == plain_script(journal).take(
            steps_before(fault),
        ),
{
    let s = publish_script(journal);
    let p = plain_script(journal);
    assert(played(s.take(0), None) =~= Seq::empty());
    lemma_played_next(s, 0);
    lemma_played_next(s, 1);
    lemma_played_next(s, 2);
    lemma_played_next(s, 3);
    lemma_played_next(s, 4);
    lemma_played_next(s, 5);
    lemma_played_next(s, 6);
    lemma_played_next(s, 7);
    lemma_played_next(s, 8);
    lemma_played_next(s, 9);
    lemma_played_next(s, 10);
    lemma_played_next(s, 11);
    lemma_played_next(s, 12);
    lemma_played_next(s, 13);
    lemma_played_next(s, 14);
    assert(played(s.take(place_of(fault)), None) =~= p.take(steps_before(fault)));
}

/// With a fault a publication plays the steps before it, and nothing after.
pub proof fn law_faulted_script(journal: JournalView, fault: FaultPoint)
    requires
        is_publication_fault(fault),
    ensures
        played(publish_script(journal), Some(fault)) == plain_script(journal).take(
            steps_before(fault),
        ).push(StepView::Fault(fault)),
{
    let s = publish_script(journal);
    let k = place_of(fault);
    assert(s.len() == 16);
    assert(s[k] == StepView::Fault(fault));
    assert forall|j: int| 0 <= j < k implies #[trigger] s[j] != StepView::Fault(fault) by {}
    lemma_played_to_fault(s, fault, k, 16);
    assert(s.take(16) =~= s);
    lemma_unfaulted_prefix(journal, fault);
}

/// How many steps of a whole publication come before a fault.
pub open spec fn steps_done(prepared: JournalView, fault: FaultPoint) -> int {
    preparation_steps(prepared).len() + steps_before(fault)
}

/// The steps of a publication with a fault are those without one up to the
/// fault, then the fault.
proof fn lemma_faulted_steps(prepared: JournalView, fault: FaultPoint)
    requires
        is_publication_fault(fault),
    ensures
        ({
            let whole = publication_steps(prepared, None);
            let n = steps_done(prepared, fault);
            &&& 0 <= n < whole.len()
            &&& publication_steps(prepared, Some(fault)) == whole.take(n).push(
                StepView::Fault(fault),
            )
        }),
{
    let journal = installing_record(prepared);
    law_unfaulted_script(journal);
    law_faulted_script(journal, fault);
    let whole = publication_steps(prepared, None);
    let n = steps_done(prepared, fault);
    lemma_publication_faults(journal, fault);
    assert(publication_steps(prepared, Some(fault)) =~= whole.take(n).push(
        StepView::Fault(fault),
    ));
}

/// Whether carrying out steps ends at one: those before it pass their checks,
/// and it does not.
pub open spec fn ends_at(disk: Disk, steps: Seq<StepView>, n: int) -> bool {
    &&& 0 <= n < steps.len()
    &&& forall|i: int|
        0 <= i < n ==> {
            let now = #[trigger] after_steps(disk, steps, i + 1);
            step_error(steps[i], now.gallery, now.state) is None
        }
    &&& {
        let now = after_steps(disk, steps, n + 1);
        step_error(steps[n], now.gallery, now.state) is Some
    }
}

proof fn lemma_same_prefix(disk: Disk, steps: Seq<StepView>, others: Seq<StepView>, n: int)
    requires
        n <= steps.len(),
        n <= others.len(),
        forall|i: int| 0 <= i < n ==> #[trigger] steps[i] == others[i],
    ensures
        after_steps(disk, steps, n) == after_steps(disk, others, n),
        written(steps, n) == written(others, n),
    decreases n,
{
    if n > 0 {
        lemma_same_prefix(disk, steps, others, n - 1);
        assert(steps[n - 1] == others[n - 1]);
    }
}

/// A publication with a fault ends at the fault, which is its last step, with as
/// much done as a publication without one has done after the same number of
/// steps.
pub proof fn law_fault_ends_the_publication(disk: Disk, prepared: JournalView, fault: FaultPoint)
    requires
        is_prepared(disk, prepared),
        is_publication_fault(fault),
    ensures
        ({
            let n = steps_done(prepared, fault);
            let steps = publication_steps(prepared, Some(fault));
            let whole = publication_steps(prepared, None);
            &&& 0 < n < whole.len()
            &&& steps.len() == n + 1
            &&& steps[n] == StepView::Fault(fault)
            &&& ends_at(disk, steps, n)
            &&& after_steps(disk, steps, n + 1) == after_steps(disk, whole, n)
            &&& written(steps, n + 1) == written(whole, n)
        }),
{
    let whole = publication_steps(prepared, None);
    let steps = publication_steps(prepared, Some(fault));
    let n = steps_done(prepared, fault);
    lemma_faulted_steps(prepared, fault);
    assert(steps[n] == StepView::Fault(fault));
    assert forall|i: int| 0 <= i < n implies #[trigger] steps[i] == whole[i] by {}
    assert forall|i: int| 0 <= i < n implies {
        let now = #[trigger] after_steps(disk, steps, i + 1);
        step_error(steps[i], now.gallery, now.state) is None
    } by {
        lemma_same_prefix(disk, steps, whole, i + 1);
        law_publication_passes_its_checks(disk, prepared, i);
        assert(steps[i] == whole[i]);
    }
    lemma_same_prefix(disk, steps, whole, n);
}

/// The records of a publication are valid and follow each other.
proof fn lemma_records_follow(prepared: JournalView)
    requires
        journal_error(prepared) is None,
        prepared.phase == JournalPhase::Prepared,
        prepared.journal_sequence < u64::MAX - 10,
    ensures
        forall|k: int|
            0 <= k <= 4 ==> journal_error(#[trigger] record_after(prepared, k)) is None && ({
                let r = record_after(prepared, k);
                &&& r.previous_generation == prepared.previous_generation
                &&& r.previous_gallery_sha256 == prepared.previous_gallery_sha256
                &&& r.previous_state_sha256 == prepared.previous_state_sha256
                &&& r.phase == JournalPhase::Committed <==> k == 4
            }),
        record_after(prepared, 2).journal_sequence == record_after(prepared, 1).journal_sequence + 1,
        record_after(prepared, 3).journal_sequence == record_after(prepared, 2).journal_sequence + 1,
        record_after(prepared, 4).journal_sequence == record_after(prepared, 3).journal_sequence + 1,
        prepared.previous_generation is Some ==> record_after(prepared, 1).journal_sequence
            == prepared.journal_sequence + 1,
        prepared.previous_generation is None ==> record_after(prepared, 1) == prepared,
{
    law_next_phase_is_valid(prepared, JournalPhase::BackupCreated);
    law_next_phase_is_valid(record_after(prepared, 1), JournalPhase::GalleryInstalled);
    law_next_phase_is_valid(record_after(prepared, 2), JournalPhase::StateInstalled);
    law_next_phase_is_valid(record_after(prepared, 3), JournalPhase::Committed);
}

/// All records that a publication writes.
spec fn records_of(prepared: JournalView) -> Seq<JournalView> {
    if prepared.previous_generation is Some {
        seq![
            prepared,
            record_after(prepared, 1),
            record_after(prepared, 2),
            record_after(prepared, 3),
            record_after(prepared, 4),
        ]
    } else {
        seq![
            prepared,
            record_after(prepared, 2),
            record_after(prepared, 3),
            record_after(prepared, 4),
        ]
    }
}

/// How many records a publication has written after so many steps.
spec fn record_count(prepared: JournalView, n: int) -> int {
    if prepared.previous_generation is Some {
        if n < 3 {
            1
        } else if n < 5 {
            2
        } else if n < 7 {
            3
        } else if n < 9 {
            4
        } else {
            5
        }
    } else {
        if n < 3 {
            1
        } else if n < 5 {
            2
        } else if n < 7 {
            3
        } else {
            4
        }
    }
}

proof fn lemma_written_records(prepared: JournalView, n: int)
    requires
        1 <= n <= publication_steps(prepared, None).len(),
    ensures
        written(publication_steps(prepared, None), n) == records_of(prepared).take(
            record_count(prepared, n),
        ),
    decreases n,
{
    let steps = publication_steps(prepared, None);
    let all = records_of(prepared);
    let k = record_count(prepared, n);
    if prepared.previous_generation is Some {
        lemma_replacement_steps(prepared);
    } else {
        lemma_first_steps(prepared);
    }
    if n == 1 {
        assert(written(steps, 0) =~= Seq::empty());
        assert(written(steps, 1) =~= all.take(1));
    } else {
        lemma_written_records(prepared, n - 1);
        let before = record_count(prepared, n - 1);
        assert(written(steps, n) =~= all.take(k)) by {
            if k > before {
                assert(all.take(before).push(all[before]) =~= all.take(k));
            }
        }
    }
}

/// All records that a publication writes are valid and follow each other.
proof fn lemma_all_records_follow(prepared: JournalView)
    requires
        journal_error(prepared) is None,
        prepared.phase == JournalPhase::Prepared,
        prepared.journal_sequence < u64::MAX - 10,
    ensures
        follow(records_of(prepared), prepared.journal_sequence - 1),
        forall|i: int|
            0 <= i < records_of(prepared).len() ==> {
                let r = #[trigger] records_of(prepared)[i];
                &&& r.previous_generation == prepared.previous_generation
                &&& r.previous_gallery_sha256 == prepared.previous_gallery_sha256
                &&& r.previous_state_sha256 == prepared.previous_state_sha256
                &&& r.phase == JournalPhase::Committed ==> i == records_of(prepared).len() - 1
            },
{
    lemma_records_follow(prepared);
    assert(record_after(prepared, 0) == prepared);
    assert(all_valid(records_of(prepared))) by {
        reveal(all_valid);
    }
}

proof fn lemma_follow_taken(records: Seq<JournalView>, last: int, k: int)
    requires
        follow(records, last),
        0 <= k <= records.len(),
    ensures
        follow(records.take(k), last),
{
    let some = records.take(k);
    assert forall|i: int| 0 <= i < k implies #[trigger] some[i] == records[i] by {}
    assert(all_valid(some)) by {
        reveal(all_valid);
    }
}

/// What a publication has written after so many steps: valid records that follow
/// each other, the last of which is the current one.
proof fn lemma_written_follow(disk: Disk, prepared: JournalView, n: int)
    requires
        is_prepared(disk, prepared),
        1 <= n <= publication_steps(prepared, None).len(),
    ensures
        ({
            let more = written(publication_steps(prepared, None), n);
            let now = after_steps(disk, publication_steps(prepared, None), n);
            &&& more.len() > 0
            &&& follow(more, prepared.journal_sequence - 1)
            &&& now.journal == Some(more.last())
            &&& more.last().journal_sequence >= prepared.journal_sequence
            &&& more.last().previous_generation == prepared.previous_generation
            &&& more.last().previous_gallery_sha256 == prepared.previous_gallery_sha256
            &&& more.last().previous_state_sha256 == prepared.previous_state_sha256
            &&& forall|i: int|
                0 <= i < more.len() ==> (#[trigger] more[i]).journal_sequence
                    >= more.last().journal_sequence || more[i].phase != JournalPhase::Committed
        }),
{
    let all = records_of(prepared);
    let k = record_count(prepared, n);
    let more = all.take(k);
    lemma_written_records(prepared, n);
    lemma_all_records_follow(prepared);
    lemma_follow_taken(all, prepared.journal_sequence - 1, k);
    if prepared.previous_generation is Some {
        lemma_replacing(disk, prepared, n);
    } else {
        lemma_publishing_first(disk, prepared, n);
    }
    assert(more.last() == all[k - 1]);
    assert forall|i: int| 0 <= i < more.len() implies (#[trigger] more[i]).journal_sequence
        >= more.last().journal_sequence || more[i].phase != JournalPhase::Committed by {
        assert(more[i] == all[i]);
    }
}

/// Whether a prepared publication comes after the records found before it, and
/// replaces the last committed one of them.
pub open spec fn continues(prepared: JournalView, found: Seq<JournalView>) -> bool {
    precede(found, prepared.journal_sequence - 1) && chain_error(prepared, found) is None
}

/// What recovery selects after so many steps of a publication: the record that
/// is current, in its place after the committed ones.
proof fn lemma_selected_after(
    disk: Disk,
    prepared: JournalView,
    found: Seq<JournalView>,
    n: int,
    output: OutputView,
)
    requires
        is_prepared(disk, prepared),
        continues(prepared, found),
        1 <= n <= publication_steps(prepared, None).len(),
    ensures
        ({
            let all = found + written(publication_steps(prepared, None), n);
            let current = after_steps(disk, publication_steps(prepared, None), n).journal->0;
            &&& chain_error(current, all) is None
            &&& publication_recovery(all, output, None) == match recovery_plan(
                current,
                all,
                output,
                None,
            ) {
                Ok(plan) => Ok::<Option<PlanView>, RecoveryError>(Some(plan)),
                Err(e) => Err(e),
            }
        }),
{
    let more = written(publication_steps(prepared, None), n);
    lemma_written_follow(disk, prepared, n);
    let current = more.last();
    lemma_newest_of_later(found, more, prepared.journal_sequence - 1);
    assert forall|i: int| 0 <= i < found.len() implies (#[trigger] found[i]).journal_sequence
        < prepared.journal_sequence || found[i].phase != JournalPhase::Committed by {}
    lemma_latest_between(found, prepared.journal_sequence, current.journal_sequence);
    lemma_latest_among_more(found, more, current.journal_sequence);
    lemma_recovers_newest(found + more, current, output);
}

/// What a replacement that was interrupted after so many steps is recovered to.
#[verifier::rlimit(40)]
proof fn lemma_replacement_outcome(
    disk: Disk,
    prepared: JournalView,
    candidates: Seq<JournalView>,
    n: int,
)
    requires
        is_prepared(disk, prepared),
        prepared.previous_generation is Some,
        prepared.previous_state_sha256 != Some(prepared.state_sha256),
        2 <= n <= publication_steps(prepared, None).len(),
        chain_error(
            after_steps(disk, publication_steps(prepared, None), n).journal->0,
            candidates,
        ) is None,
    ensures
        ({
            let now = after_steps(disk, publication_steps(prepared, None), n);
            let plan = recovery_plan(now.journal->0, candidates, seen_by_recovery(now), None);
            let end = recovered(now, plan->Ok_0);
            &&& plan is Ok
            &&& end.journal == Some(plan->Ok_0.record)
            &&& plan->Ok_0.record.generation == prepared.generation
            &&& if n < 6 {
                &&& plan->Ok_0.record.phase == JournalPhase::RolledBack
                &&& end.gallery == disk.gallery
                &&& end.state == disk.state
            } else {
                &&& plan->Ok_0.record.phase == JournalPhase::Committed
                &&& end.gallery == disk.staging.gallery
                &&& end.state == disk.staging.state
                &&& digest_of(end.gallery) == Some(plan->Ok_0.record.gallery_sha256)
                &&& digest_of(end.state) == Some(plan->Ok_0.record.state_sha256)
            }
        }),
{
    lemma_replacing(disk, prepared, n);
    let now = after_steps(disk, publication_steps(prepared, None), n);
    let record = now.journal->0;
    lemma_backup_made(disk, prepared, record);
    lemma_rollback_restores(now, record);
    lemma_promotion_commits(now, record);
    if n >= 9 {
        lemma_nothing_to_do(now, record);
        assert(document_error(disk.staging.gallery->0, disk.staging.conforms, disk.staging.assets)
            is None);
    }
}

/// A publication of changed photos that fails on purpose is recovered as its
/// fault says: to the generation before, byte for byte, where the state was not
/// replaced yet, and to the new one where it was. The records found are those
/// from before and those that the publication wrote.
#[verifier::rlimit(40)]
pub proof fn law_faulted_replacement_recovers(
    disk: Disk,
    prepared: JournalView,
    found: Seq<JournalView>,
    fault: FaultPoint,
)
    requires
        is_prepared(disk, prepared),
        prepared.previous_generation is Some,
        prepared.previous_state_sha256 != Some(prepared.state_sha256),
        continues(prepared, found),
        is_publication_fault(fault),
    ensures
        ({
            let steps = publication_steps(prepared, Some(fault));
            let n = steps_done(prepared, fault);
            let now = after_steps(disk, steps, n + 1);
            let all = found + written(steps, n + 1);
            let outcome = publication_recovery(all, seen_by_recovery(now), None);
            &&& ends_at(disk, steps, n)
            &&& outcome matches Ok(Some(plan)) && {
                let end = recovered(now, plan);
                &&& end.journal == Some(plan.record)
                &&& plan.record.generation == prepared.generation
                &&& if steps_before(fault) < 3 {
                    &&& plan.record.phase == JournalPhase::RolledBack
                    &&& end.gallery == disk.gallery
                    &&& end.state == disk.state
                } else {
                    &&& plan.record.phase == JournalPhase::Committed
                    &&& end.gallery == disk.staging.gallery
                    &&& end.state == disk.staging.state
                    &&& digest_of(end.gallery) == Some(plan.record.gallery_sha256)
                    &&& digest_of(end.state) == Some(plan.record.state_sha256)
                }
            }
        }),
{
    let n = steps_done(prepared, fault);
    let whole = publication_steps(prepared, None);
    let now = after_steps(disk, whole, n);
    law_fault_ends_the_publication(disk, prepared, fault);
    lemma_selected_after(disk, prepared, found, n, seen_by_recovery(now));
    lemma_replacement_outcome(disk, prepared, found + written(whole, n), n);
}

/// A first publication that fails on purpose is recovered to no generation or to
/// the new one, whole, unless it fails between its record of the installed
/// gallery and the replacement of the state.
pub proof fn law_faulted_first_publication_recovers(
    disk: Disk,
    prepared: JournalView,
    found: Seq<JournalView>,
    fault: FaultPoint,
)
    requires
        is_prepared(disk, prepared),
        prepared.previous_generation is None,
        continues(prepared, found),
        is_publication_fault(fault),
        fault != FaultPoint::AfterGalleryJournal,
        fault != FaultPoint::BeforeStateReplacement,
    ensures
        ({
            let steps = publication_steps(prepared, Some(fault));
            let n = steps_done(prepared, fault);
            let now = after_steps(disk, steps, n + 1);
            let all = found + written(steps, n + 1);
            let outcome = publication_recovery(all, seen_by_recovery(now), None);
            &&& ends_at(disk, steps, n)
            &&& outcome matches Ok(Some(plan)) && recovered(now, plan).journal == Some(plan.record)
                && is_whole(prepared, recovered(now, plan))
        }),
{
    let n = steps_done(prepared, fault);
    let whole = publication_steps(prepared, None);
    let now = after_steps(disk, whole, n);
    law_fault_ends_the_publication(disk, prepared, fault);
    lemma_selected_after(disk, prepared, found, n, seen_by_recovery(now));
    law_interrupted_first_publication_recovers(disk, prepared, found + written(whole, n), n);
}

/// A build of unchanged photos after a build changes nothing: recovery finds the
/// committed record and plans no step, and no publication is due.
pub proof fn law_second_build_publishes_nothing(
    disk: Disk,
    prepared: JournalView,
    found: Seq<JournalView>,
)
    requires
        is_prepared(disk, prepared),
        continues(prepared, found),
    ensures
        ({
            let steps = publication_steps(prepared, None);
            let n = steps.len() as int;
            let end = after_steps(disk, steps, n);
            let committed = committed_record(prepared);
            &&& end.journal == Some(committed)
            &&& publication_recovery(found + written(steps, n), seen_by_recovery(end), None) == Ok::<
                Option<PlanView>,
                RecoveryError,
            >(Some(keep(committed)))
            &&& recovered(end, keep(committed)) == end
            &&& !publication_due(0, end.gallery is Some)
        }),
{
    let steps = publication_steps(prepared, None);
    let n = steps.len() as int;
    let end = after_steps(disk, steps, n);
    if prepared.previous_generation is Some {
        lemma_replacing(disk, prepared, n);
    } else {
        lemma_publishing_first(disk, prepared, n);
    }
    lemma_selected_after(disk, prepared, found, n, seen_by_recovery(end));
    lemma_nothing_to_do(end, end.journal->0);
    assert(document_error(disk.staging.gallery->0, disk.staging.conforms, disk.staging.assets)
        is None);
}

// ---------------------------------------------------------------------------
// One publication after another
// ---------------------------------------------------------------------------
/// A committed record that is the newest is the last committed one.
proof fn lemma_latest_is_newest(all: Seq<JournalView>, record: JournalView, bound: u64)
    requires
        record.phase == JournalPhase::Committed,
        record.journal_sequence < bound,
        forall|i: int|
            0 <= i < all.len() ==> (#[trigger] all[i]).journal_sequence
                <= record.journal_sequence,
        forall|i: int|
            0 <= i < all.len() && (#[trigger] all[i]).journal_sequence == record.journal_sequence
                ==> all[i] == record,
    ensures
        match latest_committed(all, bound) {
            Some(latest) => latest.journal_sequence <= record.journal_sequence && (
            latest.journal_sequence == record.journal_sequence ==> latest == record),
            None => true,
        },
        all.contains(record) ==> latest_committed(all, bound) == Some(record),
    decreases all.len(),
{
    if all.len() > 0 {
        let before = all.drop_last();
        assert(all[all.len() - 1] == all.last());
        assert forall|i: int| 0 <= i < before.len() implies (#[trigger] before[i]).journal_sequence
            <= record.journal_sequence by {
            assert(before[i] == all[i]);
        }
        assert forall|i: int|
            0 <= i < before.len() && (#[trigger] before[i]).journal_sequence
                == record.journal_sequence implies before[i] == record by {
            assert(before[i] == all[i]);
        }
        lemma_latest_is_newest(before, record, bound);
        if all.contains(record) && !before.contains(record) {
            let i = choose|i: int| 0 <= i < all.len() && all[i] == record;
            if i < before.len() {
                assert(before[i] == record);
            }
            assert(all.last() == record);
        }
    }
}

proof fn lemma_same_sequence(all: Seq<JournalView>, record: JournalView, i: int)
    requires
        !is_ambiguous(all),
        all.contains(record),
        0 <= i < all.len(),
        all[i].journal_sequence == record.journal_sequence,
    ensures
        all[i] == record,
{
    let n = choose|n: int| 0 <= n < all.len() && all[n] == record;
    if i < n {
        assert(all[i].journal_sequence == all[n].journal_sequence);
    } else if n < i {
        assert(all[n].journal_sequence == all[i].journal_sequence);
    }
}

/// A publication that is prepared after a record continues the records among
/// which that is the newest.
proof fn lemma_prepared_continues(
    record: JournalView,
    all: Seq<JournalView>,
    gallery_sha256: Seq<char>,
    state_sha256: Seq<char>,
    gallery: Option<Seq<u8>>,
    state: Option<Seq<u8>>,
)
    requires
        precede(all, record.journal_sequence as int),
        all.contains(record),
        chain_error(record, all) is None,
        stands_for(record, gallery, state),
        record.journal_sequence < u64::MAX,
    ensures
        continues(
            prepared_record(Some(record), gallery_sha256, state_sha256, gallery, state),
            all,
        ),
{
    let prepared = prepared_record(Some(record), gallery_sha256, state_sha256, gallery, state);
    assert(prepared.journal_sequence == record.journal_sequence + 1);
    assert forall|i: int|
        0 <= i < all.len() && (#[trigger] all[i]).journal_sequence
            == record.journal_sequence implies all[i] == record by {
        lemma_same_sequence(all, record, i);
    }
    if record.phase == JournalPhase::Committed {
        lemma_latest_is_newest(all, record, prepared.journal_sequence);
    } else {
        lemma_latest_between(all, record.journal_sequence, prepared.journal_sequence);
    }
}

/// The publication that is prepared after a recovery continues what the recovery
/// left: its record comes after all others, and it replaces exactly the last
/// committed generation, whose pair is the active one. So what holds of an
/// interrupted publication holds of every publication in turn.
pub proof fn law_next_publication_continues(
    found: Seq<JournalView>,
    output: OutputView,
    plan: PlanView,
    gallery_sha256: Seq<char>,
    state_sha256: Seq<char>,
)
    requires
        at_usual_places(output),
        publication_recovery(found, output, None) == Ok::<Option<PlanView>, RecoveryError>(
            Some(plan),
        ),
        sequence_goes_on(found),
        plan.record.journal_sequence < u64::MAX,
    ensures
        ({
            let after = output_after(output, plan.steps, plan.steps.len() as int);
            continues(
                prepared_record(
                    Some(plan.record),
                    gallery_sha256,
                    state_sha256,
                    after.gallery,
                    after.state,
                ),
                usable_records(found) + written(plan.steps, plan.steps.len() as int),
            )
        }),
{
    let after = output_after(output, plan.steps, plan.steps.len() as int);
    let all = usable_records(found) + written(plan.steps, plan.steps.len() as int);
    law_recovery_leaves_a_whole_pair(found, output, plan);
    lemma_records_left(found, output, plan);
    lemma_prepared_continues(
        plan.record,
        all,
        gallery_sha256,
        state_sha256,
        after.gallery,
        after.state,
    );
}

/// A first publication, which is prepared where nothing was found, continues
/// nothing.
pub proof fn law_first_publication_continues(
    gallery_sha256: Seq<char>,
    state_sha256: Seq<char>,
)
    ensures
        continues(
            prepared_record(None, gallery_sha256, state_sha256, None, None),
            Seq::empty(),
        ),
{
    reveal(all_valid);
}

} // verus!
