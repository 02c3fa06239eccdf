//! What recovery checks before it trusts what it finds, and what it decides.

use crate::digest::hex_sha256;
use crate::gallery::{as_items, gallery_assets_error, AssetObservation};
use crate::journal::{
    artifact_json, artifact_valid, is_generation_text, journal_error, ArtifactView, JournalPhase,
    JournalView,
};
use crate::json::{field, json_document, json_encoding};
use crate::laws::gallery::{law_verified_assets_are_backed, photo_is_backed};
use crate::laws::journal::{is_digest, lemma_digest};
use crate::recovery::{
    active_previous_error, backup_directory_error, backup_error, chain_error, document_error,
    is_ambiguous, latest_committed, law_newest_record_is_unique, leaves_room, newest_record,
    publication_recovery, recovery_plan, staging_error, usable_records, ArtifactFileView,
    BackupView, OutputView, RecoveryError, StagingView,
};
use crate::steps::{FaultPoint, PlanView, StepView};
use vstd::prelude::*;

verus! {

// ---------------------------------------------------------------------------
// Evidence
// ---------------------------------------------------------------------------
/// Whether bytes are a gallery that can be shown: a document that conforms to the
/// schema, with every preview and every download seen as described.
pub open spec fn can_be_shown(
    bytes: Seq<u8>,
    conforms: bool,
    assets: Seq<AssetObservation>,
) -> bool {
    conforms && (json_document(bytes) matches Some(document) && as_items(
        field(document, "photos"@),
    ) matches Some(photos) && (forall|i: int|
        0 <= i < photos.len() ==> #[trigger] photo_is_backed(photos, assets, i)))
}

/// A gallery document is accepted exactly where it can be shown.
pub proof fn law_accepted_document_can_be_shown(
    bytes: Seq<u8>,
    conforms: bool,
    assets: Seq<AssetObservation>,
)
    ensures
        document_error(bytes, conforms, assets) is None <==> can_be_shown(bytes, conforms, assets),
{
    match json_document(bytes) {
        Some(document) => {
            law_verified_assets_are_backed(document, assets);
        },
        None => {},
    }
}

/// Whether a pair of files is recorded by an artifact record of a generation: the
/// record is valid, names the generation, and carries the digests of both files.
pub open spec fn is_recorded(
    a: ArtifactView,
    generation: Seq<char>,
    gallery: Seq<u8>,
    state: Seq<u8>,
) -> bool {
    &&& artifact_valid(a)
    &&& a.generation == generation
    &&& a.gallery_sha256 == hex_sha256(gallery)
    &&& a.state_sha256 == hex_sha256(state)
}

/// An artifact record is valid exactly where it names a generation, carries two
/// digests, and the digest of its own content.
pub proof fn law_valid_artifact_iff(v: ArtifactView)
    ensures
        artifact_valid(v) <==> is_generation_text(v.generation) && is_digest(v.gallery_sha256)
            && is_digest(v.state_sha256) && v.record_sha256 == hex_sha256(
            json_encoding(artifact_json(v)),
        ),
{
    lemma_digest(v.gallery_sha256);
    lemma_digest(v.state_sha256);
}

/// A staged generation is accepted exactly where its directory holds a gallery that
/// can be shown, a readable state and a record of that pair, and the pair is the one
/// that the journal names.
pub proof fn law_accepted_staging_is_whole(staging: StagingView, record: JournalView)
    ensures
        staging_error(staging, record) is None <==> {
            &&& staging.directory
            &&& staging.state_readable
            &&& staging.gallery matches Some(gallery)
            &&& staging.state matches Some(state)
            &&& staging.record matches ArtifactFileView::Read(a)
            &&& can_be_shown(gallery, staging.conforms, staging.assets)
            &&& is_recorded(a, record.generation, gallery, state)
            &&& hex_sha256(gallery) == record.gallery_sha256
            &&& hex_sha256(state) == record.state_sha256
        },
{
    if staging.gallery is Some {
        law_accepted_document_can_be_shown(
            staging.gallery->0,
            staging.conforms,
            staging.assets,
        );
    }
}

/// The backup behind a record is accepted exactly where the record replaces nothing,
/// or where both files are there, are recorded as the generation that it replaces,
/// and have the digests that it names for it.
pub proof fn law_accepted_backup_is_whole(backup: BackupView, record: JournalView)
    ensures
        backup_error(backup, record) is None <==> match (
            record.previous_generation,
            record.previous_gallery_sha256,
            record.previous_state_sha256,
        ) {
            (None, None, None) => true,
            (Some(generation), Some(gallery_hash), Some(state_hash)) => {
                backup.gallery matches Some(gallery) && backup.state matches Some(state)
                    && backup.record matches ArtifactFileView::Read(a) && is_recorded(
                    a,
                    generation,
                    gallery,
                    state,
                ) && hex_sha256(gallery) == gallery_hash && hex_sha256(state) == state_hash
            },
            _ => false,
        },
{
}

/// A backup directory is accepted for a generation exactly where both files are
/// there and recorded as that generation.
pub proof fn law_accepted_backup_directory_is_recorded(backup: BackupView, generation: Seq<char>)
    ensures
        backup_directory_error(backup, generation) is None <==> (backup.gallery matches Some(
            gallery,
        ) && backup.state matches Some(state) && backup.record matches ArtifactFileView::Read(a)
            && is_recorded(a, generation, gallery, state)),
{
}

/// The active pair is accepted as the generation before a record exactly where it
/// has the digests that the record names for it, and as none where no file is there.
pub proof fn law_accepted_previous_pair(
    gallery: Option<Seq<u8>>,
    state: Option<Seq<u8>>,
    record: JournalView,
)
    ensures
        active_previous_error(gallery, state, record) is None <==> match (
            record.previous_generation,
            record.previous_gallery_sha256,
            record.previous_state_sha256,
        ) {
            (None, None, None) => gallery is None && state is None,
            (Some(_), Some(g), Some(s)) => gallery is Some && hex_sha256(gallery->0) == g && state
                is Some && hex_sha256(state->0) == s,
            _ => false,
        },
{
}

// ---------------------------------------------------------------------------
// The chain
// ---------------------------------------------------------------------------
/// Whether a record is the last that was committed before a number.
pub open spec fn is_last_committed(
    candidates: Seq<JournalView>,
    i: int,
    bound: u64,
) -> bool {
    &&& 0 <= i < candidates.len()
    &&& candidates[i].phase == JournalPhase::Committed
    &&& candidates[i].journal_sequence < bound
    &&& forall|j: int|
        0 <= j < candidates.len() && (#[trigger] candidates[j]).phase == JournalPhase::Committed
            && candidates[j].journal_sequence < bound ==> candidates[j].journal_sequence
            <= candidates[i].journal_sequence
}

proof fn lemma_last_committed(candidates: Seq<JournalView>, bound: u64)
    ensures
        match latest_committed(candidates, bound) {
            Some(r) => exists|i: int| #[trigger]
                is_last_committed(candidates, i, bound) && candidates[i] == r,
            None => forall|i: int|
                0 <= i < candidates.len() ==> !((#[trigger] candidates[i]).phase
                    == JournalPhase::Committed && candidates[i].journal_sequence < bound),
        },
    decreases candidates.len(),
{
    if candidates.len() > 0 {
        let rest = candidates.drop_last();
        let n = candidates.len() - 1;
        lemma_last_committed(rest, bound);
        assert forall|i: int| 0 <= i < n implies #[trigger] candidates[i] == rest[i] by {}
        match latest_committed(candidates, bound) {
            Some(r) => {
                if latest_committed(rest, bound) == Some(r) && !(candidates[n].phase
                    == JournalPhase::Committed && candidates[n].journal_sequence < bound && (
                latest_committed(rest, bound)->0.journal_sequence
                    <= candidates[n].journal_sequence)) {
                    let i = choose|i: int| #[trigger]
                        is_last_committed(rest, i, bound) && rest[i] == r;
                    assert(is_last_committed(candidates, i, bound) && candidates[i] == r);
                } else {
                    if latest_committed(rest, bound) is Some {
                        let i = choose|i: int| #[trigger]
                            is_last_committed(rest, i, bound) && rest[i] == latest_committed(
                                rest,
                                bound,
                            )->0;
                        assert(rest[i].journal_sequence <= candidates[n].journal_sequence);
                    }
                    assert(is_last_committed(candidates, n, bound) && candidates[n] == r);
                }
            },
            None => {},
        }
    }
}

/// A record is in its place exactly where a first publication follows no committed
/// record, and any other names the generation and the digests of the last record
/// that was committed before it.
pub proof fn law_record_is_in_its_place_iff(record: JournalView, candidates: Seq<JournalView>)
    requires
        !is_ambiguous(candidates),
    ensures
        chain_error(record, candidates) is None <==> match record.previous_generation {
            None => forall|i: int|
                0 <= i < candidates.len() ==> !((#[trigger] candidates[i]).phase
                    == JournalPhase::Committed && candidates[i].journal_sequence
                    < record.journal_sequence),
            Some(previous) => exists|i: int| #[trigger]
                is_last_committed(candidates, i, record.journal_sequence)
                    && candidates[i].generation == previous && record.previous_gallery_sha256
                    == Some(candidates[i].gallery_sha256) && record.previous_state_sha256 == Some(
                    candidates[i].state_sha256,
                ),
        },
{
    let bound = record.journal_sequence;
    lemma_last_committed(candidates, bound);
    if latest_committed(candidates, bound) is Some {
        let r = latest_committed(candidates, bound)->0;
        let i = choose|i: int| #[trigger]
            is_last_committed(candidates, i, bound) && candidates[i] == r;
        assert forall|k: int| #[trigger] is_last_committed(candidates, k, bound) implies candidates[k]
            == r by {
            assert(candidates[k].journal_sequence == candidates[i].journal_sequence);
            if k < i {
                assert(candidates[k] == candidates[i]);
            } else if i < k {
                assert(candidates[i] == candidates[k]);
            }
        }
    } else if exists|k: int| #[trigger] is_last_committed(candidates, k, bound) {
        let k = choose|k: int| #[trigger] is_last_committed(candidates, k, bound);
        assert(candidates[k].phase == JournalPhase::Committed);
    }
}

// ---------------------------------------------------------------------------
// Decisions
// ---------------------------------------------------------------------------
/// Whether both active files have the digests of a record.
pub open spec fn is_installed(record: JournalView, output: OutputView) -> bool {
    output.named_gallery is Some && hex_sha256(output.named_gallery->0) == record.gallery_sha256
        && output.named_state is Some && hex_sha256(output.named_state->0) == record.state_sha256
}

/// A committed record is kept exactly where it is in its place, both active files
/// have its digests and its gallery can be shown. Nothing is done then, and in every
/// other case recovery is refused.
pub proof fn law_committed_record_is_kept_iff(
    record: JournalView,
    candidates: Seq<JournalView>,
    output: OutputView,
    fault: Option<FaultPoint>,
)
    requires
        record.phase == JournalPhase::Committed,
    ensures
        recovery_plan(record, candidates, output, fault) is Ok <==> chain_error(
            record,
            candidates,
        ) is None && is_installed(record, output) && can_be_shown(
            output.named_gallery->0,
            output.conforms,
            output.assets,
        ),
        recovery_plan(record, candidates, output, fault) matches Ok(plan) ==> plan.record == record
            && plan.steps.len() == 0,
{
    if output.named_gallery is Some {
        law_accepted_document_can_be_shown(
            output.named_gallery->0,
            output.conforms,
            output.assets,
        );
    }
}

/// A record that was rolled back is kept exactly where it is in its place and the
/// active pair is the one before it, with its backup, or none where there was none.
pub proof fn law_rolled_back_record_is_kept_iff(
    record: JournalView,
    candidates: Seq<JournalView>,
    output: OutputView,
    fault: Option<FaultPoint>,
)
    requires
        journal_error(record) is None,
        record.phase == JournalPhase::RolledBack,
    ensures
        recovery_plan(record, candidates, output, fault) is Ok <==> chain_error(
            record,
            candidates,
        ) is None && match (record.previous_gallery_sha256, record.previous_state_sha256) {
            (Some(g), Some(s)) => output.gallery is Some && hex_sha256(output.gallery->0) == g
                && output.state is Some && hex_sha256(output.state->0) == s && backup_error(
                output.backup,
                record,
            ) is None,
            _ => output.gallery is None && output.state is None,
        },
        recovery_plan(record, candidates, output, fault) matches Ok(plan) ==> plan.record == record
            && plan.steps.len() == 0,
{
}

/// Whether a step replaces an active file.
pub open spec fn replaces_a_file(step: StepView) -> bool {
    step is InstallGallery || step is InstallState || step is RestoreGallery || step is RestoreState
}

/// A publication whose pair is installed, or, for a first one that is only prepared,
/// whose gallery is installed and whose state is missing, is completed, where the
/// staged pair and the backup prove it. Every other one is rolled back. The record that
/// recovery ends with is that of the same publication, later in the journal, and it is
/// the last thing that is written.
pub proof fn law_interrupted_record_is_settled(
    record: JournalView,
    candidates: Seq<JournalView>,
    output: OutputView,
    plan: PlanView,
)
    requires
        record.phase != JournalPhase::Committed,
        record.phase != JournalPhase::RolledBack,
        leaves_room(record),
        recovery_plan(record, candidates, output, None) == Ok::<PlanView, RecoveryError>(plan),
    ensures
        ({
            let completed = if record.phase == JournalPhase::Prepared {
                record.previous_generation is None && output.named_state is None
                    && output.named_gallery is Some && hex_sha256(output.named_gallery->0)
                    == record.gallery_sha256
            } else {
                is_installed(record, output)
            };
            &&& plan.record.phase == if completed {
                JournalPhase::Committed
            } else {
                JournalPhase::RolledBack
            }
            &&& completed ==> staging_error(output.staging, record) is None && (
            record.previous_generation is Some ==> backup_error(output.backup, record) is None)
            &&& completed && record.phase != JournalPhase::Prepared ==> (forall|i: int|
                0 <= i < plan.steps.len() ==> !replaces_a_file(#[trigger] plan.steps[i]))
            &&& completed && record.phase == JournalPhase::Prepared ==> plan.steps.len() > 0
                && plan.steps[0] == StepView::InstallState(record.state_sha256)
            &&& !completed && record.previous_generation is Some ==> plan.steps.len() >= 2
                && record.previous_gallery_sha256 is Some && plan.steps[0]
                == StepView::RestoreGallery(record.previous_gallery_sha256->0)
                && record.previous_state_sha256 is Some && plan.steps[1] == StepView::RestoreState(
                record.previous_state_sha256->0,
            ) && backup_error(output.backup, record) is None
            &&& !completed && record.previous_generation is None ==> (forall|i: int|
                0 <= i < plan.steps.len() ==> !replaces_a_file(#[trigger] plan.steps[i]))
            &&& plan.steps.len() > 0 && plan.steps.last() == StepView::WriteJournal(plan.record)
            &&& plan.record.generation == record.generation
            &&& plan.record.gallery_sha256 == record.gallery_sha256
            &&& plan.record.state_sha256 == record.state_sha256
            &&& plan.record.previous_generation == record.previous_generation
            &&& plan.record.previous_gallery_sha256 == record.previous_gallery_sha256
            &&& plan.record.previous_state_sha256 == record.previous_state_sha256
            &&& plan.record.journal_sequence > record.journal_sequence
        }),
{
}

/// A first publication is rolled back only where it left no active file.
pub proof fn law_first_publication_is_abandoned_only_without_files(
    record: JournalView,
    candidates: Seq<JournalView>,
    output: OutputView,
    plan: PlanView,
)
    requires
        record.phase != JournalPhase::Committed,
        record.phase != JournalPhase::RolledBack,
        record.previous_generation is None,
        output.named_gallery == output.gallery,
        output.named_state == output.state,
        recovery_plan(record, candidates, output, None) == Ok::<PlanView, RecoveryError>(plan),
        plan.record.phase == JournalPhase::RolledBack,
    ensures
        output.gallery is None,
        output.state is None,
{
}

proof fn lemma_usable(found: Seq<JournalView>, v: JournalView)
    ensures
        usable_records(found).contains(v) <==> found.contains(v) && journal_error(v) is None,
{
    lemma_filter_keeps(found, |v: JournalView| journal_error(v) is None, v);
}

/// Without a valid record there is nothing to recover where no active file is there,
/// and active files are not trusted.
pub proof fn law_nothing_is_recovered_without_a_record(
    found: Seq<JournalView>,
    output: OutputView,
    fault: Option<FaultPoint>,
)
    requires
        forall|i: int| 0 <= i < found.len() ==> journal_error(#[trigger] found[i]) is Some,
    ensures
        publication_recovery(found, output, fault) == if output.gallery is None && output.state
            is None {
            Ok::<Option<PlanView>, RecoveryError>(None)
        } else if output.gallery is Some && output.state is Some {
            Err(RecoveryError::UntrustedActiveFiles)
        } else {
            Err(RecoveryError::IncompleteInitial)
        },
{
    let records = usable_records(found);
    if records.len() > 0 {
        assert(records.contains(records[0]));
        lemma_usable(found, records[0]);
        let i = choose|i: int| 0 <= i < found.len() && found[i] == records[0];
        assert(journal_error(found[i]) is Some);
    }
}

/// What recovery does is decided of a valid record that was found, such that no valid
/// record that was found has a higher number.
pub proof fn law_recovery_follows_the_newest_record(
    found: Seq<JournalView>,
    output: OutputView,
    fault: Option<FaultPoint>,
    plan: PlanView,
)
    requires
        publication_recovery(found, output, fault) == Ok::<Option<PlanView>, RecoveryError>(
            Some(plan),
        ),
    ensures
        exists|i: int|
            0 <= i < found.len() && journal_error(#[trigger] found[i]) is None && recovery_plan(
                found[i],
                usable_records(found),
                output,
                fault,
            ) == Ok::<PlanView, RecoveryError>(plan) && (forall|j: int|
                0 <= j < found.len() && journal_error(#[trigger] found[j]) is None
                    ==> found[j].journal_sequence <= found[i].journal_sequence),
{
    let records = usable_records(found);
    let newest = newest_record(records);
    law_newest_record_is_unique(records, newest);
    lemma_usable(found, newest);
    let i = choose|i: int| 0 <= i < found.len() && found[i] == newest;
    assert forall|j: int|
        0 <= j < found.len() && journal_error(#[trigger] found[j]) is None implies
        found[j].journal_sequence <= found[i].journal_sequence by {
        assert(found.contains(found[j]));
        lemma_usable(found, found[j]);
        let k = choose|k: int| 0 <= k < records.len() && records[k] == found[j];
        assert(records[k].journal_sequence <= newest.journal_sequence);
    }
    assert(journal_error(found[i]) is None);
}

/// Two different valid records with the same number are not told apart: recovery is
/// refused.
pub proof fn law_ambiguous_records_are_refused(
    found: Seq<JournalView>,
    output: OutputView,
    fault: Option<FaultPoint>,
    i: int,
    j: int,
)
    requires
        0 <= i < found.len(),
        0 <= j < found.len(),
        journal_error(found[i]) is None,
        journal_error(found[j]) is None,
        found[i].journal_sequence == found[j].journal_sequence,
        found[i] != found[j],
    ensures
        publication_recovery(found, output, fault) == Err::<Option<PlanView>, RecoveryError>(
            RecoveryError::AmbiguousSequence,
        ),
{
    let records = usable_records(found);
    assert(found.contains(found[i]) && found.contains(found[j]));
    lemma_usable(found, found[i]);
    lemma_usable(found, found[j]);
    let a = choose|a: int| 0 <= a < records.len() && records[a] == found[i];
    let b = choose|b: int| 0 <= b < records.len() && records[b] == found[j];
    if a < b {
        assert(records[a].journal_sequence == records[b].journal_sequence);
    } else {
        assert(records[b].journal_sequence == records[a].journal_sequence);
    }
    assert(is_ambiguous(records));
}

proof fn lemma_filter_keeps(s: Seq<JournalView>, p: spec_fn(JournalView) -> bool, v: JournalView)
    ensures
        s.filter(p).contains(v) <==> s.contains(v) && p(v),
    decreases s.len(),
{
    reveal(Seq::filter);
    if s.len() > 0 {
        let rest = s.drop_last();
        lemma_filter_keeps(rest, p, v);
        let kept = rest.filter(p);
        if s.contains(v) {
            let i = choose|i: int| 0 <= i < s.len() && s[i] == v;
            if i < rest.len() {
                assert(rest[i] == v);
            }
        }
        if rest.contains(v) {
            let i = choose|i: int| 0 <= i < rest.len() && rest[i] == v;
            assert(s[i] == v);
        }
        assert(s[s.len() - 1] == s.last());
        if p(s.last()) {
            let more = kept.push(s.last());
            assert(s.filter(p) == more);
            if kept.contains(v) {
                let i = choose|i: int| 0 <= i < kept.len() && kept[i] == v;
                assert(more[i] == v);
            }
            assert(more[kept.len() as int] == s.last());
            if more.contains(v) && v != s.last() {
                let i = choose|i: int| 0 <= i < more.len() && more[i] == v;
                assert(kept[i] == v);
            }
        }
    }
}

/// Whether an interrupted publication is to be completed: the new pair is installed
/// or, for a first publication that is only prepared, the new gallery is there and no
/// state is.
pub open spec fn is_to_be_completed(record: JournalView, output: OutputView) -> bool {
    if record.phase == JournalPhase::Prepared {
        &&& record.previous_generation is None
        &&& output.named_state is None
        &&& output.named_gallery matches Some(gallery)
        &&& hex_sha256(gallery) == record.gallery_sha256
    } else {
        is_installed(record, output)
    }
}

/// An interrupted publication is recovered exactly where its record is in its place
/// and the evidence is whole: to complete it the staged pair and the backup of the
/// replaced one, to roll it back that backup or, for a first publication, no active
/// file.
pub proof fn law_interrupted_record_is_recovered_iff(
    record: JournalView,
    candidates: Seq<JournalView>,
    output: OutputView,
    fault: Option<FaultPoint>,
)
    requires
        record.phase != JournalPhase::Committed,
        record.phase != JournalPhase::RolledBack,
        output.named_gallery == output.gallery,
        output.named_state == output.state,
    ensures
        recovery_plan(record, candidates, output, fault) is Ok <==> {
            &&& chain_error(record, candidates) is None
            &&& if is_to_be_completed(record, output) {
                &&& staging_error(output.staging, record) is None
                &&& record.previous_generation is Some ==> backup_error(
                    output.backup,
                    record,
                ) is None
            } else if record.previous_generation is Some {
                backup_error(output.backup, record) is None
            } else {
                output.gallery is None && output.state is None
            }
        },
{
}

/// Whether a step writes a record of the publication of another one, so many numbers
/// later and in a phase.
pub open spec fn writes_later(
    step: StepView,
    record: JournalView,
    later: int,
    phase: JournalPhase,
) -> bool {
    &&& step matches StepView::WriteJournal(next)
    &&& next.journal_sequence == record.journal_sequence + later
    &&& next.phase == phase
    &&& next.generation == record.generation
    &&& next.gallery_sha256 == record.gallery_sha256
    &&& next.state_sha256 == record.state_sha256
    &&& next.previous_generation == record.previous_generation
}

/// An interrupted publication is completed by installing the state where it is missing
/// and recording every phase that is left, and rolled back by restoring the gallery,
/// then the state, and recording that. A fault between the two restorations comes after
/// the first, and nothing is recorded.
pub proof fn law_steps_of_a_recovery(
    record: JournalView,
    candidates: Seq<JournalView>,
    output: OutputView,
    fault: Option<FaultPoint>,
)
    requires
        record.phase != JournalPhase::Committed,
        record.phase != JournalPhase::RolledBack,
        leaves_room(record),
        recovery_plan(record, candidates, output, fault) is Ok,
    ensures
        ({
            let plan = recovery_plan(record, candidates, output, fault)->Ok_0;
            let steps = plan.steps;
            let installed = JournalPhase::StateInstalled;
            let between = fault == Some(FaultPoint::AfterRestoreGallery) || fault == Some(
                FaultPoint::BeforeRestoreState,
            );
            if is_to_be_completed(record, output) {
                if record.phase == JournalPhase::Prepared {
                    &&& steps.len() == 3
                    &&& steps[0] == StepView::InstallState(record.state_sha256)
                    &&& writes_later(steps[1], record, 1, installed)
                    &&& writes_later(steps[2], record, 2, JournalPhase::Committed)
                    &&& steps[2] == StepView::WriteJournal(plan.record)
                } else if record.phase == installed {
                    &&& steps.len() == 1
                    &&& writes_later(steps[0], record, 1, JournalPhase::Committed)
                    &&& steps[0] == StepView::WriteJournal(plan.record)
                } else {
                    &&& steps.len() == 2
                    &&& writes_later(steps[0], record, 1, installed)
                    &&& writes_later(steps[1], record, 2, JournalPhase::Committed)
                    &&& steps[1] == StepView::WriteJournal(plan.record)
                }
            } else if record.previous_generation is None {
                &&& steps.len() == 1
                &&& writes_later(steps[0], record, 1, JournalPhase::RolledBack)
                &&& steps[0] == StepView::WriteJournal(plan.record)
            } else if between {
                &&& steps.len() == 2
                &&& steps[0] == StepView::RestoreGallery(record.previous_gallery_sha256->0)
                &&& steps[1] == StepView::Fault(fault->0)
                &&& plan.record == record
            } else {
                &&& steps.len() == 3
                &&& steps[0] == StepView::RestoreGallery(record.previous_gallery_sha256->0)
                &&& steps[1] == StepView::RestoreState(record.previous_state_sha256->0)
                &&& writes_later(steps[2], record, 1, JournalPhase::RolledBack)
                &&& steps[2] == StepView::WriteJournal(plan.record)
            }
        }),
{
}

/// What the evidence of a record is refused for is wrong with it.
pub proof fn law_recovery_error_has_its_cause(
    record: JournalView,
    candidates: Seq<JournalView>,
    staging: StagingView,
    backup: BackupView,
)
    ensures
        ({
            let last = latest_committed(candidates, record.journal_sequence);
            match chain_error(record, candidates) {
                None => true,
                Some(RecoveryError::OrphanedCandidate) => record.previous_generation is None
                    && last is Some,
                Some(RecoveryError::NoCommittedEvidence) => record.previous_generation is Some
                    && last is None,
                Some(RecoveryError::NotLatestPredecessor) => last is Some
                    && record.previous_generation is Some && last->0.generation
                    != record.previous_generation->0,
                Some(RecoveryError::MissingPreviousGalleryHash) =>
                    record.previous_gallery_sha256 is None,
                Some(RecoveryError::MissingPreviousStateHash) =>
                    record.previous_state_sha256 is None,
                Some(RecoveryError::InconsistentPreviousHashes) => last is Some && (Some(
                    last->0.gallery_sha256,
                ) != record.previous_gallery_sha256 || Some(last->0.state_sha256)
                    != record.previous_state_sha256),
                Some(_) => false,
            }
        }),
        match staging_error(staging, record) {
            None => true,
            Some(RecoveryError::StagingMissing) => !staging.directory,
            Some(RecoveryError::StagingIncomplete) => staging.gallery is None
                || staging.state is None || staging.record is Absent,
            Some(RecoveryError::GalleryNotJson) => staging.gallery is Some && json_document(
                staging.gallery->0,
            ) is None,
            Some(RecoveryError::GalleryNotConforming) => !staging.conforms,
            Some(RecoveryError::Assets(e)) => staging.gallery is Some && gallery_assets_error(
                json_document(staging.gallery->0)->0,
                staging.assets,
            ) == Some(e),
            Some(RecoveryError::StagedStateInvalid) => !staging.state_readable,
            Some(RecoveryError::StagedRecordInvalid) => match staging.record {
                ArtifactFileView::Read(a) => !artifact_valid(a),
                _ => true,
            },
            Some(RecoveryError::StagingInconsistent) => {
                &&& staging.record matches ArtifactFileView::Read(a)
                &&& {
                    ||| a.generation != record.generation
                    ||| a.gallery_sha256 != record.gallery_sha256
                    ||| a.state_sha256 != record.state_sha256
                    ||| a.gallery_sha256 != hex_sha256(staging.gallery->0)
                    ||| a.state_sha256 != hex_sha256(staging.state->0)
                }
            },
            Some(_) => false,
        },
        match backup_error(backup, record) {
            None => true,
            Some(RecoveryError::BackupUnreadable) => !(backup.record is Read),
            Some(RecoveryError::BackupInvalid) => backup.record is Read,
            Some(RecoveryError::BackupGalleryMismatch) => backup.gallery matches Some(bytes)
                ==> Some(hex_sha256(bytes)) != record.previous_gallery_sha256,
            Some(RecoveryError::BackupStateMismatch) => backup.state matches Some(bytes) ==> Some(
                hex_sha256(bytes),
            ) != record.previous_state_sha256,
            Some(RecoveryError::IncompleteEvidence) => !(record.previous_generation is Some
                && record.previous_gallery_sha256 is Some && record.previous_state_sha256 is Some)
                && !(record.previous_generation is None && record.previous_gallery_sha256 is None
                && record.previous_state_sha256 is None),
            Some(_) => false,
        },
{
}

} // verus!
