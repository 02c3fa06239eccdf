//! What a local publication is recorded as, which steps it takes in which order, and
//! when a step has done its work.

use crate::crash::law_unfaulted_script;
use crate::digest::{hex_sha256, hex_text};
use crate::gallery::{nested, ProcessedDimensions, SourcePhoto};
use crate::generations::{law_first_generation, law_next_generation_advances};
use crate::journal::{
    artifact_json, artifact_of, in_phase, is_generation_text, journal_json, ArtifactView,
    JournalPhase, JournalView,
};
use crate::json::{field, json_document, json_encoding, JsonView};
use crate::laws::addresses::spells;
use crate::laws::gallery::law_created_gallery_is_titled;
use crate::laws::texts::spelled;
use crate::preview::{preview_due, PreviewPlan};
use crate::publish::{
    built, digits_value, generation_number, installing_record, known_dimensions, prepared_record,
    processed_for, publication_due, publication_steps, BuiltPublication,
};
use crate::steps::{step_error, steps_view, FaultPoint, StepError, StepView};
use crate::text::{ascii_lowercase, has_prefix, is_digit};
use vstd::prelude::*;

verus! {

/// The next record of a publication has the next number and the given phase, says the
/// same of the publication, and carries the digest of its content.
pub proof fn law_next_phase_keeps_the_publication(v: JournalView, phase: JournalPhase)
    requires
        v.journal_sequence < u64::MAX,
    ensures
        ({
            let next = in_phase(v, phase);
            &&& next.journal_sequence == v.journal_sequence + 1
            &&& next.phase == phase
            &&& next.schema_version == v.schema_version
            &&& next.generation == v.generation
            &&& next.previous_generation == v.previous_generation
            &&& next.gallery_sha256 == v.gallery_sha256
            &&& next.state_sha256 == v.state_sha256
            &&& next.gallery_path == v.gallery_path
            &&& next.state_path == v.state_path
            &&& next.staging_directory == v.staging_directory
            &&& next.backup_directory == v.backup_directory
            &&& next.previous_gallery_sha256 == v.previous_gallery_sha256
            &&& next.previous_state_sha256 == v.previous_state_sha256
            &&& next.record_sha256 == hex_sha256(json_encoding(journal_json(next)))
        }),
{
    let next = in_phase(v, phase);
    assert(journal_json(next) == journal_json(
        JournalView { record_sha256: v.record_sha256, ..next },
    ));
}

/// The generation that stands after a record: its own or, where it was rolled back, the
/// one before.
pub open spec fn standing(record: JournalView) -> Option<Seq<char>> {
    if record.phase == JournalPhase::RolledBack {
        record.previous_generation
    } else {
        Some(record.generation)
    }
}

/// A publication starts with a record that is prepared and has the next number, the
/// next generation and the digests of the new pair. It names the generation that
/// stands and the digests of the active pair, and stages and backs up below the
/// publisher's directory.
pub proof fn law_prepared_record_says_what_is_published(
    left: Option<JournalView>,
    gallery_sha256: Seq<char>,
    state_sha256: Seq<char>,
    gallery: Option<Seq<u8>>,
    state: Option<Seq<u8>>,
)
    requires
        left matches Some(record) ==> record.journal_sequence < u64::MAX && is_generation_text(
            record.generation,
        ) && generation_number(record.generation) < 999999,
    ensures
        ({
            let v = prepared_record(left, gallery_sha256, state_sha256, gallery, state);
            &&& v.schema_version == 1
            &&& v.phase == JournalPhase::Prepared
            &&& v.gallery_sha256 == gallery_sha256
            &&& v.state_sha256 == state_sha256
            &&& v.gallery_path == "gallery.json"@
            &&& v.state_path == ".publisher/state.json"@
            &&& v.staging_directory == ".publisher/staging/"@ + v.generation
            &&& is_generation_text(v.generation)
            &&& match left {
                Some(record) => {
                    &&& v.journal_sequence == record.journal_sequence + 1
                    &&& generation_number(v.generation) == generation_number(record.generation) + 1
                    &&& v.previous_generation == standing(record)
                },
                None => {
                    &&& v.journal_sequence == 1
                    &&& generation_number(v.generation) == 1
                    &&& v.previous_generation is None
                },
            }
            &&& v.backup_directory == ".publisher/backups/"@ + match v.previous_generation {
                Some(generation) => generation,
                None => "none"@,
            }
            &&& v.previous_gallery_sha256 == match gallery {
                Some(bytes) => Some(hex_sha256(bytes)),
                None => None,
            }
            &&& v.previous_state_sha256 == match state {
                Some(bytes) => Some(hex_sha256(bytes)),
                None => None,
            }
            &&& v.record_sha256 == hex_sha256(json_encoding(journal_json(v)))
        }),
{
    let v = prepared_record(left, gallery_sha256, state_sha256, gallery, state);
    match left {
        Some(record) => law_next_generation_advances(record),
        None => law_first_generation(),
    }
    assert(journal_json(v) == journal_json(JournalView { record_sha256: Seq::empty(), ..v }));
}

/// A name that does not start with `g-`, or goes on with something other than decimal
/// digits, has the number zero.
pub proof fn law_other_names_have_no_number(name: Seq<char>)
    ensures
        name.len() < 3 || name[0] != 'g' || name[1] != '-' ==> generation_number(name) == 0,
        name.len() > 2 && !('0' <= name[2] && name[2] <= '9') && name[2] != '+'
            ==> generation_number(name) == 0,
        (exists|i: int| 3 <= i < name.len() && !('0' <= #[trigger] name[i] && name[i] <= '9'))
            ==> generation_number(name) == 0,
{
    reveal_strlit("g-");
    let rest = name.skip(2);
    if has_prefix(name, "g-"@) {
        assert(name.subrange(0, 2)[0] == name[0]);
        assert(name.subrange(0, 2)[1] == name[1]);
        if name.len() > 2 {
            assert(rest[0] == name[2]);
        }
        if exists|i: int| 3 <= i < name.len() && !('0' <= #[trigger] name[i] && name[i] <= '9') {
            let i = choose|i: int|
                3 <= i < name.len() && !('0' <= #[trigger] name[i] && name[i] <= '9');
            assert(rest[i - 2] == name[i]);
            assert(rest.drop_first()[i - 3] == name[i]);
            assert(!is_digit(rest[i - 2]));
            assert(!is_digit(rest.drop_first()[i - 3]));
        }
    }
}

/// Something is published exactly where a photo has changed or no gallery is there yet.
pub proof fn law_publication_is_due_iff(changes: nat, gallery_exists: bool)
    ensures
        !publication_due(changes, gallery_exists) <==> changes == 0 && gallery_exists,
{
}

/// Whether a step is the writing of a record in a phase.
pub open spec fn records(step: StepView, phase: JournalPhase) -> bool {
    step matches StepView::WriteJournal(record) && record.phase == phase
}

/// A publication begins with writing the prepared record; the generation that it
/// replaces is backed up next, which is recorded, and else nothing comes between. The
/// gallery is then replaced, which is recorded, then the state, which is recorded; both
/// are checked, the commit is recorded, and the staging directory is removed.
pub proof fn law_steps_of_a_publication(prepared: JournalView)
    requires
        prepared.phase == JournalPhase::Prepared,
    ensures
        ({
            let steps = publication_steps(prepared, None);
            let k: int = if prepared.previous_generation is Some {
                3
            } else {
                1
            };
            &&& steps.len() == k + 7
            &&& steps[0] == StepView::WriteJournal(prepared)
            &&& prepared.previous_generation matches Some(generation) ==> steps[1]
                == StepView::CreateBackup(generation) && records(
                steps[2],
                JournalPhase::BackupCreated,
            )
            &&& steps[k] == StepView::InstallGallery(prepared.gallery_sha256)
            &&& records(steps[k + 1], JournalPhase::GalleryInstalled)
            &&& steps[k + 2] == StepView::InstallState(prepared.state_sha256)
            &&& records(steps[k + 3], JournalPhase::StateInstalled)
            &&& steps[k + 4] == StepView::VerifyActive(
                prepared.gallery_sha256,
                prepared.state_sha256,
            )
            &&& records(steps[k + 5], JournalPhase::Committed)
            &&& steps[k + 6] is CleanStaging
        }),
{
    law_unfaulted_script(installing_record(prepared));
}

/// Every record that a publication writes is of the prepared publication, and each has
/// the number after that of the one before.
pub proof fn law_records_of_a_publication(prepared: JournalView, i: int)
    requires
        prepared.journal_sequence < u64::MAX - 4,
        0 <= i < publication_steps(prepared, None).len(),
        publication_steps(prepared, None)[i] is WriteJournal,
    ensures
        ({
            let record = publication_steps(prepared, None)[i]->WriteJournal_0;
            let base = prepared.journal_sequence;
            let kept: int = if prepared.previous_generation is Some {
                1
            } else {
                0
            };
            &&& record.generation == prepared.generation
            &&& record.previous_generation == prepared.previous_generation
            &&& record.gallery_sha256 == prepared.gallery_sha256
            &&& record.state_sha256 == prepared.state_sha256
            &&& record.staging_directory == prepared.staging_directory
            &&& record.backup_directory == prepared.backup_directory
            &&& record.previous_gallery_sha256 == prepared.previous_gallery_sha256
            &&& record.previous_state_sha256 == prepared.previous_state_sha256
            &&& i == 0 ==> record == prepared
            &&& i > 0 ==> record.journal_sequence == base + match record.phase {
                JournalPhase::BackupCreated => 1,
                JournalPhase::GalleryInstalled => kept + 1,
                JournalPhase::StateInstalled => kept + 2,
                _ => kept + 3,
            }
        }),
{
    law_unfaulted_script(installing_record(prepared));
}

/// A step that replaces a file has done its work exactly where the file is there and
/// has the digest of the step; the check of both files needs both. A point of failure
/// always fails, and every other step needs no check.
pub proof fn law_step_is_done_iff(
    step: StepView,
    gallery: Option<Seq<u8>>,
    state: Option<Seq<u8>>,
)
    ensures
        step_error(step, gallery, state) is None <==> {
            let gallery_is = |hash: Seq<char>|
                gallery matches Some(bytes) && hex_sha256(bytes) == hash;
            let state_is = |hash: Seq<char>| state matches Some(bytes) && hex_sha256(bytes) == hash;
            match step {
                StepView::InstallGallery(hash) => gallery_is(hash),
                StepView::RestoreGallery(hash) => gallery_is(hash),
                StepView::InstallState(hash) => state_is(hash),
                StepView::RestoreState(hash) => state_is(hash),
                StepView::VerifyActive(a, b) => gallery_is(a) && state_is(b),
                StepView::Fault(_) => false,
                StepView::WriteJournal(_) => true,
                StepView::CreateBackup(_) => true,
                StepView::CleanStaging => true,
            }
        },
        match step_error(step, gallery, state) {
            None => true,
            Some(StepError::InstalledGalleryMismatch) => step is InstallGallery,
            Some(StepError::InstalledStateMismatch) => step is InstallState,
            Some(StepError::RestoredGalleryMismatch) => step is RestoreGallery,
            Some(StepError::RestoredStateMismatch) => step is RestoreState,
            Some(StepError::FinalHashesMismatch) => step is VerifyActive,
            Some(StepError::InjectedFault) => step is Fault,
        },
{
}

/// The dimensions of a photo are those that were processed last for its path, where
/// no earlier photo has that path; of any other photo none are known.
pub proof fn law_known_dimensions(
    current: Seq<SourcePhoto>,
    processed: Seq<(String, ProcessedDimensions)>,
    i: int,
)
    requires
        0 <= i < current.len(),
    ensures
        ({
            let path = current[i].relative_path@;
            let first = forall|j: int|
                0 <= j < i ==> (#[trigger] current[j]).relative_path@ != path;
            match known_dimensions(current, processed, i) {
                Some(dimensions) => first && exists|k: int|
                    0 <= k < processed.len() && (#[trigger] processed[k]).0@ == path
                        && processed[k].1 == dimensions && forall|l: int|
                        k < l < processed.len() ==> (#[trigger] processed[l]).0@ != path,
                None => !first || forall|k: int|
                    0 <= k < processed.len() ==> (#[trigger] processed[k]).0@ != path,
            }
        }),
{
    lemma_processed_last(processed, current[i].relative_path@);
}

proof fn lemma_processed_last(processed: Seq<(String, ProcessedDimensions)>, path: Seq<char>)
    ensures
        match processed_for(processed, path) {
            Some(dimensions) => exists|k: int|
                0 <= k < processed.len() && (#[trigger] processed[k]).0@ == path && processed[k].1
                    == dimensions && forall|l: int|
                    k < l < processed.len() ==> (#[trigger] processed[l]).0@ != path,
            None => forall|k: int|
                0 <= k < processed.len() ==> (#[trigger] processed[k]).0@ != path,
        },
    decreases processed.len(),
{
    if processed.len() > 0 {
        let n = processed.len() - 1;
        let rest = processed.drop_last();
        lemma_processed_last(rest, path);
        if processed[n].0@ == path {
            assert(processed[n].1 == processed_for(processed, path)->0);
        } else {
            match processed_for(rest, path) {
                Some(dimensions) => {
                    let k = choose|k: int|
                        0 <= k < rest.len() && (#[trigger] rest[k]).0@ == path && rest[k].1
                            == dimensions && forall|l: int|
                            k < l < rest.len() ==> (#[trigger] rest[l]).0@ != path;
                    assert(processed[k] == rest[k]);
                    assert forall|l: int| k < l < processed.len() implies (
                    #[trigger] processed[l]).0@ != path by {
                        if l < n {
                            assert(rest[l] == processed[l]);
                        }
                    }
                },
                None => {
                    assert forall|k: int| 0 <= k < processed.len() implies (
                    #[trigger] processed[k]).0@ != path by {
                        if k < n {
                            assert(rest[k] == processed[k]);
                        }
                    }
                },
            }
        }
    }
}

/// A preview is kept exactly where it is there, can be read as an image and is named
/// with the extension `jpg`, in capitals or not; it keeps its dimensions.
pub proof fn law_preview_is_kept_iff(
    exists: bool,
    dimensions: Option<(u32, u32)>,
    extension: Option<Seq<char>>,
)
    ensures
        preview_due(exists, dimensions, extension) == match (dimensions, extension) {
            (Some((width, height)), Some(e)) => if exists && e.len() == 3 && spells(e[0], 'j')
                && spells(e[1], 'p') && spells(e[2], 'g') {
                PreviewPlan::Keep { width, height }
            } else {
                PreviewPlan::Make
            },
            _ => PreviewPlan::Make,
        },
{
    reveal_strlit("jpg");
    if extension is Some {
        let e = extension->0;
        let lower = ascii_lowercase(e);
        if e.len() == 3 {
            assert(lower[0] == 'j' <==> spells(e[0], 'j'));
            assert(lower[1] == 'p' <==> spells(e[1], 'p'));
            assert(lower[2] == 'g' <==> spells(e[2], 'g'));
            if lower[0] == 'j' && lower[1] == 'p' && lower[2] == 'g' {
                assert(lower =~= "jpg"@);
            }
            if lower == "jpg"@ {
                assert(lower[0] == 'j' && lower[1] == 'p' && lower[2] == 'g');
            }
        } else {
            assert(lower.len() == e.len());
            assert("jpg"@.len() == 3);
        }
    }
}

/// Digests in hexadecimal are read back: the two characters of a byte spell its upper
/// and its lower half, in small letters.
pub proof fn law_hexadecimal_spells_the_bytes(bytes: Seq<u8>, i: int)
    requires
        0 <= i < bytes.len(),
    ensures
        ({
            let value = |c: char|
                if c <= '9' {
                    c as int - '0' as int
                } else {
                    c as int - 'a' as int + 10
                };
            let high = hex_text(bytes)[2 * i];
            let low = hex_text(bytes)[2 * i + 1];
            &&& hex_text(bytes).len() == 2 * bytes.len()
            &&& ('0' <= high && high <= '9') || ('a' <= high && high <= 'f')
            &&& ('0' <= low && low <= '9') || ('a' <= low && low <= 'f')
            &&& bytes[i] == 16 * value(high) + value(low)
        }),
{
    assert((2 * i) / 2 == i && (2 * i) % 2 == 0);
    assert((2 * i + 1) / 2 == i && (2 * i + 1) % 2 == 1);
}

/// The record of a pair names its generation and both digests, and carries the digest
/// of its content.
pub proof fn law_artifact_names_its_pair(
    generation: Seq<char>,
    gallery_sha256: Seq<char>,
    state_sha256: Seq<char>,
)
    ensures
        ({
            let v = artifact_of(generation, gallery_sha256, state_sha256);
            &&& v.generation == generation
            &&& v.gallery_sha256 == gallery_sha256
            &&& v.state_sha256 == state_sha256
            &&& v.record_sha256 == hex_sha256(json_encoding(artifact_json(v)))
        }),
{
    let v = artifact_of(generation, gallery_sha256, state_sha256);
    assert(artifact_json(v) == artifact_json(ArtifactView { record_sha256: Seq::empty(), ..v }));
}

/// What is built of photos has the title and one photo for each that was given, as a
/// document from which it is read back. Its record and its commit name the same
/// generation, the digest of that document and that of the state, and the commit names
/// what was active before.
pub proof fn law_built_is_what_was_given(
    b: BuiltPublication,
    title: Seq<char>,
    photos: Seq<(SourcePhoto, ProcessedDimensions)>,
    state_document: Seq<u8>,
    left: Option<JournalView>,
    gallery: Option<Seq<u8>>,
    state: Option<Seq<u8>>,
    fault: Option<FaultPoint>,
)
    requires
        built(b, title, photos, state_document, left, gallery, state, fault),
    ensures
        nested(b.gallery@, "gallery"@, "title"@) == Some(JsonView::Text(title)),
        field(b.gallery@, "photos"@) matches Some(JsonView::Array(items)) && items.len()
            == photos.len(),
        json_document(b.gallery_document@) == Some(b.gallery@),
        b.artifact@.generation == b.generation@,
        b.artifact@.gallery_sha256 == hex_sha256(b.gallery_document@),
        b.artifact@.state_sha256 == hex_sha256(state_document),
        b.plan.record@.phase == JournalPhase::Committed,
        b.plan.record@.generation == b.generation@,
        b.plan.record@.gallery_sha256 == hex_sha256(b.gallery_document@),
        b.plan.record@.state_sha256 == hex_sha256(state_document),
        b.plan.record@.previous_generation == match left {
            Some(record) => standing(record),
            None => None,
        },
        gallery matches Some(bytes) ==> b.plan.record@.previous_gallery_sha256 == Some(
            hex_sha256(bytes),
        ),
        state matches Some(bytes) ==> b.plan.record@.previous_state_sha256 == Some(
            hex_sha256(bytes),
        ),
        steps_view(b.plan.steps@).len() > 0,
{
    law_created_gallery_is_titled(title, photos);
    assert(steps_view(b.plan.steps@)[0] is WriteJournal);
}

/// Decimal digits after `g-`, with or without a plus sign before them, have the number
/// that they spell, where it fits sixty-four bits, and else zero.
pub proof fn law_digits_have_their_number(digits: Seq<char>)
    requires
        digits.len() > 0,
        forall|i: int| 0 <= i < digits.len() ==> '0' <= #[trigger] digits[i] && digits[i] <= '9',
    ensures
        generation_number("g-"@ + digits) == if spelled(digits) <= u64::MAX {
            spelled(digits)
        } else {
            0
        },
        generation_number("g-"@ + seq!['+'] + digits) == generation_number("g-"@ + digits),
{
    reveal_strlit("g-");
    let plain = "g-"@ + digits;
    let signed = "g-"@ + seq!['+'] + digits;
    lemma_spelled_value(digits);
    assert(plain.subrange(0, 2) =~= "g-"@);
    assert(signed.subrange(0, 2) =~= "g-"@);
    assert(plain.skip(2) =~= digits);
    assert(signed.skip(2) =~= seq!['+'] + digits);
    assert(signed.skip(2).drop_first() =~= digits);
    assert(digits[0] != '+');
    assert forall|i: int| 0 <= i < digits.len() implies is_digit(#[trigger] digits[i]) by {}
}

proof fn lemma_spelled_value(digits: Seq<char>)
    requires
        forall|i: int| 0 <= i < digits.len() ==> '0' <= #[trigger] digits[i] && digits[i] <= '9',
    ensures
        spelled(digits) == digits_value(digits),
    decreases digits.len(),
{
    if digits.len() > 0 {
        let rest = digits.drop_last();
        assert forall|i: int| 0 <= i < rest.len() implies '0' <= #[trigger] rest[i] && rest[i]
            <= '9' by {
            assert(rest[i] == digits[i]);
        }
        lemma_spelled_value(rest);
        assert('0' <= digits[digits.len() - 1]);
    }
}

} // verus!
