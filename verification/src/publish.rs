//! Building a gallery: the next generation, its journal and the steps that
//! publish it.

use crate::digest::{hex_digest, hex_sha256};
use crate::gallery::{
    create_gallery_json, gallery_json, law_created_gallery_is_plain, nested, ProcessedDimensions,
    SourcePhoto,
};
use crate::generations::{law_generation_name_is_valid, law_generations_run_out};
use crate::inventory::Duplicate;
use crate::journal::{
    artifact_of, file_view, in_phase, padded, padded_text, sealed_record, ArtifactRecord,
    JournalError, JournalPhase, JournalRecord, JournalView, JOURNAL_SCHEMA_VERSION,
};
use crate::json::{encode_pretty, json_document, json_pretty_encoding, Json, JsonView};
use crate::laws::gallery::law_created_gallery_is_titled;
use crate::steps::{
    digest_of, push_step, steps_view, FaultPoint, PublicationPlan, PublicationStep, StepView,
};
use crate::text::{
    chars_of, copy_option, has_prefix, is_digit, joined, option_text, same_text, starts_with,
};
use vstd::prelude::*;

verus! {

// ---------------------------------------------------------------------------
// Generations
// ---------------------------------------------------------------------------
/// The number that decimal digits spell.
pub open spec fn digits_value(s: Seq<char>) -> nat
    decreases s.len(),
{
    if s.len() == 0 {
        0
    } else {
        digits_value(s.drop_last()) * 10 + (s.last() as int - '0' as int) as nat
    }
}

/// Whether every character is a decimal digit.
pub open spec fn all_digits(s: Seq<char>) -> bool {
    forall|i: int| 0 <= i < s.len() ==> is_digit(#[trigger] s[i])
}

/// The number that a text spells in decimal, with an optional plus sign, where
/// it fits sixty-four bits.
pub open spec fn parsed_number(s: Seq<char>) -> Option<u64> {
    let digits = if s.len() > 1 && s[0] == '+' {
        s.drop_first()
    } else {
        s
    };
    if digits.len() > 0 && all_digits(digits) && digits_value(digits) <= u64::MAX {
        Some(digits_value(digits) as u64)
    } else {
        None
    }
}

/// The number of a generation; zero where its name spells none.
pub open spec fn generation_number(generation: Seq<char>) -> u64 {
    if has_prefix(generation, "g-"@) {
        match parsed_number(generation.skip(2)) {
            Some(n) => n,
            None => 0,
        }
    } else {
        0
    }
}

/// The name of a generation by its number.
pub open spec fn generation_name(number: nat) -> Seq<char> {
    "g-"@ + padded_text(number, 6)
}

/// The number of the last generation; zero where there is none.
pub open spec fn last_number(journal: Option<JournalView>) -> u64 {
    match journal {
        Some(record) => generation_number(record.generation),
        None => 0,
    }
}

/// The mathematical form of an optional record.
pub open spec fn record_view(journal: Option<&JournalRecord>) -> Option<JournalView> {
    match journal {
        Some(record) => Some(record@),
        None => None,
    }
}

proof fn lemma_digits_value_prefix(s: Seq<char>, i: int)
    requires
        all_digits(s),
        0 <= i <= s.len(),
    ensures
        digits_value(s.take(i)) <= digits_value(s),
    decreases s.len(),
{
    if i == s.len() {
        assert(s.take(i) =~= s);
    } else {
        lemma_digits_value_prefix(s.drop_last(), i);
        assert(s.drop_last().take(i) =~= s.take(i));
    }
}

fn parse_digits(chars: &Vec<char>, from: usize) -> (r: Option<u64>)
    requires
        from <= chars@.len(),
    ensures
        ({
            let digits = chars@.skip(from as int);
            r == if digits.len() > 0 && all_digits(digits) && digits_value(digits) <= u64::MAX {
                Some(digits_value(digits) as u64)
            } else {
                None
            }
        }),
{
    let ghost digits = chars@.skip(from as int);
    if from == chars.len() {
        return None;
    }
    let mut value: u64 = 0;
    let mut i: usize = from;
    while i < chars.len()
        invariant
            from <= i <= chars@.len(),
            digits == chars@.skip(from as int),
            all_digits(digits.take(i - from)),
            value == digits_value(digits.take(i - from)),
        decreases chars@.len() - i,
    {
        let c: char = chars[i];
        proof {
            assert(digits[i - from] == c);
        }
        if !('0' <= c && c <= '9') {
            return None;
        }
        let d: u64 = (c as u32 - 48) as u64;
        let ghost next = digits.take(i - from + 1);
        proof {
            assert(next.drop_last() =~= digits.take(i - from));
            assert(next.last() == c);
            if all_digits(digits) {
                lemma_digits_value_prefix(digits, i - from + 1);
            }
        }
        if value > (u64::MAX - d) / 10 {
            proof {
                assert(digits_value(next) > u64::MAX);
            }
            return None;
        }
        value = value * 10 + d;
        i = i + 1;
        proof {
            assert forall|j: int| 0 <= j < next.len() implies is_digit(#[trigger] next[j]) by {
                if j < next.len() - 1 {
                    assert(next[j] == digits.take(next.len() - 1)[j]);
                }
            }
        }
    }
    proof {
        assert(digits.take(digits.len() as int) =~= digits);
    }
    Some(value)
}

/// The number of a generation.
pub fn number_of_generation(generation: &str) -> (r: u64)
    ensures
        r == generation_number(generation@),
{
    proof {
        reveal_strlit("g-");
    }
    if !starts_with(generation, "g-") {
        return 0;
    }
    let chars: Vec<char> = chars_of(generation);
    let ghost rest = generation@.skip(2);
    let signed: bool = chars.len() > 3 && chars[2] == '+';
    let parsed: Option<u64> = if signed {
        proof {
            assert(chars@.skip(3) =~= rest.drop_first());
            assert(rest[0] == chars@[2]);
        }
        parse_digits(&chars, 3)
    } else {
        proof {
            assert(chars@.skip(2) =~= rest);
            if rest.len() > 1 {
                assert(rest[0] == chars@[2]);
            }
        }
        parse_digits(&chars, 2)
    };
    match parsed {
        Some(n) => n,
        None => 0,
    }
}

/// The name of the generation after the last one.
pub fn next_generation(journal: Option<&JournalRecord>) -> (r: String)
    requires
        last_number(record_view(journal)) < u64::MAX,
    ensures
        r@ == generation_name((last_number(record_view(journal)) + 1) as nat),
{
    let last: u64 = match journal {
        Some(record) => number_of_generation(record.generation.as_str()),
        None => 0,
    };
    let number: String = padded(last + 1, 6);
    joined("g-", number.as_str())
}

/// The generation that is active after recovery: that of the record, or the one
/// before where the record was rolled back.
pub open spec fn active_generation(journal: Option<JournalView>) -> Option<Seq<char>> {
    match journal {
        Some(record) => if record.phase == JournalPhase::RolledBack {
            record.previous_generation
        } else {
            Some(record.generation)
        },
        None => None,
    }
}

/// The generation that is active after recovery.
pub fn valid_generation(journal: Option<&JournalRecord>) -> (r: Option<String>)
    ensures
        option_text(r) == active_generation(record_view(journal)),
{
    match journal {
        Some(record) => {
            if record.phase == JournalPhase::RolledBack {
                copy_option(&record.previous_generation)
            } else {
                Some(record.generation.clone())
            }
        },
        None => None,
    }
}

/// The digest of a file that exists.
pub fn existing_hash(content: &Option<Vec<u8>>) -> (r: Option<String>)
    ensures
        option_text(r) == digest_of(file_view(*content)),
{
    match content {
        Some(bytes) => Some(hex_digest(bytes.as_slice())),
        None => None,
    }
}

// ---------------------------------------------------------------------------
// The steps of a publication
// ---------------------------------------------------------------------------
/// Everything that happens while a staged generation is published, with every
/// point at which it can be made to fail.
pub open spec fn publish_script(journal: JournalView) -> Seq<StepView> {
    let gallery_installed = in_phase(journal, JournalPhase::GalleryInstalled);
    let state_installed = in_phase(gallery_installed, JournalPhase::StateInstalled);
    let committed = in_phase(state_installed, JournalPhase::Committed);
    seq![
        StepView::Fault(FaultPoint::BeforeGalleryReplacement),
        StepView::InstallGallery(journal.gallery_sha256),
        StepView::Fault(FaultPoint::AfterGalleryReplacement),
        StepView::Fault(FaultPoint::BeforeGalleryJournal),
        StepView::WriteJournal(gallery_installed),
        StepView::Fault(FaultPoint::AfterGalleryJournal),
        StepView::Fault(FaultPoint::BeforeStateReplacement),
        StepView::InstallState(journal.state_sha256),
        StepView::Fault(FaultPoint::AfterStateReplacement),
        StepView::Fault(FaultPoint::BeforeStateJournal),
        StepView::WriteJournal(state_installed),
        StepView::Fault(FaultPoint::AfterStateJournal),
        StepView::Fault(FaultPoint::BeforeCommitted),
        StepView::VerifyActive(journal.gallery_sha256, journal.state_sha256),
        StepView::WriteJournal(committed),
        StepView::Fault(FaultPoint::AfterCommitted),
    ]
}

/// Whether the fault comes up in a script.
pub open spec fn stops(script: Seq<StepView>, fault: Option<FaultPoint>) -> bool {
    fault is Some && script.contains(StepView::Fault(fault->0))
}

/// Whether a fault is one of a publication, not of a restoration.
pub open spec fn is_publication_fault(fault: FaultPoint) -> bool {
    fault != FaultPoint::AfterRestoreGallery && fault != FaultPoint::BeforeRestoreState
}

/// Where a fault stands in the script of a publication.
pub open spec fn place_of(fault: FaultPoint) -> int {
    match fault {
        FaultPoint::BeforeGalleryReplacement => 0,
        FaultPoint::AfterGalleryReplacement => 2,
        FaultPoint::BeforeGalleryJournal => 3,
        FaultPoint::AfterGalleryJournal => 5,
        FaultPoint::BeforeStateReplacement => 6,
        FaultPoint::AfterStateReplacement => 8,
        FaultPoint::BeforeStateJournal => 9,
        FaultPoint::AfterStateJournal => 11,
        FaultPoint::BeforeCommitted => 12,
        _ => 15,
    }
}

/// The faults of a publication stop it, and those of a restoration do not.
pub proof fn lemma_publication_faults(journal: JournalView, fault: FaultPoint)
    ensures
        stops(publish_script(journal), Some(fault)) <==> is_publication_fault(fault),
{
    let script = publish_script(journal);
    assert(script.len() == 16);
    if is_publication_fault(fault) {
        assert(script[place_of(fault)] == StepView::Fault(fault));
    }
}

/// What is left of a script under a fault: the points that do not fail are
/// dropped, and nothing follows the one that does.
pub open spec fn played(script: Seq<StepView>, fault: Option<FaultPoint>) -> Seq<StepView>
    decreases script.len(),
{
    if script.len() == 0 {
        Seq::empty()
    } else {
        let before = played(script.drop_last(), fault);
        let last = script.last();
        if stops(script.drop_last(), fault) {
            before
        } else {
            match last {
                StepView::Fault(point) => if fault == Some(point) {
                    before.push(last)
                } else {
                    before
                },
                _ => before.push(last),
            }
        }
    }
}

/// Plays one more step of a script.
fn play(
    steps: &mut Vec<PublicationStep>,
    stopped: &mut bool,
    step: PublicationStep,
    fault: Option<FaultPoint>,
    script: Ghost<Seq<StepView>>,
)
    requires
        steps_view(old(steps)@) == played(script@, fault),
        *old(stopped) == stops(script@, fault),
    ensures
        steps_view(final(steps)@) == played(script@.push(step@), fault),
        *final(stopped) == stops(script@.push(step@), fault),
{
    proof {
        let next = script@.push(step@);
        assert(next.drop_last() =~= script@);
        assert(next.last() == step@);
        if fault is Some {
            let point = StepView::Fault(fault->0);
            if script@.contains(point) {
                let i = choose|i: int| 0 <= i < script@.len() && script@[i] == point;
                assert(next[i] == point);
            }
            if next.contains(point) && step@ != point {
                let i = choose|i: int| 0 <= i < next.len() && next[i] == point;
                assert(script@[i] == point);
            }
            if step@ == point {
                assert(next[script@.len() as int] == point);
            }
        }
    }
    if *stopped {
        return;
    }
    match step {
        PublicationStep::Fault(point) => {
            if fault == Some(point) {
                push_step(steps, PublicationStep::Fault(point));
                *stopped = true;
            }
        },
        other => {
            push_step(steps, other);
        },
    }
}

/// The steps that publish a staged generation, ending early at a fault, and the
/// record with which the publication is committed. Under a fault before it that
/// record is not among those that the steps write.
pub fn publish_staged(journal: &JournalRecord, fault: Option<FaultPoint>) -> (r: PublicationPlan)
    requires
        journal.journal_sequence < u64::MAX - 2,
    ensures
        steps_view(r.steps@) == played(publish_script(journal@), fault),
        r.record@ == in_phase(
            in_phase(
                in_phase(journal@, JournalPhase::GalleryInstalled),
                JournalPhase::StateInstalled,
            ),
            JournalPhase::Committed,
        ),
{
    let gallery_installed: JournalRecord = journal.with_phase(JournalPhase::GalleryInstalled);
    let state_installed: JournalRecord = gallery_installed.with_phase(JournalPhase::StateInstalled);
    let committed: JournalRecord = state_installed.with_phase(JournalPhase::Committed);
    let mut script: Vec<PublicationStep> = Vec::new();
    push_step(&mut script, PublicationStep::Fault(FaultPoint::BeforeGalleryReplacement));
    push_step(&mut script, PublicationStep::InstallGallery(journal.gallery_sha256.clone()));
    push_step(&mut script, PublicationStep::Fault(FaultPoint::AfterGalleryReplacement));
    push_step(&mut script, PublicationStep::Fault(FaultPoint::BeforeGalleryJournal));
    push_step(&mut script, PublicationStep::WriteJournal(gallery_installed));
    push_step(&mut script, PublicationStep::Fault(FaultPoint::AfterGalleryJournal));
    push_step(&mut script, PublicationStep::Fault(FaultPoint::BeforeStateReplacement));
    push_step(&mut script, PublicationStep::InstallState(journal.state_sha256.clone()));
    push_step(&mut script, PublicationStep::Fault(FaultPoint::AfterStateReplacement));
    push_step(&mut script, PublicationStep::Fault(FaultPoint::BeforeStateJournal));
    push_step(&mut script, PublicationStep::WriteJournal(state_installed));
    push_step(&mut script, PublicationStep::Fault(FaultPoint::AfterStateJournal));
    push_step(&mut script, PublicationStep::Fault(FaultPoint::BeforeCommitted));
    push_step(
        &mut script,
        PublicationStep::VerifyActive(
            journal.gallery_sha256.clone(),
            journal.state_sha256.clone(),
        ),
    );
    push_step(&mut script, PublicationStep::WriteJournal(committed.duplicate()));
    push_step(&mut script, PublicationStep::Fault(FaultPoint::AfterCommitted));
    let ghost all = steps_view(script@);
    proof {
        assert(all =~= publish_script(journal@));
    }
    let mut steps: Vec<PublicationStep> = Vec::new();
    let mut stopped: bool = false;
    proof {
        assert(steps_view(steps@) =~= played(all.take(0), fault));
    }
    for step in it: script
        invariant
            all == steps_view(it.seq()),
            steps_view(steps@) == played(all.take(it.index() as int), fault),
            stopped == stops(all.take(it.index() as int), fault),
    {
        proof {
            assert(all[it.index() as int] == step@);
            assert(all.take(it.index() as int).push(step@) =~= all.take(it.index() as int + 1));
        }
        play(&mut steps, &mut stopped, step, fault, Ghost(all.take(it.index() as int)));
    }
    proof {
        assert(all.take(all.len() as int) =~= all);
    }
    PublicationPlan { steps, record: committed }
}

// ---------------------------------------------------------------------------
// Building
// ---------------------------------------------------------------------------
/// What is built, and where.
#[derive(Debug, PartialEq, Eq)]
pub struct PipelineOptions {
    pub source_dir: String,
    pub output_dir: String,
    pub project_title: String,
}

/// A generation that is ready to be staged and published.
#[derive(Debug, PartialEq, Eq)]
pub struct BuiltPublication {
    pub generation: String,
    pub gallery: Json,
    pub gallery_document: Vec<u8>,
    pub artifact: ArtifactRecord,
    pub plan: PublicationPlan,
}

/// Whether there is anything to publish: a change of the photos, or no gallery
/// yet.
pub open spec fn publication_due(changes: nat, gallery_exists: bool) -> bool {
    changes > 0 || !gallery_exists
}

/// Whether there is anything to publish.
pub fn publication_needed(changes: usize, gallery_exists: bool) -> (r: bool)
    ensures
        r == publication_due(changes as nat, gallery_exists),
{
    changes > 0 || !gallery_exists
}

/// The dimensions that were processed for a path; of several, the last.
pub open spec fn processed_for(
    processed: Seq<(String, ProcessedDimensions)>,
    path: Seq<char>,
) -> Option<ProcessedDimensions>
    decreases processed.len(),
{
    if processed.len() == 0 {
        None
    } else if processed.last().0@ == path {
        Some(processed.last().1)
    } else {
        processed_for(processed.drop_last(), path)
    }
}

/// Whether an earlier photo has the same path.
pub open spec fn is_repeated(current: Seq<SourcePhoto>, i: int) -> bool {
    exists|j: int|
        0 <= j < i && (#[trigger] current[j]).relative_path@ == current[i].relative_path@
}

/// The dimensions of a current photo that are known because it was processed.
/// What was processed for a path counts for the first photo with it.
pub open spec fn known_dimensions(
    current: Seq<SourcePhoto>,
    processed: Seq<(String, ProcessedDimensions)>,
    i: int,
) -> Option<ProcessedDimensions> {
    if is_repeated(current, i) {
        None
    } else {
        processed_for(processed, current[i].relative_path@)
    }
}

fn find_processed(processed: &Vec<(String, ProcessedDimensions)>, path: &str) -> (r: Option<
    ProcessedDimensions,
>)
    ensures
        r == processed_for(processed@, path@),
{
    let mut found: Option<ProcessedDimensions> = None;
    let mut i: usize = 0;
    while i < processed.len()
        invariant
            i <= processed@.len(),
            found == processed_for(processed@.take(i as int), path@),
        decreases processed@.len() - i,
    {
        proof {
            assert(processed@.take(i as int + 1).drop_last() =~= processed@.take(i as int));
        }
        if same_text(processed[i].0.as_str(), path) {
            found = Some(processed[i].1);
        }
        i = i + 1;
    }
    proof {
        assert(processed@.take(processed@.len() as int) =~= processed@);
    }
    found
}

fn repeated(current: &Vec<SourcePhoto>, i: usize) -> (r: bool)
    requires
        i < current@.len(),
    ensures
        r == is_repeated(current@, i as int),
{
    let mut j: usize = 0;
    while j < i
        invariant
            j <= i < current@.len(),
            forall|k: int|
                0 <= k < j ==> (#[trigger] current@[k]).relative_path@
                    != current@[i as int].relative_path@,
        decreases i - j,
    {
        if same_text(current[j].relative_path.as_str(), current[i].relative_path.as_str()) {
            return true;
        }
        j = j + 1;
    }
    false
}

/// The dimensions of the current photos, where they are known because the photo
/// was processed. Those of the others are those of their assets.
pub fn processed_dimensions(
    current: &Vec<SourcePhoto>,
    processed: &Vec<(String, ProcessedDimensions)>,
) -> (r: Vec<Option<ProcessedDimensions>>)
    ensures
        r@ == Seq::new(current@.len(), |i: int| known_dimensions(current@, processed@, i)),
{
    let mut r: Vec<Option<ProcessedDimensions>> = Vec::new();
    let mut i: usize = 0;
    while i < current.len()
        invariant
            i <= current@.len(),
            r@ == Seq::new(i as nat, |j: int| known_dimensions(current@, processed@, j)),
        decreases current@.len() - i,
    {
        let known: Option<ProcessedDimensions> = if repeated(current, i) {
            None
        } else {
            find_processed(processed, current[i].relative_path.as_str())
        };
        r.push(known);
        i = i + 1;
    }
    r
}

/// The name of the backup directory of a generation.
pub open spec fn backup_directory_text(previous: Option<Seq<char>>) -> Seq<char> {
    ".publisher/backups/"@ + match previous {
        Some(generation) => generation,
        None => "none"@,
    }
}

/// The first journal record of a publication.
pub open spec fn prepared_record(
    recovered: Option<JournalView>,
    gallery_sha256: Seq<char>,
    state_sha256: Seq<char>,
    active_gallery: Option<Seq<u8>>,
    active_state: Option<Seq<u8>>,
) -> JournalView {
    let generation = generation_name((last_number(recovered) + 1) as nat);
    let previous = active_generation(recovered);
    sealed_record(
        JournalView {
            schema_version: JOURNAL_SCHEMA_VERSION,
            journal_sequence: match recovered {
                Some(record) => (record.journal_sequence + 1) as u64,
                None => 1,
            },
            generation,
            previous_generation: previous,
            phase: JournalPhase::Prepared,
            gallery_sha256,
            state_sha256,
            gallery_path: "gallery.json"@,
            state_path: ".publisher/state.json"@,
            staging_directory: ".publisher/staging/"@ + generation,
            backup_directory: backup_directory_text(previous),
            previous_gallery_sha256: digest_of(active_gallery),
            previous_state_sha256: digest_of(active_state),
            record_sha256: Seq::empty(),
        },
    )
}

/// The record with which the installation of a prepared publication starts.
pub open spec fn installing_record(prepared: JournalView) -> JournalView {
    if prepared.previous_generation is Some {
        in_phase(prepared, JournalPhase::BackupCreated)
    } else {
        prepared
    }
}

/// The record with which a prepared publication is committed.
pub open spec fn committed_record(prepared: JournalView) -> JournalView {
    in_phase(
        in_phase(
            in_phase(installing_record(prepared), JournalPhase::GalleryInstalled),
            JournalPhase::StateInstalled,
        ),
        JournalPhase::Committed,
    )
}

/// The steps before the installation: the journal says that a publication is
/// prepared, and the generation it replaces is backed up.
pub open spec fn preparation_steps(prepared: JournalView) -> Seq<StepView> {
    if prepared.previous_generation is Some {
        seq![
            StepView::WriteJournal(prepared),
            StepView::CreateBackup(prepared.previous_generation->0),
            StepView::WriteJournal(in_phase(prepared, JournalPhase::BackupCreated)),
        ]
    } else {
        seq![StepView::WriteJournal(prepared)]
    }
}

/// All steps of a prepared publication. One that a fault stops does not come to
/// removing the staging directory.
pub open spec fn publication_steps(prepared: JournalView, fault: Option<FaultPoint>) -> Seq<
    StepView,
> {
    let script = publish_script(installing_record(prepared));
    if stops(script, fault) {
        preparation_steps(prepared) + played(script, fault)
    } else {
        preparation_steps(prepared) + played(script, fault) + seq![StepView::CleanStaging]
    }
}

/// Appends steps to steps.
fn append_steps(steps: &mut Vec<PublicationStep>, more: Vec<PublicationStep>)
    ensures
        steps_view(final(steps)@) == steps_view(old(steps)@) + steps_view(more@),
{
    let ghost start = steps_view(steps@);
    let ghost all = steps_view(more@);
    for step in it: more
        invariant
            all == steps_view(it.seq()),
            steps_view(steps@) == start + all.take(it.index() as int),
    {
        proof {
            assert(all[it.index() as int] == step@);
            assert((start + all.take(it.index() as int)).push(step@) =~= start + all.take(
                it.index() as int + 1,
            ));
        }
        push_step(steps, step);
    }
    proof {
        assert(all.take(all.len() as int) =~= all);
    }
}

/// The plan of a prepared publication.
pub fn publication_plan(prepared: &JournalRecord, fault: Option<FaultPoint>) -> (r: PublicationPlan)
    requires
        prepared.journal_sequence < u64::MAX - 3,
    ensures
        steps_view(r.steps@) == publication_steps(prepared@, fault),
        r.record@ == committed_record(prepared@),
{
    let mut steps: Vec<PublicationStep> = Vec::new();
    push_step(&mut steps, PublicationStep::WriteJournal(prepared.duplicate()));
    let installing: JournalRecord = match &prepared.previous_generation {
        Some(generation) => {
            let backed_up: JournalRecord = prepared.with_phase(JournalPhase::BackupCreated);
            push_step(&mut steps, PublicationStep::CreateBackup(generation.clone()));
            push_step(&mut steps, PublicationStep::WriteJournal(backed_up.duplicate()));
            backed_up
        },
        None => prepared.duplicate(),
    };
    proof {
        assert(steps_view(steps@) =~= preparation_steps(prepared@));
    }
    let plan: PublicationPlan = publish_staged(&installing, fault);
    append_steps(&mut steps, plan.steps);
    let stopped: bool = match fault {
        None => false,
        Some(FaultPoint::AfterRestoreGallery) | Some(FaultPoint::BeforeRestoreState) => false,
        Some(_) => true,
    };
    if !stopped {
        push_step(&mut steps, PublicationStep::CleanStaging);
    }
    proof {
        if fault is Some {
            lemma_publication_faults(installing@, fault->0);
        }
        assert(steps_view(steps@) =~= publication_steps(prepared@, fault));
    }
    PublicationPlan { steps, record: plan.record }
}

/// What is built from the photos: the gallery, its document, from which it is
/// read back, the record of the staged pair and the plan that publishes it.
pub open spec fn built(
    b: BuiltPublication,
    title: Seq<char>,
    photos: Seq<(SourcePhoto, ProcessedDimensions)>,
    state_document: Seq<u8>,
    recovered: Option<JournalView>,
    active_gallery: Option<Seq<u8>>,
    active_state: Option<Seq<u8>>,
    fault: Option<FaultPoint>,
) -> bool {
    let generation = generation_name((last_number(recovered) + 1) as nat);
    let document = json_pretty_encoding(gallery_json(title, photos));
    let prepared = prepared_record(
        recovered,
        hex_sha256(document),
        hex_sha256(state_document),
        active_gallery,
        active_state,
    );
    &&& b.generation@ == generation
    &&& b.gallery@ == gallery_json(title, photos)
    &&& b.gallery_document@ == document
    &&& json_document(document) == Some(b.gallery@)
    &&& b.artifact@ == artifact_of(generation, hex_sha256(document), hex_sha256(state_document))
    &&& steps_view(b.plan.steps@) == publication_steps(prepared, fault)
    &&& b.plan.record@ == committed_record(prepared)
}

/// Builds the next generation from the processed photos and the new state
/// document, after recovery left the given record and active pair. It fails
/// where the six digits of a generation have run out.
pub fn build_local_gallery_with_fault(
    options: &PipelineOptions,
    photos: &Vec<(SourcePhoto, ProcessedDimensions)>,
    state_document: &Vec<u8>,
    recovered: Option<&JournalRecord>,
    active_gallery: &Option<Vec<u8>>,
    active_state: &Option<Vec<u8>>,
    fault: Option<FaultPoint>,
) -> (r: Result<BuiltPublication, JournalError>)
    requires
        last_number(record_view(recovered)) < u64::MAX,
        recovered is Some ==> recovered->0.journal_sequence < u64::MAX - 4,
    ensures
        match r {
            Ok(b) => built(
                b,
                options.project_title@,
                photos@,
                state_document@,
                record_view(recovered),
                file_view(*active_gallery),
                file_view(*active_state),
                fault,
            ),
            Err(e) => e == JournalError::InvalidArtifactRecord,
        },
        r is Ok <==> last_number(record_view(recovered)) < 999999,
        r matches Ok(b) ==> nested(b.gallery@, "gallery"@, "title"@) == Some(
            JsonView::Text(options.project_title@),
        ),
{
    let generation: String = next_generation(recovered);
    let gallery: Json = create_gallery_json(options.project_title.as_str(), photos);
    proof {
        law_created_gallery_is_plain(options.project_title@, photos@);
        law_created_gallery_is_titled(options.project_title@, photos@);
    }
    let gallery_document: Vec<u8> = encode_pretty(&gallery);
    let gallery_hash: String = hex_digest(gallery_document.as_slice());
    let state_hash: String = hex_digest(state_document.as_slice());
    let artifact: ArtifactRecord = ArtifactRecord::new(
        generation.clone(),
        gallery_hash.clone(),
        state_hash.clone(),
    );
    proof {
        let number = (last_number(record_view(recovered)) + 1) as nat;
        if number <= 999999 {
            law_generation_name_is_valid(number);
        } else {
            law_generations_run_out(number);
        }
    }
    match artifact.validate() {
        Ok(()) => {},
        Err(e) => {
            return Err(e);
        },
    }
    let previous: Option<String> = valid_generation(recovered);
    let staging_directory: String = joined(".publisher/staging/", generation.as_str());
    let backup_directory: String = match &previous {
        Some(name) => joined(".publisher/backups/", name.as_str()),
        None => joined(".publisher/backups/", "none"),
    };
    let sequence: u64 = match recovered {
        Some(record) => record.journal_sequence + 1,
        None => 1,
    };
    let prepared: JournalRecord = JournalRecord::new(
        sequence,
        generation.clone(),
        previous,
        JournalPhase::Prepared,
        gallery_hash,
        state_hash,
        staging_directory,
        backup_directory,
        existing_hash(active_gallery),
        existing_hash(active_state),
    );
    let plan: PublicationPlan = publication_plan(&prepared, fault);
    Ok(BuiltPublication { generation, gallery, gallery_document, artifact, plan })
}

/// Builds the next generation without a fault.
pub fn build_local_gallery(
    options: &PipelineOptions,
    photos: &Vec<(SourcePhoto, ProcessedDimensions)>,
    state_document: &Vec<u8>,
    recovered: Option<&JournalRecord>,
    active_gallery: &Option<Vec<u8>>,
    active_state: &Option<Vec<u8>>,
) -> (r: Result<BuiltPublication, JournalError>)
    requires
        last_number(record_view(recovered)) < u64::MAX,
        recovered is Some ==> recovered->0.journal_sequence < u64::MAX - 4,
    ensures
        match r {
            Ok(b) => built(
                b,
                options.project_title@,
                photos@,
                state_document@,
                record_view(recovered),
                file_view(*active_gallery),
                file_view(*active_state),
                None,
            ),
            Err(e) => e == JournalError::InvalidArtifactRecord,
        },
        r is Ok <==> last_number(record_view(recovered)) < 999999,
        r matches Ok(b) ==> nested(b.gallery@, "gallery"@, "title"@) == Some(
            JsonView::Text(options.project_title@),
        ),
{
    build_local_gallery_with_fault(
        options,
        photos,
        state_document,
        recovered,
        active_gallery,
        active_state,
        None,
    )
}

} // verus!
